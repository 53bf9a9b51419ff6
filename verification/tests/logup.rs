//! The logup permutation argument end to end: the toy two-chip system, the
//! mismatched multiset, padding rows, and challenge collisions.

use sp1_core::builder::ConstraintBuilder;
use sp1_core::builder::DebugConstraintBuilder;
use sp1_core::chip::Chip;
use sp1_core::extension::ExtFelt;
use sp1_core::field::Felt;
use sp1_core::interaction::Interaction;
use sp1_core::interaction::InteractionKind;
use sp1_core::lookup_air::LookupAir;
use sp1_core::matrix::RowMajorMatrix;
use sp1_core::permutation::check_cumulative_sums;
use sp1_core::permutation::LogupError;
use sp1_core::symbolic::SymExpr;
use sp1_core::virtual_column::PairCol;
use sp1_core::virtual_column::VirtualPairCol;

fn felt(x: u32) -> Felt {
    Felt::from_u32(x)
}

fn ext(a: u64, b: u64, c: u64, d: u64) -> ExtFelt {
    ExtFelt {
        c0: Felt { value: a },
        c1: Felt { value: b },
        c2: Felt { value: c },
        c3: Felt { value: d },
    }
}

fn challenges() -> Vec<ExtFelt> {
    // beta, then alpha.
    vec![ext(7, 3, 1, 9), ext(2, 5, 8, 4)]
}

/// A multiplicity column reading main cell 0 with the given weight.
fn mult(weight: u32) -> VirtualPairCol {
    VirtualPairCol::new(vec![(PairCol::Main(0), felt(weight))], Felt::zero())
}

/// The tuple `(3, 5)` as constant value columns.
fn tuple_3_5() -> Vec<VirtualPairCol> {
    vec![VirtualPairCol::constant(felt(3)), VirtualPairCol::constant(felt(5))]
}

fn sender_chip(weight: u32) -> Chip<LookupAir> {
    Chip::new(LookupAir {
        width: 1,
        constraints: vec![SymExpr::booleanity(0)],
        sends: vec![Interaction {
            values: tuple_3_5(),
            multiplicity: mult(weight),
            kind: InteractionKind::Memory,
        }],
        receives: vec![],
    })
}

fn receiver_chip(weight: u32) -> Chip<LookupAir> {
    Chip::new(LookupAir {
        width: 1,
        constraints: vec![SymExpr::booleanity(0)],
        sends: vec![],
        receives: vec![Interaction {
            values: tuple_3_5(),
            multiplicity: mult(weight),
            kind: InteractionKind::Memory,
        }],
    })
}

/// A 1-column main trace: two real rows and two inert padding rows.
fn toy_main_trace() -> RowMajorMatrix<Felt> {
    RowMajorMatrix::new(vec![felt(1), felt(1), felt(0), felt(0)], 1)
}

#[test]
fn matched_multisets_cancel() {
    // Chip A sends (3, 5) with multiplicity 2; chip B receives the identical
    // tuple with multiplicity 2: the global accumulated value is exactly zero.
    let a = sender_chip(2);
    let b = receiver_chip(2);
    let main = toy_main_trace();
    for chals in [challenges(), vec![ext(101, 55, 17, 3), ext(13, 29, 31, 37)]] {
        let pa = a.generate_permutation_trace(&None, &main, &chals).unwrap();
        let pb = b.generate_permutation_trace(&None, &main, &chals).unwrap();
        assert_eq!(pa.width, 2);
        assert_eq!(pb.width, 2);
        assert!(check_cumulative_sums(&vec![pa, pb]));
    }
}

#[test]
fn mismatched_multiplicity_is_rejected() {
    // Chip B receives with multiplicity 1 instead of 2: the multisets differ
    // and the debug check must reject with a nonzero final sum.
    let a = sender_chip(2);
    let b = receiver_chip(1);
    let main = toy_main_trace();
    let pa = a.generate_permutation_trace(&None, &main, &challenges()).unwrap();
    let pb = b.generate_permutation_trace(&None, &main, &challenges()).unwrap();
    assert!(!check_cumulative_sums(&vec![pa, pb]));
}

#[test]
fn padding_rows_never_change_the_sum() {
    // The same two real rows padded to four and to sixteen rows accumulate to
    // the same final value.
    let a = sender_chip(2);
    let short = toy_main_trace();
    let mut long_cells = vec![felt(1), felt(1)];
    for _ in 2..16 {
        long_cells.push(felt(0));
    }
    let long = RowMajorMatrix::new(long_cells, 1);
    let ps = a.generate_permutation_trace(&None, &short, &challenges()).unwrap();
    let pl = a.generate_permutation_trace(&None, &long, &challenges()).unwrap();
    let sum_short = ps.get(ps.height() - 1, ps.width - 1);
    let sum_long = pl.get(pl.height() - 1, pl.width - 1);
    assert_eq!(sum_short, sum_long);
}

#[test]
fn sends_minus_receives_on_one_chip() {
    // A single chip both sending and receiving the same active tuple nets to
    // zero on its own.
    let chip = Chip::new(LookupAir {
        width: 1,
        constraints: vec![],
        sends: vec![Interaction {
            values: tuple_3_5(),
            multiplicity: mult(2),
            kind: InteractionKind::Memory,
        }],
        receives: vec![Interaction {
            values: tuple_3_5(),
            multiplicity: mult(2),
            kind: InteractionKind::Memory,
        }],
    });
    let main = toy_main_trace();
    let p = chip.generate_permutation_trace(&None, &main, &challenges()).unwrap();
    assert_eq!(p.width, 3);
    assert!(check_cumulative_sums(&vec![p]));
}

#[test]
fn challenge_collision_is_a_distinct_fatal_error() {
    // An interaction with no values under kind Memory has fingerprint 1; with
    // beta = 1 the denominator is zero and inversion must fail loudly.
    let chip = Chip::new(LookupAir {
        width: 1,
        constraints: vec![],
        sends: vec![Interaction {
            values: vec![],
            multiplicity: VirtualPairCol::constant(felt(1)),
            kind: InteractionKind::Memory,
        }],
        receives: vec![],
    });
    let main = toy_main_trace();
    let colliding = vec![ext(1, 0, 0, 0), ext(2, 5, 8, 4)];
    let r = chip.generate_permutation_trace(&None, &main, &colliding);
    assert_eq!(r.unwrap_err(), LogupError::ChallengeCollision { row: 0, interaction: 0 });
}

fn debug_builder_for_row(
    main: &RowMajorMatrix<Felt>,
    perm: &RowMajorMatrix<ExtFelt>,
    row: usize,
    cumulative: ExtFelt,
) -> DebugConstraintBuilder {
    let height = main.height();
    let next = (row + 1) % height;
    DebugConstraintBuilder {
        preprocessed: vec![],
        main: main.row(row),
        perm_local: perm.row(row),
        perm_next: perm.row(next),
        perm_challenges: challenges(),
        cumulative_sum: cumulative,
        is_first_row: row == 0,
        is_last_row: row == height - 1,
        is_transition: row < height - 1,
        row,
        constraint_index: 0,
        violations: vec![],
    }
}

#[test]
fn debug_builder_accepts_a_consistent_trace() {
    // Every row of a freshly generated trace satisfies the local and the
    // permutation constraints under the debug semantics.
    let a = sender_chip(2);
    let main = toy_main_trace();
    let perm = a.generate_permutation_trace(&None, &main, &challenges()).unwrap();
    let cumulative = perm.get(perm.height() - 1, perm.width - 1);
    for row in 0..main.height() {
        let db = debug_builder_for_row(&main, &perm, row, cumulative);
        let mut builder = ConstraintBuilder::Debug(db);
        a.eval(&mut builder);
        match builder {
            ConstraintBuilder::Debug(db) => {
                assert!(db.violations.is_empty(), "row {} violated", row);
            }
            _ => unreachable!(),
        }
    }
}

#[test]
fn debug_builder_reports_row_and_constraint_of_a_violation() {
    // Claiming a wrong cumulative value makes the last-row boundary constraint
    // fail, and the violation names the offending row and constraint.
    let a = sender_chip(2);
    let main = toy_main_trace();
    let perm = a.generate_permutation_trace(&None, &main, &challenges()).unwrap();
    let last = main.height() - 1;
    let wrong = ext(999, 0, 0, 0);
    let db = debug_builder_for_row(&main, &perm, last, wrong);
    let mut builder = ConstraintBuilder::Debug(db);
    a.eval(&mut builder);
    match builder {
        ConstraintBuilder::Debug(db) => {
            assert_eq!(db.violations.len(), 1);
            assert_eq!(db.violations[0].row, last);
            // One local constraint, one column constraint, then the three
            // boundary constraints: the last-row check is number 4.
            assert_eq!(db.violations[0].constraint, 4);
        }
        _ => unreachable!(),
    }
}

#[test]
fn folding_builder_is_deterministic() {
    // The prover/verifier folding semantics accumulates the same value for
    // the same point data.
    let a = sender_chip(2);
    let main = toy_main_trace();
    let perm = a.generate_permutation_trace(&None, &main, &challenges()).unwrap();
    let cumulative = perm.get(perm.height() - 1, perm.width - 1);
    let make = || sp1_core::builder::ConstraintFolder {
        preprocessed: vec![],
        main: vec![ExtFelt::from_base(felt(1))],
        perm_local: perm.row(0),
        perm_next: perm.row(1),
        perm_challenges: challenges(),
        cumulative_sum: cumulative,
        is_first_row: ExtFelt::one(),
        is_last_row: ExtFelt::zero(),
        is_transition: ExtFelt::one(),
        alpha: ext(11, 0, 3, 0),
        accumulator: ExtFelt::zero(),
    };
    let mut b1 = ConstraintBuilder::Fold(make());
    let mut b2 = ConstraintBuilder::Fold(make());
    a.eval(&mut b1);
    a.eval(&mut b2);
    match (b1, b2) {
        (ConstraintBuilder::Fold(f1), ConstraintBuilder::Fold(f2)) => {
            assert_eq!(f1.accumulator, f2.accumulator);
        }
        _ => unreachable!(),
    }
}
