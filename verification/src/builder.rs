//! The constraint builders: four semantics behind one interface.
//!
//! An AIR's `eval` body is written once against `ConstraintBuilder`; the
//! variant supplied decides what the calls mean. Symbolic collection harvests
//! the declared interactions and ignores constraint values; debug assertion
//! evaluates every constraint on one concrete row and records violations;
//! quotient folding accumulates the random linear combination of constraint
//! values that the prover folds into the quotient and the verifier re-evaluates
//! at a point.

use vstd::prelude::*;

use crate::extension::ext_add_spec;
use crate::extension::ext_mul_spec;
use crate::extension::ExtFelt;
use crate::field::Felt;
use crate::interaction::Interaction;
use crate::interaction::InteractionKind;
use crate::interaction::InteractionModel;
use crate::interaction::models_of;
use crate::symbolic::SymExpr;
use crate::virtual_column::row_wf;
use crate::virtual_column::VirtualPairCol;

verus! {

/// The symbolic-collection context: a one-shot pass that appends every
/// interaction an AIR declares, in emission order, to the send or receive
/// list. It performs no field arithmetic.
#[derive(Debug)]
pub struct InteractionBuilder {
    pub preprocessed_width: usize,
    pub main_width: usize,
    pub sends: Vec<Interaction>,
    pub receives: Vec<Interaction>,
}

impl InteractionBuilder {
    /// A fresh builder for an AIR of the given main-trace width.
    pub fn new(width: usize) -> (r: InteractionBuilder)
        ensures
            r.preprocessed_width == 0,
            r.main_width == width,
            r.sends@.len() == 0,
            r.receives@.len() == 0,
    {
        InteractionBuilder {
            preprocessed_width: 0,
            main_width: width,
            sends: Vec::new(),
            receives: Vec::new(),
        }
    }

    /// The declared main-trace width, for sizing downstream structures.
    pub fn main_width(&self) -> (r: usize)
        ensures
            r == self.main_width,
    {
        self.main_width
    }

    /// Surrender the harvested interaction lists.
    pub fn interactions(self) -> (r: (Vec<Interaction>, Vec<Interaction>))
        ensures
            r.0 == self.sends,
            r.1 == self.receives,
    {
        (self.sends, self.receives)
    }
}

/// One recorded constraint failure: the offending row and the position of the
/// constraint in evaluation order. The chip is named by the caller that owns
/// the builder.
#[derive(Clone, Copy, Debug, PartialEq, Eq, Structural)]
pub struct ConstraintViolation {
    pub row: usize,
    pub constraint: usize,
}

/// The concrete debug-assertion context: one row of the main and permutation
/// traces, with every constraint checked over actual field values.
#[derive(Debug)]
pub struct DebugConstraintBuilder {
    pub preprocessed: Vec<Felt>,
    pub main: Vec<Felt>,
    pub perm_local: Vec<ExtFelt>,
    pub perm_next: Vec<ExtFelt>,
    pub perm_challenges: Vec<ExtFelt>,
    pub cumulative_sum: ExtFelt,
    pub is_first_row: bool,
    pub is_last_row: bool,
    pub is_transition: bool,
    pub row: usize,
    pub constraint_index: usize,
    pub violations: Vec<ConstraintViolation>,
}

impl DebugConstraintBuilder {
    /// Canonical rows and challenges.
    pub open spec fn wf(self) -> bool {
        &&& row_wf(self.preprocessed@, self.preprocessed@.len() as int)
        &&& row_wf(self.main@, self.main@.len() as int)
        &&& forall|i: int| 0 <= i < self.perm_local@.len() ==> (#[trigger] self.perm_local@[i]).wf()
        &&& forall|i: int| 0 <= i < self.perm_next@.len() ==> (#[trigger] self.perm_next@[i]).wf()
        &&& self.perm_challenges@.len() == 2
        &&& self.perm_challenges@[0].wf()
        &&& self.perm_challenges@[1].wf()
        &&& self.cumulative_sum.wf()
    }
}

/// The quotient-folding context: point values of every row, a folding
/// challenge, and the running accumulator. The prover folds it per trace row;
/// the verifier folds it once at the out-of-domain point.
#[derive(Debug)]
pub struct ConstraintFolder {
    pub preprocessed: Vec<ExtFelt>,
    pub main: Vec<ExtFelt>,
    pub perm_local: Vec<ExtFelt>,
    pub perm_next: Vec<ExtFelt>,
    pub perm_challenges: Vec<ExtFelt>,
    pub cumulative_sum: ExtFelt,
    pub is_first_row: ExtFelt,
    pub is_last_row: ExtFelt,
    pub is_transition: ExtFelt,
    pub alpha: ExtFelt,
    pub accumulator: ExtFelt,
}

impl ConstraintFolder {
    /// Canonical point values and challenges.
    pub open spec fn wf(self) -> bool {
        &&& forall|i: int|
            0 <= i < self.preprocessed@.len() ==> (#[trigger] self.preprocessed@[i]).wf()
        &&& forall|i: int| 0 <= i < self.main@.len() ==> (#[trigger] self.main@[i]).wf()
        &&& forall|i: int| 0 <= i < self.perm_local@.len() ==> (#[trigger] self.perm_local@[i]).wf()
        &&& forall|i: int| 0 <= i < self.perm_next@.len() ==> (#[trigger] self.perm_next@[i]).wf()
        &&& self.perm_challenges@.len() == 2
        &&& self.perm_challenges@[0].wf()
        &&& self.perm_challenges@[1].wf()
        &&& self.cumulative_sum.wf()
        &&& self.is_first_row.wf()
        &&& self.is_last_row.wf()
        &&& self.is_transition.wf()
        &&& self.alpha.wf()
        &&& self.accumulator.wf()
    }
}

/// One constraint-evaluation context, dispatching among the builder semantics.
#[derive(Debug)]
pub enum ConstraintBuilder {
    Collect(InteractionBuilder),
    Debug(DebugConstraintBuilder),
    Fold(ConstraintFolder),
}

/// The violations the debug semantics records for a constraint list, with
/// identities numbered from `start`.
pub open spec fn debug_violations(
    constraints: Seq<SymExpr>,
    preprocessed: Seq<Felt>,
    main: Seq<Felt>,
    row: usize,
    start: int,
) -> Seq<ConstraintViolation>
    decreases constraints.len(),
{
    if constraints.len() == 0 {
        Seq::empty()
    } else {
        (if constraints[0].spec_eval(preprocessed, main) == Felt::spec_zero() {
            Seq::empty()
        } else {
            seq![ConstraintViolation { row, constraint: start as usize }]
        }) + debug_violations(constraints.skip(1), preprocessed, main, row, start + 1)
    }
}

/// The accumulator after folding a constraint list under the folding
/// challenge.
pub open spec fn fold_iter(
    constraints: Seq<SymExpr>,
    preprocessed: Seq<ExtFelt>,
    main: Seq<ExtFelt>,
    alpha: ExtFelt,
    acc: ExtFelt,
) -> ExtFelt
    decreases constraints.len(),
{
    if constraints.len() == 0 {
        acc
    } else {
        fold_iter(
            constraints.skip(1),
            preprocessed,
            main,
            alpha,
            ext_add_spec(ext_mul_spec(acc, alpha), constraints[0].spec_eval_ext(preprocessed, main)),
        )
    }
}

/// All debug-builder fields but the violation list and the constraint counter
/// are unchanged.
pub open spec fn debug_frame(a: DebugConstraintBuilder, b: DebugConstraintBuilder) -> bool {
    &&& b.preprocessed == a.preprocessed
    &&& b.main == a.main
    &&& b.perm_local == a.perm_local
    &&& b.perm_next == a.perm_next
    &&& b.perm_challenges == a.perm_challenges
    &&& b.cumulative_sum == a.cumulative_sum
    &&& b.is_first_row == a.is_first_row
    &&& b.is_last_row == a.is_last_row
    &&& b.is_transition == a.is_transition
    &&& b.row == a.row
}

/// All folder fields but the accumulator are unchanged.
pub open spec fn fold_frame(a: ConstraintFolder, b: ConstraintFolder) -> bool {
    &&& b.preprocessed == a.preprocessed
    &&& b.main == a.main
    &&& b.perm_local == a.perm_local
    &&& b.perm_next == a.perm_next
    &&& b.perm_challenges == a.perm_challenges
    &&& b.cumulative_sum == a.cumulative_sum
    &&& b.is_first_row == a.is_first_row
    &&& b.is_last_row == a.is_last_row
    &&& b.is_transition == a.is_transition
    &&& b.alpha == a.alpha
}

/// What one AIR evaluation does to a builder: under collection the declared
/// interactions are appended in order and constraint values are ignored; under
/// debug assertion the violations of the constraint list are recorded; under
/// folding the constraint values are folded into the accumulator. The variant
/// never changes.
pub open spec fn eval_effect(
    before: ConstraintBuilder,
    after: ConstraintBuilder,
    constraints: Seq<SymExpr>,
    sends: Seq<InteractionModel>,
    receives: Seq<InteractionModel>,
) -> bool {
    match (before, after) {
        (ConstraintBuilder::Collect(a), ConstraintBuilder::Collect(b)) => {
            &&& models_of(b.sends@) == models_of(a.sends@) + sends
            &&& models_of(b.receives@) == models_of(a.receives@) + receives
            &&& b.preprocessed_width == a.preprocessed_width
            &&& b.main_width == a.main_width
        },
        (ConstraintBuilder::Debug(a), ConstraintBuilder::Debug(b)) => {
            &&& b.violations@ == a.violations@ + debug_violations(
                constraints,
                a.preprocessed@,
                a.main@,
                a.row,
                a.constraint_index as int,
            )
            &&& b.constraint_index as int == a.constraint_index as int + constraints.len()
            &&& debug_frame(a, b)
        },
        (ConstraintBuilder::Fold(a), ConstraintBuilder::Fold(b)) => {
            &&& b.accumulator == fold_iter(
                constraints,
                a.preprocessed@,
                a.main@,
                a.alpha,
                a.accumulator,
            )
            &&& fold_frame(a, b)
        },
        _ => false,
    }
}

impl ConstraintBuilder {
    /// Canonical contents, whatever the variant.
    pub open spec fn wf(self) -> bool {
        match self {
            ConstraintBuilder::Collect(_) => true,
            ConstraintBuilder::Debug(db) => db.wf(),
            ConstraintBuilder::Fold(f) => f.wf(),
        }
    }

    /// The preprocessed-row width this builder supplies.
    pub open spec fn spec_preprocessed_width(self) -> int {
        match self {
            ConstraintBuilder::Collect(ib) => ib.preprocessed_width as int,
            ConstraintBuilder::Debug(db) => db.preprocessed@.len() as int,
            ConstraintBuilder::Fold(f) => f.preprocessed@.len() as int,
        }
    }

    /// The main-row width this builder supplies.
    pub open spec fn spec_main_width(self) -> int {
        match self {
            ConstraintBuilder::Collect(ib) => ib.main_width as int,
            ConstraintBuilder::Debug(db) => db.main@.len() as int,
            ConstraintBuilder::Fold(f) => f.main@.len() as int,
        }
    }

    /// Room for `n` more constraint identities in the debug counter.
    pub open spec fn headroom(self, n: int) -> bool {
        match self {
            ConstraintBuilder::Debug(db) => db.constraint_index as int + n <= usize::MAX as int,
            _ => true,
        }
    }

    /// Declare that a constraint expression must be zero on every row.
    pub fn assert_zero(&mut self, e: &SymExpr)
        requires
            old(self).wf(),
            old(self).headroom(1),
            e.wf(old(self).spec_preprocessed_width(), old(self).spec_main_width()),
        ensures
            eval_effect(*old(self), *final(self), seq![*e], Seq::empty(), Seq::empty()),
            final(self).wf(),
            final(self).spec_preprocessed_width() == old(self).spec_preprocessed_width(),
            final(self).spec_main_width() == old(self).spec_main_width(),
    {
        match self {
            ConstraintBuilder::Collect(_) => {
                proof {
                    assert(*self == *old(self));
                    let b = old(self)->Collect_0;
                    assert(models_of(b.sends@) + Seq::<InteractionModel>::empty() =~= models_of(
                        b.sends@,
                    ));
                    assert(models_of(b.receives@) + Seq::<InteractionModel>::empty() =~= models_of(
                        b.receives@,
                    ));
                }
            },
            ConstraintBuilder::Debug(db) => {
                let v = e.eval(&db.preprocessed, &db.main);
                if !(v == Felt::zero()) {
                    db.violations.push(
                        ConstraintViolation { row: db.row, constraint: db.constraint_index },
                    );
                }
                db.constraint_index = db.constraint_index + 1;
                proof {
                    assert(seq![*e].skip(1) =~= Seq::<SymExpr>::empty());
                    let a = old(self)->Debug_0;
                    assert(debug_violations(
                        Seq::<SymExpr>::empty(),
                        a.preprocessed@,
                        a.main@,
                        a.row,
                        a.constraint_index as int + 1,
                    ) =~= Seq::<ConstraintViolation>::empty());
                    assert(seq![*e][0] == *e);
                    assert(db.violations@ =~= a.violations@ + debug_violations(
                        seq![*e],
                        a.preprocessed@,
                        a.main@,
                        a.row,
                        a.constraint_index as int,
                    ));
                }
            },
            ConstraintBuilder::Fold(f) => {
                let v = e.eval_ext(&f.preprocessed, &f.main);
                f.accumulator = f.accumulator.mul(f.alpha).add(v);
                proof {
                    let a = old(self)->Fold_0;
                    assert(seq![*e].skip(1) =~= Seq::<SymExpr>::empty());
                    assert(seq![*e][0] == *e);
                    assert(fold_iter(
                        Seq::<SymExpr>::empty(),
                        a.preprocessed@,
                        a.main@,
                        a.alpha,
                        f.accumulator,
                    ) == f.accumulator);
                }
            },
        }
    }

    /// Declare one sent interaction.
    pub fn send(
        &mut self,
        values: Vec<VirtualPairCol>,
        multiplicity: VirtualPairCol,
        kind: InteractionKind,
    )
        requires
            old(self).wf(),
        ensures
            eval_effect(
                *old(self),
                *final(self),
                Seq::empty(),
                seq![(Interaction { values, multiplicity, kind }).model()],
                Seq::empty(),
            ),
            final(self).wf(),
            final(self).spec_preprocessed_width() == old(self).spec_preprocessed_width(),
            final(self).spec_main_width() == old(self).spec_main_width(),
    {
        match self {
            ConstraintBuilder::Collect(ib) => {
                let ghost itx = Interaction { values, multiplicity, kind };
                ib.sends.push(Interaction { values, multiplicity, kind });
                proof {
                    let a = old(self)->Collect_0;
                    assert(ib.sends@ == a.sends@.push(itx));
                    assert(models_of(ib.sends@) =~= models_of(a.sends@) + seq![itx.model()]);
                    assert(models_of(ib.receives@) =~= models_of(a.receives@)
                        + Seq::<InteractionModel>::empty());
                }
            },
            ConstraintBuilder::Debug(_) => {
                proof {
                    assert(*self == *old(self));
                    let a = old(self)->Debug_0;
                    assert(a.violations@ + debug_violations(
                        Seq::<SymExpr>::empty(),
                        a.preprocessed@,
                        a.main@,
                        a.row,
                        a.constraint_index as int,
                    ) =~= a.violations@);
                }
            },
            ConstraintBuilder::Fold(_) => {
                proof {
                    assert(*self == *old(self));
                }
            },
        }
    }

    /// Declare one received interaction.
    pub fn receive(
        &mut self,
        values: Vec<VirtualPairCol>,
        multiplicity: VirtualPairCol,
        kind: InteractionKind,
    )
        requires
            old(self).wf(),
        ensures
            eval_effect(
                *old(self),
                *final(self),
                Seq::empty(),
                Seq::empty(),
                seq![(Interaction { values, multiplicity, kind }).model()],
            ),
            final(self).wf(),
            final(self).spec_preprocessed_width() == old(self).spec_preprocessed_width(),
            final(self).spec_main_width() == old(self).spec_main_width(),
    {
        match self {
            ConstraintBuilder::Collect(ib) => {
                let ghost itx = Interaction { values, multiplicity, kind };
                ib.receives.push(Interaction { values, multiplicity, kind });
                proof {
                    let a = old(self)->Collect_0;
                    assert(ib.receives@ == a.receives@.push(itx));
                    assert(models_of(ib.receives@) =~= models_of(a.receives@) + seq![itx.model()]);
                    assert(models_of(ib.sends@) =~= models_of(a.sends@)
                        + Seq::<InteractionModel>::empty());
                }
            },
            ConstraintBuilder::Debug(_) => {
                proof {
                    assert(*self == *old(self));
                    let a = old(self)->Debug_0;
                    assert(a.violations@ + debug_violations(
                        Seq::<SymExpr>::empty(),
                        a.preprocessed@,
                        a.main@,
                        a.row,
                        a.constraint_index as int,
                    ) =~= a.violations@);
                }
            },
            ConstraintBuilder::Fold(_) => {
                proof {
                    assert(*self == *old(self));
                }
            },
        }
    }
}

/// Checking one more constraint appends its violations.
pub proof fn lemma_debug_violations_push(
    constraints: Seq<SymExpr>,
    c: SymExpr,
    preprocessed: Seq<Felt>,
    main: Seq<Felt>,
    row: usize,
    start: int,
)
    ensures
        debug_violations(constraints.push(c), preprocessed, main, row, start) == debug_violations(
            constraints,
            preprocessed,
            main,
            row,
            start,
        ) + debug_violations(seq![c], preprocessed, main, row, start + constraints.len()),
    decreases constraints.len(),
{
    if constraints.len() == 0 {
        assert(constraints.push(c)[0] == c);
        assert(constraints.push(c).skip(1) =~= Seq::<SymExpr>::empty());
        assert(seq![c][0] == c);
        assert(seq![c].skip(1) =~= Seq::<SymExpr>::empty());
        assert(debug_violations(constraints.push(c), preprocessed, main, row, start)
            =~= debug_violations(constraints, preprocessed, main, row, start) + debug_violations(
            seq![c],
            preprocessed,
            main,
            row,
            start + constraints.len(),
        ));
    } else {
        assert(constraints.push(c)[0] == constraints[0]);
        assert(constraints.push(c).skip(1) =~= constraints.skip(1).push(c));
        lemma_debug_violations_push(constraints.skip(1), c, preprocessed, main, row, start + 1);
        assert(debug_violations(constraints.push(c), preprocessed, main, row, start)
            =~= debug_violations(constraints, preprocessed, main, row, start) + debug_violations(
            seq![c],
            preprocessed,
            main,
            row,
            start + constraints.len(),
        ));
    }
}

/// Folding one more constraint folds its value onto the result.
pub proof fn lemma_fold_iter_push(
    constraints: Seq<SymExpr>,
    c: SymExpr,
    preprocessed: Seq<ExtFelt>,
    main: Seq<ExtFelt>,
    alpha: ExtFelt,
    acc: ExtFelt,
)
    ensures
        fold_iter(constraints.push(c), preprocessed, main, alpha, acc) == ext_add_spec(
            ext_mul_spec(fold_iter(constraints, preprocessed, main, alpha, acc), alpha),
            c.spec_eval_ext(preprocessed, main),
        ),
    decreases constraints.len(),
{
    if constraints.len() == 0 {
        assert(constraints.push(c)[0] == c);
        assert(constraints.push(c).skip(1) =~= Seq::<SymExpr>::empty());
        assert(fold_iter(
            Seq::<SymExpr>::empty(),
            preprocessed,
            main,
            alpha,
            ext_add_spec(ext_mul_spec(acc, alpha), c.spec_eval_ext(preprocessed, main)),
        ) == ext_add_spec(ext_mul_spec(acc, alpha), c.spec_eval_ext(preprocessed, main)));
    } else {
        assert(constraints.push(c)[0] == constraints[0]);
        assert(constraints.push(c).skip(1) =~= constraints.skip(1).push(c));
        lemma_fold_iter_push(
            constraints.skip(1),
            c,
            preprocessed,
            main,
            alpha,
            ext_add_spec(
                ext_mul_spec(acc, alpha),
                constraints[0].spec_eval_ext(preprocessed, main),
            ),
        );
    }
}

} // verus!
