//! Virtual columns: affine combinations of trace cells.
//!
//! A virtual column stands for `constant + sum_i cell(col_i) * weight_i`, where
//! each logical column reference picks a cell of either the preprocessed row or
//! the main row. Evaluation is defined both over the base field (trace
//! population, debug checking) and over the extension field (point evaluation);
//! the two agree through the canonical embedding.

use vstd::prelude::*;

use crate::extension::ext_add_spec;
use crate::extension::ext_mul_spec;
use crate::extension::ExtFelt;
use crate::field::fadd;
use crate::field::fmul;
use crate::field::Felt;

verus! {

/// A reference to one cell of a logical trace row.
#[derive(Clone, Copy, Debug, PartialEq, Eq, Structural)]
pub enum PairCol {
    /// A cell of the preprocessed row.
    Preprocessed(usize),
    /// A cell of the main row.
    Main(usize),
}

impl PairCol {
    /// The cell this reference picks out of the two rows.
    pub open spec fn spec_get(self, preprocessed: Seq<Felt>, main: Seq<Felt>) -> Felt {
        match self {
            PairCol::Preprocessed(i) => preprocessed[i as int],
            PairCol::Main(i) => main[i as int],
        }
    }

    /// Whether the reference stays inside rows of the given widths.
    pub open spec fn in_bounds(self, preprocessed_width: int, main_width: int) -> bool {
        match self {
            PairCol::Preprocessed(i) => i < preprocessed_width,
            PairCol::Main(i) => i < main_width,
        }
    }

    /// Read the referenced cell.
    pub fn get(self, preprocessed: &Vec<Felt>, main: &Vec<Felt>) -> (r: Felt)
        requires
            self.in_bounds(preprocessed.len() as int, main.len() as int),
        ensures
            r == self.spec_get(preprocessed@, main@),
    {
        match self {
            PairCol::Preprocessed(i) => preprocessed[i],
            PairCol::Main(i) => main[i],
        }
    }
}

/// Well-formedness of a weight list against the two row widths: every column
/// reference in bounds and every weight canonical.
pub open spec fn weights_wf(
    weights: Seq<(PairCol, Felt)>,
    preprocessed_width: int,
    main_width: int,
) -> bool {
    forall|i: int|
        0 <= i < weights.len() ==> (#[trigger] weights[i]).0.in_bounds(
            preprocessed_width,
            main_width,
        ) && weights[i].1.wf()
}

/// Rows on which a virtual column may be evaluated: canonical cells of the
/// right widths.
pub open spec fn row_wf(row: Seq<Felt>, width: int) -> bool {
    row.len() == width && forall|i: int| 0 <= i < row.len() ==> (#[trigger] row[i]).wf()
}

/// Base-field evaluation of the affine terms, folded left over `acc`.
pub open spec fn eval_terms(
    weights: Seq<(PairCol, Felt)>,
    preprocessed: Seq<Felt>,
    main: Seq<Felt>,
    acc: Felt,
) -> Felt
    decreases weights.len(),
{
    if weights.len() == 0 {
        acc
    } else {
        eval_terms(
            weights.skip(1),
            preprocessed,
            main,
            Felt {
                value: fadd(
                    acc.value as int,
                    fmul(
                        weights[0].0.spec_get(preprocessed, main).value as int,
                        weights[0].1.value as int,
                    ),
                ) as u64,
            },
        )
    }
}

/// What an affine virtual column evaluates to over the base field.
pub open spec fn eval_virtual_col(
    weights: Seq<(PairCol, Felt)>,
    constant: Felt,
    preprocessed: Seq<Felt>,
    main: Seq<Felt>,
) -> Felt {
    eval_terms(weights, preprocessed, main, constant)
}

/// Extension-field evaluation of the affine terms, with base-field weights
/// acting through the canonical embedding.
pub open spec fn eval_terms_ext(
    weights: Seq<(PairCol, Felt)>,
    preprocessed: Seq<ExtFelt>,
    main: Seq<ExtFelt>,
    acc: ExtFelt,
) -> ExtFelt
    decreases weights.len(),
{
    if weights.len() == 0 {
        acc
    } else {
        eval_terms_ext(
            weights.skip(1),
            preprocessed,
            main,
            ext_add_spec(
                acc,
                ext_mul_spec(
                    match weights[0].0 {
                        PairCol::Preprocessed(i) => preprocessed[i as int],
                        PairCol::Main(i) => main[i as int],
                    },
                    ExtFelt::spec_from_base(weights[0].1),
                ),
            ),
        )
    }
}

/// What an affine virtual column evaluates to over the extension field.
pub open spec fn eval_virtual_col_ext(
    weights: Seq<(PairCol, Felt)>,
    constant: Felt,
    preprocessed: Seq<ExtFelt>,
    main: Seq<ExtFelt>,
) -> ExtFelt {
    eval_terms_ext(weights, preprocessed, main, ExtFelt::spec_from_base(constant))
}

/// An affine combination of trace cells, evaluable under any of the algebras
/// the proving pipeline uses.
pub trait VirtualColumn: Sized {
    /// The weighted column references.
    spec fn spec_weights(&self) -> Seq<(PairCol, Felt)>;

    /// The constant term.
    spec fn spec_constant(&self) -> Felt;

    /// Well-formedness against the two row widths.
    open spec fn wf(&self, preprocessed_width: int, main_width: int) -> bool {
        weights_wf(self.spec_weights(), preprocessed_width, main_width)
            && self.spec_constant().wf()
    }

    /// Evaluate over the base field, given the preprocessed and main rows.
    fn apply(&self, preprocessed: &Vec<Felt>, main: &Vec<Felt>) -> (r: Felt)
        requires
            self.wf(preprocessed.len() as int, main.len() as int),
            row_wf(preprocessed@, preprocessed.len() as int),
            row_wf(main@, main.len() as int),
        ensures
            r == eval_virtual_col(self.spec_weights(), self.spec_constant(), preprocessed@, main@),
            r.wf(),
    ;

    /// Evaluate over the extension field, given point rows of extension values.
    fn apply_ext(&self, preprocessed: &Vec<ExtFelt>, main: &Vec<ExtFelt>) -> (r: ExtFelt)
        requires
            self.wf(preprocessed.len() as int, main.len() as int),
            forall|i: int| 0 <= i < preprocessed.len() ==> (#[trigger] preprocessed@[i]).wf(),
            forall|i: int| 0 <= i < main.len() ==> (#[trigger] main@[i]).wf(),
        ensures
            r == eval_virtual_col_ext(
                self.spec_weights(),
                self.spec_constant(),
                preprocessed@,
                main@,
            ),
            r.wf(),
    ;
}

/// An owned affine virtual column.
#[derive(Clone, Debug, PartialEq)]
pub struct VirtualPairCol {
    pub column_weights: Vec<(PairCol, Felt)>,
    pub constant: Felt,
}

/// A non-owning view of a `VirtualPairCol`: it borrows the weight list instead
/// of copying it, because evaluation runs once per cell per row.
#[derive(Clone, Debug)]
pub struct VirtualPairColView<'a> {
    pub column_weights: &'a Vec<(PairCol, Felt)>,
    pub constant: Felt,
}

/// Shared evaluation body over the base field.
fn apply_weights(
    weights: &Vec<(PairCol, Felt)>,
    constant: Felt,
    preprocessed: &Vec<Felt>,
    main: &Vec<Felt>,
) -> (r: Felt)
    requires
        weights_wf(weights@, preprocessed.len() as int, main.len() as int),
        constant.wf(),
        row_wf(preprocessed@, preprocessed.len() as int),
        row_wf(main@, main.len() as int),
    ensures
        r == eval_virtual_col(weights@, constant, preprocessed@, main@),
        r.wf(),
{
    let mut result = constant;
    let mut idx: usize = 0;
    proof {
        assert(weights@.skip(0) =~= weights@);
    }
    while idx < weights.len()
        invariant
            idx <= weights.len(),
            result.wf(),
            weights_wf(weights@, preprocessed.len() as int, main.len() as int),
            row_wf(preprocessed@, preprocessed.len() as int),
            row_wf(main@, main.len() as int),
            eval_terms(weights@.skip(idx as int), preprocessed@, main@, result)
                == eval_virtual_col(weights@, constant, preprocessed@, main@),
        decreases weights.len() - idx,
    {
        let (column, weight) = weights[idx];
        let cell = column.get(preprocessed, main);
        proof {
            assert(weights@.skip(idx as int)[0] == weights@[idx as int]);
            assert(weights@.skip(idx as int).skip(1) =~= weights@.skip(idx as int + 1));
        }
        result = result.add(cell.mul(weight));
        idx = idx + 1;
    }
    proof {
        assert(weights@.skip(weights@.len() as int) =~= Seq::<(PairCol, Felt)>::empty());
    }
    result
}

/// Shared evaluation body over the extension field.
fn apply_weights_ext(
    weights: &Vec<(PairCol, Felt)>,
    constant: Felt,
    preprocessed: &Vec<ExtFelt>,
    main: &Vec<ExtFelt>,
) -> (r: ExtFelt)
    requires
        weights_wf(weights@, preprocessed.len() as int, main.len() as int),
        constant.wf(),
        forall|i: int| 0 <= i < preprocessed.len() ==> (#[trigger] preprocessed@[i]).wf(),
        forall|i: int| 0 <= i < main.len() ==> (#[trigger] main@[i]).wf(),
    ensures
        r == eval_virtual_col_ext(weights@, constant, preprocessed@, main@),
        r.wf(),
{
    let mut result = ExtFelt::from_base(constant);
    let mut idx: usize = 0;
    proof {
        assert(weights@.skip(0) =~= weights@);
    }
    while idx < weights.len()
        invariant
            idx <= weights.len(),
            result.wf(),
            weights_wf(weights@, preprocessed.len() as int, main.len() as int),
            forall|i: int| 0 <= i < preprocessed.len() ==> (#[trigger] preprocessed@[i]).wf(),
            forall|i: int| 0 <= i < main.len() ==> (#[trigger] main@[i]).wf(),
            eval_terms_ext(weights@.skip(idx as int), preprocessed@, main@, result)
                == eval_virtual_col_ext(weights@, constant, preprocessed@, main@),
        decreases weights.len() - idx,
    {
        let (column, weight) = weights[idx];
        let cell = match column {
            PairCol::Preprocessed(i) => preprocessed[i],
            PairCol::Main(i) => main[i],
        };
        proof {
            assert(weights@.skip(idx as int)[0] == weights@[idx as int]);
            assert(weights@.skip(idx as int).skip(1) =~= weights@.skip(idx as int + 1));
        }
        result = result.add(cell.mul(ExtFelt::from_base(weight)));
        idx = idx + 1;
    }
    proof {
        assert(weights@.skip(weights@.len() as int) =~= Seq::<(PairCol, Felt)>::empty());
    }
    result
}

impl VirtualPairCol {
    /// Build a virtual column from its weights and constant.
    pub fn new(column_weights: Vec<(PairCol, Felt)>, constant: Felt) -> (r: VirtualPairCol)
        ensures
            r.column_weights == column_weights,
            r.constant == constant,
    {
        VirtualPairCol { column_weights, constant }
    }

    /// The constant virtual column.
    pub fn constant(c: Felt) -> (r: VirtualPairCol)
        ensures
            r.column_weights@ =~= Seq::<(PairCol, Felt)>::empty(),
            r.constant == c,
    {
        VirtualPairCol { column_weights: Vec::new(), constant: c }
    }

    /// The virtual column that reads one main-row cell with weight one.
    pub fn single_main(column: usize) -> (r: VirtualPairCol)
        ensures
            r.column_weights@ =~= seq![(PairCol::Main(column), Felt::spec_one())],
            r.constant == Felt::spec_zero(),
    {
        let mut column_weights: Vec<(PairCol, Felt)> = Vec::new();
        column_weights.push((PairCol::Main(column), Felt::one()));
        VirtualPairCol { column_weights, constant: Felt::zero() }
    }
}

impl VirtualColumn for VirtualPairCol {
    open spec fn spec_weights(&self) -> Seq<(PairCol, Felt)> {
        self.column_weights@
    }

    open spec fn spec_constant(&self) -> Felt {
        self.constant
    }

    fn apply(&self, preprocessed: &Vec<Felt>, main: &Vec<Felt>) -> (r: Felt) {
        apply_weights(&self.column_weights, self.constant, preprocessed, main)
    }

    fn apply_ext(&self, preprocessed: &Vec<ExtFelt>, main: &Vec<ExtFelt>) -> (r: ExtFelt) {
        apply_weights_ext(&self.column_weights, self.constant, preprocessed, main)
    }
}

impl<'a> VirtualPairColView<'a> {
    /// Borrow an owned virtual column as a view.
    pub fn from(v: &'a VirtualPairCol) -> (r: VirtualPairColView<'a>)
        ensures
            r.column_weights@ == v.column_weights@,
            r.constant == v.constant,
    {
        VirtualPairColView { column_weights: &v.column_weights, constant: v.constant }
    }
}

impl<'a> VirtualColumn for VirtualPairColView<'a> {
    open spec fn spec_weights(&self) -> Seq<(PairCol, Felt)> {
        self.column_weights@
    }

    open spec fn spec_constant(&self) -> Felt {
        self.constant
    }

    fn apply(&self, preprocessed: &Vec<Felt>, main: &Vec<Felt>) -> (r: Felt) {
        apply_weights(self.column_weights, self.constant, preprocessed, main)
    }

    fn apply_ext(&self, preprocessed: &Vec<ExtFelt>, main: &Vec<ExtFelt>) -> (r: ExtFelt) {
        apply_weights_ext(self.column_weights, self.constant, preprocessed, main)
    }
}

/// The canonical embedding turns base-field sums into extension sums.
proof fn lemma_embed_add(a: Felt, b: Felt)
    ensures
        ext_add_spec(ExtFelt::spec_from_base(a), ExtFelt::spec_from_base(b))
            == ExtFelt::spec_from_base(Felt { value: fadd(a.value as int, b.value as int) as u64 }),
{
    assert(fadd(0, 0) == 0);
}

/// The canonical embedding turns base-field products into extension products.
proof fn lemma_embed_mul(a: Felt, b: Felt)
    ensures
        ext_mul_spec(ExtFelt::spec_from_base(a), ExtFelt::spec_from_base(b))
            == ExtFelt::spec_from_base(Felt { value: fmul(a.value as int, b.value as int) as u64 }),
{
    let ea = ExtFelt::spec_from_base(a);
    let eb = ExtFelt::spec_from_base(b);
    let x = a.value as int;
    let y = b.value as int;
    assert((x * y + (crate::extension::EXT_W) * (x * 0 + 0 * 0 + 0 * y)) % (
    crate::field::FIELD_PRIME as int) == (x * y) % (crate::field::FIELD_PRIME as int))
        by (nonlinear_arith);
    assert((x * 0 + 0 * y + (crate::extension::EXT_W) * (0 * 0 + 0 * 0)) % (
    crate::field::FIELD_PRIME as int) == 0) by (nonlinear_arith);
    assert((x * 0 + 0 * 0 + 0 * y + (crate::extension::EXT_W) * (0 * 0)) % (
    crate::field::FIELD_PRIME as int) == 0) by (nonlinear_arith);
    assert((x * 0 + 0 * 0 + 0 * 0 + 0 * y) % (crate::field::FIELD_PRIME as int) == 0)
        by (nonlinear_arith);
    assert(ext_mul_spec(ea, eb).c0.value == fmul(x, y));
    assert(ext_mul_spec(ea, eb).c1.value == 0);
    assert(ext_mul_spec(ea, eb).c2.value == 0);
    assert(ext_mul_spec(ea, eb).c3.value == 0);
}

/// The affine terms evaluate homomorphically: folding over embedded rows from
/// an embedded accumulator lands on the embedded base-field fold.
proof fn lemma_terms_homomorphism(
    weights: Seq<(PairCol, Felt)>,
    preprocessed: Seq<Felt>,
    main: Seq<Felt>,
    acc: Felt,
)
    requires
        weights_wf(weights, preprocessed.len() as int, main.len() as int),
    ensures
        eval_terms_ext(
            weights,
            preprocessed.map_values(|x: Felt| ExtFelt::spec_from_base(x)),
            main.map_values(|x: Felt| ExtFelt::spec_from_base(x)),
            ExtFelt::spec_from_base(acc),
        ) == ExtFelt::spec_from_base(eval_terms(weights, preprocessed, main, acc)),
    decreases weights.len(),
{
    if weights.len() == 0 {
    } else {
        let pre_e = preprocessed.map_values(|x: Felt| ExtFelt::spec_from_base(x));
        let main_e = main.map_values(|x: Felt| ExtFelt::spec_from_base(x));
        let cell = weights[0].0.spec_get(preprocessed, main);
        let cell_e = match weights[0].0 {
            PairCol::Preprocessed(i) => pre_e[i as int],
            PairCol::Main(i) => main_e[i as int],
        };
        assert(cell_e == ExtFelt::spec_from_base(cell));
        lemma_embed_mul(cell, weights[0].1);
        let term = Felt { value: fmul(cell.value as int, weights[0].1.value as int) as u64 };
        lemma_embed_add(acc, term);
        assert(weights_wf(weights.skip(1), preprocessed.len() as int, main.len() as int)) by {
            assert(forall|i: int|
                0 <= i < weights.skip(1).len() ==> weights.skip(1)[i] == weights[i + 1]);
        }
        lemma_terms_homomorphism(
            weights.skip(1),
            preprocessed,
            main,
            Felt { value: fadd(acc.value as int, term.value as int) as u64 },
        );
    }
}

/// Evaluating a virtual column is a ring homomorphism: applying it to the
/// embedded image of concrete rows yields exactly the embedding of its
/// base-field value, so the same column means the same thing under the
/// concrete and the symbolic/point algebras.
pub proof fn lemma_virtual_col_homomorphism(
    weights: Seq<(PairCol, Felt)>,
    constant: Felt,
    preprocessed: Seq<Felt>,
    main: Seq<Felt>,
)
    requires
        weights_wf(weights, preprocessed.len() as int, main.len() as int),
    ensures
        eval_virtual_col_ext(
            weights,
            constant,
            preprocessed.map_values(|x: Felt| ExtFelt::spec_from_base(x)),
            main.map_values(|x: Felt| ExtFelt::spec_from_base(x)),
        ) == ExtFelt::spec_from_base(eval_virtual_col(weights, constant, preprocessed, main)),
{
    lemma_terms_homomorphism(weights, preprocessed, main, constant);
}

} // verus!
