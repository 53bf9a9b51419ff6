//! Symbolic constraint expressions.
//!
//! An AIR states each local constraint once, as a symbolic expression over the
//! cells of its preprocessed and main rows; every builder semantics then
//! interprets the same expression under its own algebra (base-field values for
//! debug assertion, extension-field point values for quotient folding and
//! verification), so the constraint code behaves identically under all of
//! them.

use vstd::prelude::*;

use crate::extension::ext_add_spec;
use crate::extension::ext_mul_spec;
use crate::extension::ext_neg_spec;
use crate::extension::ext_sub_spec;
use crate::extension::ExtFelt;
use crate::field::fadd;
use crate::field::fmul;
use crate::field::fneg;
use crate::field::fsub;
use crate::field::Felt;
use crate::virtual_column::PairCol;

verus! {

/// A symbolic constraint expression over the cells of one logical row pair.
#[derive(Debug)]
pub enum SymExpr {
    Constant(Felt),
    Var(PairCol),
    Add(Box<SymExpr>, Box<SymExpr>),
    Sub(Box<SymExpr>, Box<SymExpr>),
    Mul(Box<SymExpr>, Box<SymExpr>),
    Neg(Box<SymExpr>),
}

impl SymExpr {
    /// Every variable in bounds and every constant canonical.
    pub open spec fn wf(self, preprocessed_width: int, main_width: int) -> bool
        decreases self,
    {
        match self {
            SymExpr::Constant(c) => c.wf(),
            SymExpr::Var(col) => col.in_bounds(preprocessed_width, main_width),
            SymExpr::Add(a, b) => a.wf(preprocessed_width, main_width) && b.wf(
                preprocessed_width,
                main_width,
            ),
            SymExpr::Sub(a, b) => a.wf(preprocessed_width, main_width) && b.wf(
                preprocessed_width,
                main_width,
            ),
            SymExpr::Mul(a, b) => a.wf(preprocessed_width, main_width) && b.wf(
                preprocessed_width,
                main_width,
            ),
            SymExpr::Neg(a) => a.wf(preprocessed_width, main_width),
        }
    }

    /// Base-field value of the expression on a concrete row pair.
    pub open spec fn spec_eval(self, preprocessed: Seq<Felt>, main: Seq<Felt>) -> Felt
        decreases self,
    {
        match self {
            SymExpr::Constant(c) => c,
            SymExpr::Var(col) => col.spec_get(preprocessed, main),
            SymExpr::Add(a, b) => Felt {
                value: fadd(
                    a.spec_eval(preprocessed, main).value as int,
                    b.spec_eval(preprocessed, main).value as int,
                ) as u64,
            },
            SymExpr::Sub(a, b) => Felt {
                value: fsub(
                    a.spec_eval(preprocessed, main).value as int,
                    b.spec_eval(preprocessed, main).value as int,
                ) as u64,
            },
            SymExpr::Mul(a, b) => Felt {
                value: fmul(
                    a.spec_eval(preprocessed, main).value as int,
                    b.spec_eval(preprocessed, main).value as int,
                ) as u64,
            },
            SymExpr::Neg(a) => Felt {
                value: fneg(a.spec_eval(preprocessed, main).value as int) as u64,
            },
        }
    }

    /// Extension-field value of the expression on a point row pair.
    pub open spec fn spec_eval_ext(self, preprocessed: Seq<ExtFelt>, main: Seq<ExtFelt>) -> ExtFelt
        decreases self,
    {
        match self {
            SymExpr::Constant(c) => ExtFelt::spec_from_base(c),
            SymExpr::Var(col) => match col {
                PairCol::Preprocessed(i) => preprocessed[i as int],
                PairCol::Main(i) => main[i as int],
            },
            SymExpr::Add(a, b) => ext_add_spec(
                a.spec_eval_ext(preprocessed, main),
                b.spec_eval_ext(preprocessed, main),
            ),
            SymExpr::Sub(a, b) => ext_sub_spec(
                a.spec_eval_ext(preprocessed, main),
                b.spec_eval_ext(preprocessed, main),
            ),
            SymExpr::Mul(a, b) => ext_mul_spec(
                a.spec_eval_ext(preprocessed, main),
                b.spec_eval_ext(preprocessed, main),
            ),
            SymExpr::Neg(a) => ext_neg_spec(a.spec_eval_ext(preprocessed, main)),
        }
    }

    /// Evaluate over the base field.
    pub fn eval(&self, preprocessed: &Vec<Felt>, main: &Vec<Felt>) -> (r: Felt)
        requires
            self.wf(preprocessed.len() as int, main.len() as int),
            crate::virtual_column::row_wf(preprocessed@, preprocessed.len() as int),
            crate::virtual_column::row_wf(main@, main.len() as int),
        ensures
            r == self.spec_eval(preprocessed@, main@),
            r.wf(),
        decreases *self,
    {
        match self {
            SymExpr::Constant(c) => *c,
            SymExpr::Var(col) => col.get(preprocessed, main),
            SymExpr::Add(a, b) => a.eval(preprocessed, main).add(b.eval(preprocessed, main)),
            SymExpr::Sub(a, b) => a.eval(preprocessed, main).sub(b.eval(preprocessed, main)),
            SymExpr::Mul(a, b) => a.eval(preprocessed, main).mul(b.eval(preprocessed, main)),
            SymExpr::Neg(a) => a.eval(preprocessed, main).neg(),
        }
    }

    /// Evaluate over the extension field.
    pub fn eval_ext(&self, preprocessed: &Vec<ExtFelt>, main: &Vec<ExtFelt>) -> (r: ExtFelt)
        requires
            self.wf(preprocessed.len() as int, main.len() as int),
            forall|i: int| 0 <= i < preprocessed.len() ==> (#[trigger] preprocessed@[i]).wf(),
            forall|i: int| 0 <= i < main.len() ==> (#[trigger] main@[i]).wf(),
        ensures
            r == self.spec_eval_ext(preprocessed@, main@),
            r.wf(),
        decreases *self,
    {
        match self {
            SymExpr::Constant(c) => ExtFelt::from_base(*c),
            SymExpr::Var(col) => match col {
                PairCol::Preprocessed(i) => preprocessed[*i],
                PairCol::Main(i) => main[*i],
            },
            SymExpr::Add(a, b) => a.eval_ext(preprocessed, main).add(
                b.eval_ext(preprocessed, main),
            ),
            SymExpr::Sub(a, b) => a.eval_ext(preprocessed, main).sub(
                b.eval_ext(preprocessed, main),
            ),
            SymExpr::Mul(a, b) => a.eval_ext(preprocessed, main).mul(
                b.eval_ext(preprocessed, main),
            ),
            SymExpr::Neg(a) => a.eval_ext(preprocessed, main).neg(),
        }
    }

    /// The boolean constraint `x * (x - 1)` on one main cell: zero exactly on
    /// zero-or-one cells.
    pub fn booleanity(column: usize) -> (r: SymExpr)
        ensures
            r == SymExpr::Mul(
                Box::new(SymExpr::Var(PairCol::Main(column))),
                Box::new(
                    SymExpr::Sub(
                        Box::new(SymExpr::Var(PairCol::Main(column))),
                        Box::new(SymExpr::Constant(Felt::spec_one())),
                    ),
                ),
            ),
    {
        SymExpr::Mul(
            Box::new(SymExpr::Var(PairCol::Main(column))),
            Box::new(
                SymExpr::Sub(
                    Box::new(SymExpr::Var(PairCol::Main(column))),
                    Box::new(SymExpr::Constant(Felt::one())),
                ),
            ),
        )
    }
}

} // verus!
