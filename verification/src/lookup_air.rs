//! An AIR defined directly by its declarations: a list of local constraints
//! and the interactions it sends and receives. Concrete chips couple one of
//! these with their trace generation; it is also the simplest way to stand up
//! a chip in a test harness.

use vstd::prelude::*;

use crate::builder::eval_effect;
use crate::field::Felt;
use crate::builder::ConstraintBuilder;
use crate::chip::air_declarations_wf;
use crate::chip::Air;
use crate::interaction::clone_interaction;
use crate::interaction::models_of;
use crate::interaction::Interaction;
use crate::interaction::InteractionModel;
use crate::symbolic::SymExpr;
use crate::virtual_column::PairCol;
use crate::virtual_column::VirtualPairCol;

verus! {

/// An AIR given by its declaration lists. The declarations count only when
/// every one of them stays inside the declared widths; a malformed set
/// declares nothing, so the AIR capability's guarantees hold unconditionally.
pub struct LookupAir {
    pub width: usize,
    pub constraints: Vec<SymExpr>,
    pub sends: Vec<Interaction>,
    pub receives: Vec<Interaction>,
}

impl LookupAir {
    /// Whether the declaration lists respect the declared widths.
    pub open spec fn decls_ok(self) -> bool {
        air_declarations_wf(
            self.constraints@,
            models_of(self.sends@),
            models_of(self.receives@),
            0,
            self.width as int,
        )
    }
}

/// Whether one weight list stays inside the widths.
fn check_weights(weights: &Vec<(PairCol, Felt)>, main_width: usize) -> (r: bool)
    ensures
        r == crate::virtual_column::weights_wf(weights@, 0, main_width as int),
{
    let mut i: usize = 0;
    let mut ok = true;
    while i < weights.len()
        invariant
            i <= weights@.len(),
            ok == (forall|k: int|
                0 <= k < i ==> (#[trigger] weights@[k]).0.in_bounds(0, main_width as int)
                    && weights@[k].1.wf()),
        decreases weights@.len() - i,
    {
        let (col, w) = weights[i];
        let here = match col {
            PairCol::Preprocessed(_) => false,
            PairCol::Main(c) => c < main_width,
        };
        let here2 = here && w.value < crate::field::FIELD_PRIME;
        proof {
            assert(here2 == (weights@[i as int].0.in_bounds(0, main_width as int)
                && weights@[i as int].1.wf()));
        }
        ok = ok && here2;
        i = i + 1;
    }
    ok
}

/// Whether one virtual column stays inside the widths.
fn check_pair_col(v: &VirtualPairCol, main_width: usize) -> (r: bool)
    ensures
        r == crate::interaction::vc_model_wf(
            crate::interaction::VirtualColModel {
                column_weights: v.column_weights@,
                constant: v.constant,
            },
            0,
            main_width as int,
        ),
{
    let ok = check_weights(&v.column_weights, main_width);
    ok && v.constant.value < crate::field::FIELD_PRIME
}

/// Whether every interaction of a list stays inside the widths.
fn check_interactions(itxs: &Vec<Interaction>, main_width: usize) -> (r: bool)
    ensures
        r == (forall|k: int|
            0 <= k < itxs@.len() ==> crate::interaction::itx_model_wf(
                #[trigger] models_of(itxs@)[k],
                0,
                main_width as int,
            )),
{
    let mut i: usize = 0;
    let mut ok = true;
    while i < itxs.len()
        invariant
            i <= itxs@.len(),
            ok == (forall|k: int|
                0 <= k < i ==> crate::interaction::itx_model_wf(
                    #[trigger] models_of(itxs@)[k],
                    0,
                    main_width as int,
                )),
        decreases itxs@.len() - i,
    {
        let itx = &itxs[i];
        let mut j: usize = 0;
        let mut vals_ok = true;
        while j < itx.values.len()
            invariant
                j <= itx.values@.len(),
                itx == &itxs@[i as int],
                vals_ok == (forall|k: int|
                    0 <= k < j ==> crate::interaction::vc_model_wf(
                        #[trigger] itx.model().values[k],
                        0,
                        main_width as int,
                    )),
            decreases itx.values@.len() - j,
        {
            let here = check_pair_col(&itx.values[j], main_width);
            proof {
                assert(itx.model().values[j as int] == crate::interaction::VirtualColModel {
                    column_weights: itx.values@[j as int].column_weights@,
                    constant: itx.values@[j as int].constant,
                });
            }
            vals_ok = vals_ok && here;
            j = j + 1;
        }
        let mult_ok = check_pair_col(&itx.multiplicity, main_width);
        let here = vals_ok && mult_ok;
        proof {
            assert(models_of(itxs@)[i as int] == itx.model());
            assert(here == crate::interaction::itx_model_wf(
                itx.model(),
                0,
                main_width as int,
            ));
        }
        ok = ok && here;
        i = i + 1;
    }
    ok
}

/// Whether every constraint expression stays inside the widths.
fn check_constraints(constraints: &Vec<SymExpr>, main_width: usize) -> (r: bool)
    ensures
        r == (forall|k: int|
            0 <= k < constraints@.len() ==> (#[trigger] constraints@[k]).wf(0, main_width as int)),
{
    let mut i: usize = 0;
    let mut ok = true;
    while i < constraints.len()
        invariant
            i <= constraints@.len(),
            ok == (forall|k: int|
                0 <= k < i ==> (#[trigger] constraints@[k]).wf(0, main_width as int)),
        decreases constraints@.len() - i,
    {
        let here = check_expr(&constraints[i], main_width);
        ok = ok && here;
        i = i + 1;
    }
    ok
}

/// Whether one constraint expression stays inside the widths.
fn check_expr(e: &SymExpr, main_width: usize) -> (r: bool)
    ensures
        r == e.wf(0, main_width as int),
    decreases *e,
{
    match e {
        SymExpr::Constant(c) => c.value < crate::field::FIELD_PRIME,
        SymExpr::Var(col) => match col {
            PairCol::Preprocessed(_) => false,
            PairCol::Main(c) => *c < main_width,
        },
        SymExpr::Add(a, b) => {
            let ra = check_expr(a, main_width);
            let rb = check_expr(b, main_width);
            ra && rb
        },
        SymExpr::Sub(a, b) => {
            let ra = check_expr(a, main_width);
            let rb = check_expr(b, main_width);
            ra && rb
        },
        SymExpr::Mul(a, b) => {
            let ra = check_expr(a, main_width);
            let rb = check_expr(b, main_width);
            ra && rb
        },
        SymExpr::Neg(a) => check_expr(a, main_width),
    }
}

impl Air for LookupAir {
    open spec fn spec_width(&self) -> int {
        self.width as int
    }

    open spec fn spec_preprocessed_width(&self) -> int {
        0
    }

    open spec fn spec_constraints(&self) -> Seq<SymExpr> {
        if self.decls_ok() {
            self.constraints@
        } else {
            Seq::empty()
        }
    }

    open spec fn spec_sends(&self) -> Seq<InteractionModel> {
        if self.decls_ok() {
            models_of(self.sends@)
        } else {
            Seq::empty()
        }
    }

    open spec fn spec_receives(&self) -> Seq<InteractionModel> {
        if self.decls_ok() {
            models_of(self.receives@)
        } else {
            Seq::empty()
        }
    }

    proof fn lemma_declarations_wf(&self) {
    }

    fn width(&self) -> (w: usize) {
        self.width
    }

    fn preprocessed_width(&self) -> (w: usize) {
        0
    }

    fn eval(&self, builder: &mut ConstraintBuilder) {
        let cs_ok = check_constraints(&self.constraints, self.width);
        let sends_ok = check_interactions(&self.sends, self.width);
        let receives_ok = check_interactions(&self.receives, self.width);
        if cs_ok && sends_ok && receives_ok {
            proof {
                assert(self.decls_ok());
            }
            let mut i: usize = 0;
            proof {
                assert(self.constraints@.take(0) =~= Seq::<SymExpr>::empty());
                assert(eval_effect(
                    *old(builder),
                    *builder,
                    self.constraints@.take(0),
                    Seq::empty(),
                    Seq::empty(),
                ));
            }
            while i < self.constraints.len()
                invariant
                    i <= self.constraints@.len(),
                    self.decls_ok(),
                    builder.wf(),
                    builder.spec_preprocessed_width() == 0,
                    builder.spec_main_width() == self.width as int,
                    old(builder).headroom(self.spec_constraints().len() as int),
                    eval_effect(
                        *old(builder),
                        *builder,
                        self.constraints@.take(i as int),
                        Seq::empty(),
                        Seq::empty(),
                    ),
                decreases self.constraints@.len() - i,
            {
                let ghost prev = *builder;
                builder.assert_zero(&self.constraints[i]);
                proof {
                    assert(self.constraints@.take(i as int + 1) =~= self.constraints@.take(
                        i as int,
                    ).push(self.constraints@[i as int]));
                    lemma_compose_asserts(
                        *old(builder),
                        prev,
                        *builder,
                        self.constraints@.take(i as int),
                        self.constraints@[i as int],
                    );
                }
                i = i + 1;
            }
            proof {
                assert(self.constraints@.take(self.constraints@.len() as int)
                    =~= self.constraints@);
            }
            let mut j: usize = 0;
            while j < self.sends.len()
                invariant
                    j <= self.sends@.len(),
                    self.decls_ok(),
                    builder.wf(),
                    builder.spec_preprocessed_width() == 0,
                    builder.spec_main_width() == self.width as int,
                    eval_effect(
                        *old(builder),
                        *builder,
                        self.constraints@,
                        models_of(self.sends@.take(j as int)),
                        Seq::empty(),
                    ),
                decreases self.sends@.len() - j,
            {
                let ghost prev = *builder;
                let itx = clone_interaction(&self.sends[j]);
                let Interaction { values, multiplicity, kind } = itx;
                proof {
                    assert((Interaction { values, multiplicity, kind }).model()
                        == self.sends@[j as int].model());
                }
                builder.send(values, multiplicity, kind);
                proof {
                    assert(models_of(self.sends@.take(j as int + 1)) =~= models_of(
                        self.sends@.take(j as int),
                    ).push(self.sends@[j as int].model()));
                    lemma_compose_sends(
                        *old(builder),
                        prev,
                        *builder,
                        self.constraints@,
                        models_of(self.sends@.take(j as int)),
                        self.sends@[j as int].model(),
                    );
                }
                j = j + 1;
            }
            proof {
                assert(models_of(self.sends@.take(self.sends@.len() as int)) =~= models_of(
                    self.sends@,
                ));
            }
            let mut k: usize = 0;
            while k < self.receives.len()
                invariant
                    k <= self.receives@.len(),
                    self.decls_ok(),
                    builder.wf(),
                    builder.spec_preprocessed_width() == 0,
                    builder.spec_main_width() == self.width as int,
                    eval_effect(
                        *old(builder),
                        *builder,
                        self.constraints@,
                        models_of(self.sends@),
                        models_of(self.receives@.take(k as int)),
                    ),
                decreases self.receives@.len() - k,
            {
                let ghost prev = *builder;
                let itx = clone_interaction(&self.receives[k]);
                let Interaction { values, multiplicity, kind } = itx;
                proof {
                    assert((Interaction { values, multiplicity, kind }).model()
                        == self.receives@[k as int].model());
                }
                builder.receive(values, multiplicity, kind);
                proof {
                    assert(models_of(self.receives@.take(k as int + 1)) =~= models_of(
                        self.receives@.take(k as int),
                    ).push(self.receives@[k as int].model()));
                    lemma_compose_receives(
                        *old(builder),
                        prev,
                        *builder,
                        self.constraints@,
                        models_of(self.sends@),
                        models_of(self.receives@.take(k as int)),
                        self.receives@[k as int].model(),
                    );
                }
                k = k + 1;
            }
            proof {
                assert(models_of(self.receives@.take(self.receives@.len() as int)) =~= models_of(
                    self.receives@,
                ));
            }
        } else {
            proof {
                assert(!self.decls_ok());
                assert(eval_effect(
                    *old(builder),
                    *builder,
                    Seq::empty(),
                    Seq::empty(),
                    Seq::empty(),
                )) by {
                    match *builder {
                        ConstraintBuilder::Collect(ib) => {
                            assert(models_of(ib.sends@) + Seq::<InteractionModel>::empty()
                                =~= models_of(ib.sends@));
                            assert(models_of(ib.receives@) + Seq::<InteractionModel>::empty()
                                =~= models_of(ib.receives@));
                        },
                        ConstraintBuilder::Debug(db) => {
                            assert(db.violations@ + crate::builder::debug_violations(
                                Seq::empty(),
                                db.preprocessed@,
                                db.main@,
                                db.row,
                                db.constraint_index as int,
                            ) =~= db.violations@);
                        },
                        ConstraintBuilder::Fold(_) => {
                        },
                    }
                }
            }
        }
    }
}

/// One more constraint check extends the evaluation effect.
proof fn lemma_compose_asserts(
    start: ConstraintBuilder,
    mid: ConstraintBuilder,
    end: ConstraintBuilder,
    constraints: Seq<SymExpr>,
    c: SymExpr,
)
    requires
        eval_effect(start, mid, constraints, Seq::empty(), Seq::empty()),
        eval_effect(mid, end, seq![c], Seq::empty(), Seq::empty()),
    ensures
        eval_effect(start, end, constraints.push(c), Seq::empty(), Seq::empty()),
{
    match (start, mid, end) {
        (
            ConstraintBuilder::Collect(a),
            ConstraintBuilder::Collect(b),
            ConstraintBuilder::Collect(d),
        ) => {
            assert(models_of(d.sends@) =~= models_of(a.sends@) + Seq::<InteractionModel>::empty());
            assert(models_of(d.receives@) =~= models_of(a.receives@)
                + Seq::<InteractionModel>::empty());
        },
        (
            ConstraintBuilder::Debug(a),
            ConstraintBuilder::Debug(b),
            ConstraintBuilder::Debug(d),
        ) => {
            crate::builder::lemma_debug_violations_push(
                constraints,
                c,
                a.preprocessed@,
                a.main@,
                a.row,
                a.constraint_index as int,
            );
            assert(d.violations@ =~= a.violations@ + crate::builder::debug_violations(
                constraints.push(c),
                a.preprocessed@,
                a.main@,
                a.row,
                a.constraint_index as int,
            ));
        },
        (ConstraintBuilder::Fold(a), ConstraintBuilder::Fold(b), ConstraintBuilder::Fold(d)) => {
            crate::builder::lemma_fold_iter_push(
                constraints,
                c,
                a.preprocessed@,
                a.main@,
                a.alpha,
                a.accumulator,
            );
            assert(seq![c].skip(1) =~= Seq::<SymExpr>::empty());
            assert(seq![c][0] == c);
            assert(crate::builder::fold_iter(
                Seq::<SymExpr>::empty(),
                b.preprocessed@,
                b.main@,
                b.alpha,
                crate::extension::ext_add_spec(
                    crate::extension::ext_mul_spec(b.accumulator, b.alpha),
                    c.spec_eval_ext(b.preprocessed@, b.main@),
                ),
            ) == crate::extension::ext_add_spec(
                crate::extension::ext_mul_spec(b.accumulator, b.alpha),
                c.spec_eval_ext(b.preprocessed@, b.main@),
            ));
        },
        _ => {
        },
    }
}

/// One more send extends the evaluation effect.
proof fn lemma_compose_sends(
    start: ConstraintBuilder,
    mid: ConstraintBuilder,
    end: ConstraintBuilder,
    constraints: Seq<SymExpr>,
    sends: Seq<InteractionModel>,
    itx: InteractionModel,
)
    requires
        eval_effect(start, mid, constraints, sends, Seq::empty()),
        eval_effect(mid, end, Seq::empty(), seq![itx], Seq::empty()),
    ensures
        eval_effect(start, end, constraints, sends.push(itx), Seq::empty()),
{
    match (start, mid, end) {
        (
            ConstraintBuilder::Collect(a),
            ConstraintBuilder::Collect(b),
            ConstraintBuilder::Collect(d),
        ) => {
            assert(models_of(d.sends@) =~= models_of(a.sends@) + sends.push(itx));
            assert(models_of(d.receives@) =~= models_of(a.receives@)
                + Seq::<InteractionModel>::empty());
        },
        (
            ConstraintBuilder::Debug(a),
            ConstraintBuilder::Debug(b),
            ConstraintBuilder::Debug(d),
        ) => {
            assert(d.violations@ =~= a.violations@ + crate::builder::debug_violations(
                constraints,
                a.preprocessed@,
                a.main@,
                a.row,
                a.constraint_index as int,
            ));
        },
        (ConstraintBuilder::Fold(_), ConstraintBuilder::Fold(_), ConstraintBuilder::Fold(_)) => {
        },
        _ => {
        },
    }
}

/// One more receive extends the evaluation effect.
proof fn lemma_compose_receives(
    start: ConstraintBuilder,
    mid: ConstraintBuilder,
    end: ConstraintBuilder,
    constraints: Seq<SymExpr>,
    sends: Seq<InteractionModel>,
    receives: Seq<InteractionModel>,
    itx: InteractionModel,
)
    requires
        eval_effect(start, mid, constraints, sends, receives),
        eval_effect(mid, end, Seq::empty(), Seq::empty(), seq![itx]),
    ensures
        eval_effect(start, end, constraints, sends, receives.push(itx)),
{
    match (start, mid, end) {
        (
            ConstraintBuilder::Collect(a),
            ConstraintBuilder::Collect(b),
            ConstraintBuilder::Collect(d),
        ) => {
            assert(models_of(d.sends@) =~= models_of(a.sends@) + sends);
            assert(models_of(d.receives@) =~= models_of(a.receives@) + receives.push(itx));
        },
        (
            ConstraintBuilder::Debug(a),
            ConstraintBuilder::Debug(b),
            ConstraintBuilder::Debug(d),
        ) => {
            assert(d.violations@ =~= a.violations@ + crate::builder::debug_violations(
                constraints,
                a.preprocessed@,
                a.main@,
                a.row,
                a.constraint_index as int,
            ));
        },
        (ConstraintBuilder::Fold(_), ConstraintBuilder::Fold(_), ConstraintBuilder::Fold(_)) => {
        },
        _ => {
        },
    }
}

} // verus!
