//! Chips: an AIR coupled with its frozen interaction lists and its derived
//! quotient-degree metadata.
//!
//! A chip is created once at setup, when the interaction-collection pass runs
//! over the AIR; it is immutable afterwards and reused across every shard.

use vstd::arithmetic::power2::pow2;
use vstd::prelude::*;

use crate::builder::eval_effect;
use crate::builder::ConstraintBuilder;
use crate::builder::InteractionBuilder;
use crate::extension::ExtFelt;
use crate::permutation::eval_permutation_constraints;
use crate::permutation::generate_permutation_trace;
use crate::permutation::interactions_wf;
use crate::permutation::perm_effect;
use crate::permutation::perm_width_ok;
use crate::permutation::rows_all_wf;
use crate::permutation::spec_main_rows;
use crate::permutation::spec_perm_row;
use crate::permutation::spec_pre_rows;
use crate::permutation::spec_term;
use crate::permutation::spec_terms;
use crate::permutation::LogupError;
use crate::permutation::NUM_PERM_CHALLENGES;
use crate::field::Felt;
use crate::interaction::itx_model_wf;
use crate::interaction::lemma_wf_model;
use crate::interaction::models_of;
use crate::interaction::Interaction;
use crate::interaction::InteractionModel;
use crate::matrix::RowMajorMatrix;
use crate::record::ExecutionRecord;
use crate::record::FieldEvent;
use crate::record::Program;
use crate::symbolic::SymExpr;
use crate::util::log2_ceil_usize;
use crate::util::spec_padded_height;

verus! {

/// The fixed maximum constraint degree every chip is sized for.
pub const MAX_CONSTRAINT_DEGREE: usize = 3;

/// Every declared constraint and interaction stays inside rows of the declared
/// widths.
pub open spec fn air_declarations_wf(
    constraints: Seq<SymExpr>,
    sends: Seq<InteractionModel>,
    receives: Seq<InteractionModel>,
    preprocessed_width: int,
    main_width: int,
) -> bool {
    &&& forall|i: int|
        0 <= i < constraints.len() ==> (#[trigger] constraints[i]).wf(
            preprocessed_width,
            main_width,
        )
    &&& forall|i: int|
        0 <= i < sends.len() ==> itx_model_wf(#[trigger] sends[i], preprocessed_width, main_width)
    &&& forall|i: int|
        0 <= i < receives.len() ==> itx_model_wf(
            #[trigger] receives[i],
            preprocessed_width,
            main_width,
        )
}

/// The AIR capability: a component that declares local constraints and lookup
/// interactions against a generic constraint-evaluation context. Every
/// concrete chip implements it; the core treats it as opaque.
pub trait Air: Sized {
    /// The declared main-trace width.
    spec fn spec_width(&self) -> int;

    /// The declared preprocessed-trace width.
    spec fn spec_preprocessed_width(&self) -> int;

    /// The local constraints, in declaration order.
    spec fn spec_constraints(&self) -> Seq<SymExpr>;

    /// The sent interactions, in declaration order.
    spec fn spec_sends(&self) -> Seq<InteractionModel>;

    /// The received interactions, in declaration order.
    spec fn spec_receives(&self) -> Seq<InteractionModel>;

    /// The declarations respect the declared widths.
    proof fn lemma_declarations_wf(&self)
        ensures
            air_declarations_wf(
                self.spec_constraints(),
                self.spec_sends(),
                self.spec_receives(),
                self.spec_preprocessed_width(),
                self.spec_width(),
            ),
    ;

    /// The declared main-trace width.
    fn width(&self) -> (w: usize)
        ensures
            w as int == self.spec_width(),
    ;

    /// The declared preprocessed-trace width.
    fn preprocessed_width(&self) -> (w: usize)
        ensures
            w as int == self.spec_preprocessed_width(),
    ;

    /// Declare every local constraint and interaction to the builder. The
    /// effect on the builder is a function of the declarations alone, whatever
    /// semantics the builder carries.
    fn eval(&self, builder: &mut ConstraintBuilder)
        requires
            old(builder).wf(),
            old(builder).headroom(self.spec_constraints().len() as int),
            old(builder).spec_preprocessed_width() == self.spec_preprocessed_width(),
            old(builder).spec_main_width() == self.spec_width(),
        ensures
            eval_effect(
                *old(builder),
                *final(builder),
                self.spec_constraints(),
                self.spec_sends(),
                self.spec_receives(),
            ),
            final(builder).wf(),
            final(builder).spec_preprocessed_width() == old(builder).spec_preprocessed_width(),
            final(builder).spec_main_width() == old(builder).spec_main_width(),
    ;
}

/// The trace-generation capability of a machine chip: it turns the typed
/// events of a shard into a padded main trace and emits the derived events
/// that later chips consume.
pub trait MachineAir: Sized {
    /// The main-trace width.
    spec fn spec_trace_width(&self) -> int;

    /// The chip's printable name.
    spec fn spec_name(&self) -> Seq<char>;

    /// The real (unpadded) rows the chip generates from a shard, in event
    /// order.
    spec fn spec_rows(&self, input: ExecutionRecord) -> Seq<Seq<Felt>>;

    /// The inert row placed at index `i` to pad the trace; its multiplicities
    /// are forced to zero.
    spec fn spec_pad_row(&self, i: int) -> Seq<Felt>;

    /// The derived events trace generation appends to the output channel.
    spec fn spec_derived_events(&self, input: ExecutionRecord) -> Seq<FieldEvent>;

    /// The preprocessed-trace width.
    spec fn spec_preprocessed_width(&self) -> int;

    /// The chip's printable name.
    fn name(&self) -> (r: String)
        ensures
            r@ == self.spec_name(),
    ;

    /// Generate the padded main trace of a shard and append the derived events
    /// to the output record. The height is always a power of two, at least
    /// four.
    fn generate_trace(&self, input: &ExecutionRecord, output: &mut ExecutionRecord) -> (t:
        RowMajorMatrix<Felt>)
        requires
            input.wf(),
            self.spec_rows(*input).len() <= usize::MAX as int / 2,
        ensures
            t.wf(),
            t.width as int == self.spec_trace_width(),
            t.spec_height() as nat == spec_padded_height(self.spec_rows(*input).len() as nat),
            forall|i: int|
                0 <= i < self.spec_rows(*input).len() ==> t.spec_row(i) == self.spec_rows(
                    *input,
                )[i],
            forall|i: int|
                self.spec_rows(*input).len() <= i < t.spec_height() ==> t.spec_row(i)
                    == self.spec_pad_row(i),
            final(output).field_events@ == old(output).field_events@ + self.spec_derived_events(
                *input,
            ),
            final(output).sha_extend_events == old(output).sha_extend_events,
            final(output).fri_fold_events == old(output).fri_fold_events,
    ;

    /// Emit the derived events of a shard without materialising the trace, so
    /// that consumer chips can be fed in dependency order.
    fn generate_dependencies(&self, input: &ExecutionRecord, output: &mut ExecutionRecord)
        requires
            input.wf(),
        ensures
            final(output).field_events@ == old(output).field_events@ + self.spec_derived_events(
                *input,
            ),
            final(output).sha_extend_events == old(output).sha_extend_events,
            final(output).fri_fold_events == old(output).fri_fold_events,
    ;

    /// Whether the shard holds any event relevant to this chip; chips with
    /// none are omitted from the proof.
    fn included(&self, shard: &ExecutionRecord) -> (r: bool)
        requires
            shard.wf(),
        ensures
            r == (self.spec_rows(*shard).len() != 0),
    ;

    /// The preprocessed-trace width.
    fn preprocessed_width(&self) -> (r: usize)
        ensures
            r as int == self.spec_preprocessed_width(),
    ;

    /// The fixed preprocessed trace derived from the program, if the chip has
    /// one.
    fn generate_preprocessed_trace(&self, program: &Program) -> (r: Option<RowMajorMatrix<Felt>>)
        ensures
            r is None <==> self.spec_preprocessed_width() == 0,
            r matches Some(m) ==> m.wf() && m.width as int == self.spec_preprocessed_width(),
    ;

    /// The fixed preprocessed trace the chip carries on its own, if any.
    fn preprocessed_trace(&self) -> (r: Option<RowMajorMatrix<Felt>>)
        ensures
            r is None <==> self.spec_preprocessed_width() == 0,
            r matches Some(m) ==> m.wf() && m.width as int == self.spec_preprocessed_width(),
    ;
}

/// An AIR usable with the whole STARK pipeline: it both generates traces and
/// evaluates under every builder semantics. Implemented automatically for any
/// type with both capabilities.
pub trait StarkAir: Air + MachineAir {

}

impl<T: Air + MachineAir> StarkAir for T {

}

/// A fresh collection builder: no interaction harvested yet.
pub open spec fn fresh_collect(b: ConstraintBuilder) -> bool {
    match b {
        ConstraintBuilder::Collect(ib) => ib.sends@.len() == 0 && ib.receives@.len() == 0,
        _ => false,
    }
}

/// The send list a finished collection pass holds, as models.
pub open spec fn collected_sends(b: ConstraintBuilder) -> Seq<InteractionModel> {
    match b {
        ConstraintBuilder::Collect(ib) => models_of(ib.sends@),
        _ => Seq::empty(),
    }
}

/// The receive list a finished collection pass holds, as models.
pub open spec fn collected_receives(b: ConstraintBuilder) -> Seq<InteractionModel> {
    match b {
        ConstraintBuilder::Collect(ib) => models_of(ib.receives@),
        _ => Seq::empty(),
    }
}

/// A collection pass over a fresh builder harvests exactly the declared
/// interactions, in declaration order.
pub proof fn lemma_collect_exact(
    before: ConstraintBuilder,
    after: ConstraintBuilder,
    constraints: Seq<SymExpr>,
    sends: Seq<InteractionModel>,
    receives: Seq<InteractionModel>,
)
    requires
        fresh_collect(before),
        eval_effect(before, after, constraints, sends, receives),
    ensures
        collected_sends(after) == sends,
        collected_receives(after) == receives,
{
    let a = before->Collect_0;
    assert(models_of(a.sends@) =~= Seq::<InteractionModel>::empty());
    assert(models_of(a.receives@) =~= Seq::<InteractionModel>::empty());
    assert(models_of(a.sends@) + sends =~= sends);
    assert(models_of(a.receives@) + receives =~= receives);
}

/// Re-running the interaction-collection pass yields byte-identical send and
/// receive lists: two passes over AIRs with the same declarations, from any
/// two fresh builders, collect the same lists, whatever constraints were
/// evaluated along the way.
pub proof fn lemma_interaction_collection_deterministic(
    before1: ConstraintBuilder,
    after1: ConstraintBuilder,
    before2: ConstraintBuilder,
    after2: ConstraintBuilder,
    constraints1: Seq<SymExpr>,
    constraints2: Seq<SymExpr>,
    sends: Seq<InteractionModel>,
    receives: Seq<InteractionModel>,
)
    requires
        fresh_collect(before1),
        fresh_collect(before2),
        eval_effect(before1, after1, constraints1, sends, receives),
        eval_effect(before2, after2, constraints2, sends, receives),
    ensures
        collected_sends(after1) == collected_sends(after2),
        collected_receives(after1) == collected_receives(after2),
{
    lemma_collect_exact(before1, after1, constraints1, sends, receives);
    lemma_collect_exact(before2, after2, constraints2, sends, receives);
}

/// An AIR with its frozen interaction lists and quotient-degree metadata.
pub struct Chip<A> {
    /// The underlying AIR of the chip, for constraint evaluation.
    pub air: A,
    /// The interactions that the chip sends.
    pub sends: Vec<Interaction>,
    /// The interactions that the chip receives.
    pub receives: Vec<Interaction>,
    /// The relative log degree of the quotient polynomial, derived from the
    /// maximum constraint degree.
    pub log_quotient_degree: usize,
}

impl<A: Air> Chip<A> {
    /// Record the interactions and constraint degree from the AIR and freeze
    /// them into a new chip.
    pub fn new(air: A) -> (c: Chip<A>)
        ensures
            c.air == air,
            models_of(c.sends@) == air.spec_sends(),
            models_of(c.receives@) == air.spec_receives(),
            c.wf(),
            c.log_quotient_degree == 1,
    {
        let width = air.width();
        let pre_width = air.preprocessed_width();
        let mut builder = ConstraintBuilder::Collect(
            InteractionBuilder {
                preprocessed_width: pre_width,
                main_width: width,
                sends: Vec::new(),
                receives: Vec::new(),
            },
        );
        let ghost before = builder;
        proof {
            assert(fresh_collect(before));
        }
        air.eval(&mut builder);
        proof {
            lemma_collect_exact(
                before,
                builder,
                air.spec_constraints(),
                air.spec_sends(),
                air.spec_receives(),
            );
        }
        let (sends, receives) = match builder {
            ConstraintBuilder::Collect(ib) => ib.interactions(),
            ConstraintBuilder::Debug(_) => {
                proof {
                    assert(false);
                }
                (Vec::new(), Vec::new())
            },
            ConstraintBuilder::Fold(_) => {
                proof {
                    assert(false);
                }
                (Vec::new(), Vec::new())
            },
        };
        let log_quotient_degree = log2_ceil_usize(MAX_CONSTRAINT_DEGREE - 1);
        proof {
            vstd::arithmetic::power2::lemma2_to64();
            if log_quotient_degree >= 2 {
                vstd::arithmetic::power2::lemma_pow2_strictly_increases(
                    1,
                    (log_quotient_degree - 1) as nat,
                );
            }
            assert(log_quotient_degree == 1);
        }
        Chip { air, sends, receives, log_quotient_degree }
    }

    /// The send interactions of the chip.
    pub fn sends(&self) -> (r: &Vec<Interaction>)
        ensures
            r == &self.sends,
    {
        &self.sends
    }

    /// The receive interactions of the chip.
    pub fn receives(&self) -> (r: &Vec<Interaction>)
        ensures
            r == &self.receives,
    {
        &self.receives
    }

    /// The relative log degree of the quotient polynomial.
    pub fn log_quotient_degree(&self) -> (r: usize)
        ensures
            r == self.log_quotient_degree,
    {
        self.log_quotient_degree
    }

    /// The main-trace width of the wrapped AIR.
    pub fn width(&self) -> (w: usize)
        ensures
            w as int == self.air.spec_width(),
    {
        self.air.width()
    }
}

impl<A: MachineAir> Chip<A> {
    /// The chip's printable name.
    pub fn name(&self) -> (r: String)
        ensures
            r@ == self.air.spec_name(),
    {
        self.air.name()
    }

    /// Generate the padded main trace of a shard; see `MachineAir`.
    pub fn generate_trace(&self, input: &ExecutionRecord, output: &mut ExecutionRecord) -> (t:
        RowMajorMatrix<Felt>)
        requires
            input.wf(),
            self.air.spec_rows(*input).len() <= usize::MAX as int / 2,
        ensures
            t.wf(),
            t.width as int == self.air.spec_trace_width(),
            t.spec_height() as nat == spec_padded_height(self.air.spec_rows(*input).len() as nat),
            forall|i: int|
                0 <= i < self.air.spec_rows(*input).len() ==> t.spec_row(i) == self.air.spec_rows(
                    *input,
                )[i],
            forall|i: int|
                self.air.spec_rows(*input).len() <= i < t.spec_height() ==> t.spec_row(i)
                    == self.air.spec_pad_row(i),
            final(output).field_events@ == old(output).field_events@
                + self.air.spec_derived_events(*input),
            final(output).sha_extend_events == old(output).sha_extend_events,
            final(output).fri_fold_events == old(output).fri_fold_events,
    {
        self.air.generate_trace(input, output)
    }

    /// Emit the derived events of a shard without the trace.
    pub fn generate_dependencies(&self, input: &ExecutionRecord, output: &mut ExecutionRecord)
        requires
            input.wf(),
        ensures
            final(output).field_events@ == old(output).field_events@
                + self.air.spec_derived_events(*input),
            final(output).sha_extend_events == old(output).sha_extend_events,
            final(output).fri_fold_events == old(output).fri_fold_events,
    {
        self.air.generate_dependencies(input, output)
    }

    /// Whether this chip has any relevant event in the shard.
    pub fn included(&self, shard: &ExecutionRecord) -> (r: bool)
        requires
            shard.wf(),
        ensures
            r == (self.air.spec_rows(*shard).len() != 0),
    {
        self.air.included(shard)
    }

    /// The preprocessed-trace width of the wrapped AIR.
    pub fn preprocessed_width(&self) -> (r: usize)
        ensures
            r as int == self.air.spec_preprocessed_width(),
    {
        self.air.preprocessed_width()
    }

    /// The fixed preprocessed trace, if the AIR has one.
    pub fn generate_preprocessed_trace(&self, program: &Program) -> (r: Option<
        RowMajorMatrix<Felt>,
    >)
        ensures
            r is None <==> self.air.spec_preprocessed_width() == 0,
            r matches Some(m) ==> m.wf() && m.width as int == self.air.spec_preprocessed_width(),
    {
        self.air.generate_preprocessed_trace(program)
    }

    /// The fixed preprocessed trace the AIR carries on its own, if any.
    pub fn preprocessed_trace(&self) -> (r: Option<RowMajorMatrix<Felt>>)
        ensures
            r is None <==> self.air.spec_preprocessed_width() == 0,
            r matches Some(m) ==> m.wf() && m.width as int == self.air.spec_preprocessed_width(),
    {
        self.air.preprocessed_trace()
    }
}

impl<A: Air> Chip<A> {
    /// The frozen lists mirror the AIR's declarations.
    pub open spec fn wf(self) -> bool {
        models_of(self.sends@) == self.air.spec_sends() && models_of(self.receives@)
            == self.air.spec_receives()
    }

    /// The frozen interaction lists respect the AIR's declared widths.
    pub proof fn lemma_interactions_wf(&self)
        requires
            self.wf(),
        ensures
            interactions_wf(
                self.sends@ + self.receives@,
                self.air.spec_preprocessed_width(),
                self.air.spec_width(),
            ),
    {
        self.air.lemma_declarations_wf();
        let all = self.sends@ + self.receives@;
        let pw = self.air.spec_preprocessed_width();
        let mw = self.air.spec_width();
        assert forall|k: int| 0 <= k < all.len() implies (#[trigger] all[k]).wf(pw, mw) by {
            if k < self.sends@.len() {
                assert(all[k] == self.sends@[k]);
                assert(models_of(self.sends@)[k] == self.sends@[k].model());
                assert(itx_model_wf(self.air.spec_sends()[k], pw, mw));
                lemma_wf_model(self.sends@[k], pw, mw);
            } else {
                let k2 = k - self.sends@.len();
                assert(all[k] == self.receives@[k2]);
                assert(models_of(self.receives@)[k2] == self.receives@[k2].model());
                assert(itx_model_wf(self.air.spec_receives()[k2], pw, mw));
                lemma_wf_model(self.receives@[k2], pw, mw);
            }
        }
    }

    /// Evaluate, in sequence, the AIR's own local constraints and the
    /// permutation constraints tying the sends and receives into the running
    /// sum, under whichever builder semantics is supplied.
    pub fn eval(&self, builder: &mut ConstraintBuilder)
        requires
            self.wf(),
            old(builder).wf(),
            old(builder).headroom(
                self.air.spec_constraints().len() + self.sends@.len() + self.receives@.len()
                    + 3int,
            ),
            old(builder).spec_preprocessed_width() == self.air.spec_preprocessed_width(),
            old(builder).spec_main_width() == self.air.spec_width(),
            perm_width_ok(*old(builder), self.sends@.len() + self.receives@.len() as int + 0int),
        ensures
            exists|mid: ConstraintBuilder|
                #[trigger] eval_effect(
                    *old(builder),
                    mid,
                    self.air.spec_constraints(),
                    self.air.spec_sends(),
                    self.air.spec_receives(),
                ) && perm_effect(mid, *final(builder), self.sends@, self.receives@),
            final(builder).wf(),
            final(builder).spec_preprocessed_width() == old(builder).spec_preprocessed_width(),
            final(builder).spec_main_width() == old(builder).spec_main_width(),
    {
        self.air.eval(builder);
        let ghost mid = *builder;
        proof {
            self.lemma_interactions_wf();
            assert(perm_width_ok(*builder, self.sends@.len() + self.receives@.len() as int + 0int));
        }
        eval_permutation_constraints(&self.sends, &self.receives, builder);
    }

    /// Build the logup auxiliary trace for this chip's interactions; see the
    /// permutation engine.
    pub fn generate_permutation_trace(
        &self,
        preprocessed: &Option<RowMajorMatrix<Felt>>,
        main: &RowMajorMatrix<Felt>,
        random_elements: &Vec<ExtFelt>,
    ) -> (r: Result<RowMajorMatrix<ExtFelt>, LogupError>)
        requires
            self.wf(),
            main.wf(),
            main.width as int == self.air.spec_width(),
            rows_all_wf(spec_main_rows(*main, main.spec_height()), main.width as int),
            match *preprocessed {
                Some(p) => p.wf() && p.spec_height() == main.spec_height() && p.width as int
                    == self.air.spec_preprocessed_width() && rows_all_wf(
                    spec_pre_rows(*preprocessed, main.spec_height()),
                    p.width as int,
                ),
                None => self.air.spec_preprocessed_width() == 0,
            },
            random_elements@.len() == NUM_PERM_CHALLENGES,
            random_elements@[0].wf(),
            random_elements@[1].wf(),
            self.sends@.len() + self.receives@.len() + 1 <= usize::MAX,
        ensures
            ({
                let height = main.spec_height();
                let pre_rows = spec_pre_rows(*preprocessed, height);
                let main_rows = spec_main_rows(*main, height);
                let beta = random_elements@[0];
                let alpha = random_elements@[1];
                match r {
                    Ok(perm) => {
                        &&& perm.wf()
                        &&& perm.width as int == self.sends@.len() + self.receives@.len() + 1
                        &&& perm.spec_height() == height
                        &&& forall|i: int|
                            0 <= i < height ==> spec_terms(
                                self.sends@ + self.receives@,
                                pre_rows[i],
                                #[trigger] main_rows[i],
                                alpha,
                                beta,
                            ) is Some
                        &&& forall|i: int|
                            0 <= i < height ==> #[trigger] perm.spec_row(i) == spec_perm_row(
                                self.sends@,
                                self.receives@,
                                pre_rows,
                                main_rows,
                                alpha,
                                beta,
                                i,
                            )
                    },
                    Err(e) => {
                        &&& e matches LogupError::ChallengeCollision { row, interaction }
                        &&& e matches LogupError::ChallengeCollision { row, interaction } ==> 0 <= (
                        row as int) < height && 0 <= (interaction as int) < self.sends@.len()
                            + self.receives@.len() && spec_term(
                            (self.sends@ + self.receives@)[interaction as int],
                            pre_rows[row as int],
                            main_rows[row as int],
                            alpha,
                            beta,
                        ) is None
                    },
                }
            }),
    {
        proof {
            self.lemma_interactions_wf();
        }
        generate_permutation_trace(&self.sends, &self.receives, preprocessed, main, random_elements)
    }
}

} // verus!
