//! The interaction model: one declared row of a cross-table lookup relation.
//!
//! An interaction couples an ordered tuple of virtual columns with a
//! multiplicity column and a kind. The kind's argument index routes the
//! interaction into its same-kind permutation bucket; interactions of
//! different kinds never mix in one bucket, which the injectivity lemma below
//! guarantees.

use vstd::prelude::*;

use crate::field::Felt;
use crate::virtual_column::weights_wf;
use crate::virtual_column::PairCol;
use crate::virtual_column::VirtualPairCol;

verus! {

/// The mathematical model of a virtual column: its weight list and constant.
pub struct VirtualColModel {
    pub column_weights: Seq<(PairCol, Felt)>,
    pub constant: Felt,
}

/// The mathematical model of an interaction: the models of its value columns,
/// its multiplicity column, and its kind.
pub struct InteractionModel {
    pub values: Seq<VirtualColModel>,
    pub multiplicity: VirtualColModel,
    pub kind: InteractionKind,
}

/// A model stays inside rows of the given widths.
pub open spec fn vc_model_wf(m: VirtualColModel, preprocessed_width: int, main_width: int) -> bool {
    weights_wf(m.column_weights, preprocessed_width, main_width) && m.constant.wf()
}

/// An interaction model stays inside rows of the given widths.
pub open spec fn itx_model_wf(
    m: InteractionModel,
    preprocessed_width: int,
    main_width: int,
) -> bool {
    &&& forall|i: int|
        0 <= i < m.values.len() ==> vc_model_wf(
            #[trigger] m.values[i],
            preprocessed_width,
            main_width,
        )
    &&& vc_model_wf(m.multiplicity, preprocessed_width, main_width)
}

/// The models of a list of interactions.
pub open spec fn models_of(interactions: Seq<Interaction>) -> Seq<InteractionModel> {
    interactions.map_values(|i: Interaction| i.model())
}

/// The type of interaction for a lookup argument: a fixed closed set.
#[derive(Clone, Copy, Debug, PartialEq, Eq, PartialOrd, Ord, Hash, Structural)]
pub enum InteractionKind {
    /// Interaction with the memory table, such as read and write.
    Memory,
    /// Interaction with the program table, loading an instruction at a given
    /// program counter.
    Program,
    /// Interaction with the instruction oracle.
    Instruction,
    /// Interaction with the ALU operations.
    Alu,
    /// Interaction with the byte lookup table for byte operations.
    Byte,
    /// Requesting a range check for a given value and range.
    Range,
    /// Interaction with the field-operation table.
    Field,
}

/// The stable small integer each kind maps to: the argument index that routes
/// interactions into same-kind permutation buckets.
pub open spec fn kind_index(kind: InteractionKind) -> int {
    match kind {
        InteractionKind::Memory => 1,
        InteractionKind::Program => 2,
        InteractionKind::Instruction => 3,
        InteractionKind::Alu => 4,
        InteractionKind::Byte => 5,
        InteractionKind::Range => 6,
        InteractionKind::Field => 7,
    }
}

/// The argument index is an injective function of the kind: two kinds with the
/// same index are the same kind, so same-index buckets never mix kinds.
pub proof fn lemma_argument_index_injective(a: InteractionKind, b: InteractionKind)
    ensures
        kind_index(a) == kind_index(b) ==> a == b,
{
}

/// The argument index is deterministic: it depends on the kind alone, so it is
/// stable across runs and across re-evaluations.
pub proof fn lemma_argument_index_deterministic(a: InteractionKind, b: InteractionKind)
    ensures
        a == b ==> kind_index(a) == kind_index(b),
{
}

impl InteractionKind {
    /// Every kind, in argument-index order.
    pub fn all_kinds() -> (r: Vec<InteractionKind>)
        ensures
            r@ =~= seq![
                InteractionKind::Memory,
                InteractionKind::Program,
                InteractionKind::Instruction,
                InteractionKind::Alu,
                InteractionKind::Byte,
                InteractionKind::Range,
                InteractionKind::Field,
            ],
    {
        let mut kinds: Vec<InteractionKind> = Vec::new();
        kinds.push(InteractionKind::Memory);
        kinds.push(InteractionKind::Program);
        kinds.push(InteractionKind::Instruction);
        kinds.push(InteractionKind::Alu);
        kinds.push(InteractionKind::Byte);
        kinds.push(InteractionKind::Range);
        kinds.push(InteractionKind::Field);
        kinds
    }

    /// The printable name of the kind.
    pub open spec fn spec_name(self) -> Seq<char> {
        match self {
            InteractionKind::Memory => "Memory"@,
            InteractionKind::Program => "Program"@,
            InteractionKind::Instruction => "Instruction"@,
            InteractionKind::Alu => "Alu"@,
            InteractionKind::Byte => "Byte"@,
            InteractionKind::Range => "Range"@,
            InteractionKind::Field => "Field"@,
        }
    }

    /// The printable name of the kind.
    pub fn name(self) -> (r: String)
        ensures
            r@ == self.spec_name(),
    {
        match self {
            InteractionKind::Memory => String::from_str("Memory"),
            InteractionKind::Program => String::from_str("Program"),
            InteractionKind::Instruction => String::from_str("Instruction"),
            InteractionKind::Alu => String::from_str("Alu"),
            InteractionKind::Byte => String::from_str("Byte"),
            InteractionKind::Range => String::from_str("Range"),
            InteractionKind::Field => String::from_str("Field"),
        }
    }
}

/// An interaction for a lookup or a permutation argument: an owned tuple of
/// value columns, a multiplicity column and a kind.
#[derive(Clone, Debug, PartialEq)]
pub struct Interaction {
    pub values: Vec<VirtualPairCol>,
    pub multiplicity: VirtualPairCol,
    pub kind: InteractionKind,
}

/// A non-owning view of an `Interaction`: it borrows the value columns and the
/// multiplicity so that verifier-side code can reconstruct identical
/// interaction semantics without re-allocating.
#[derive(Clone, Debug)]
pub struct InteractionView<'a> {
    pub values: &'a Vec<VirtualPairCol>,
    pub multiplicity: &'a VirtualPairCol,
    pub kind: InteractionKind,
}

/// Read access shared by the owned interaction and its view.
pub trait LogupInteraction: Sized {
    /// The value columns.
    spec fn spec_values(&self) -> Seq<VirtualPairCol>;

    /// The multiplicity column.
    spec fn spec_multiplicity(&self) -> VirtualPairCol;

    /// The kind.
    spec fn spec_kind(&self) -> InteractionKind;

    /// The index of the argument in the lookup table.
    fn argument_index(&self) -> (r: usize)
        ensures
            r as int == kind_index(self.spec_kind()),
    ;

    /// The kind of the interaction.
    fn kind(&self) -> (r: InteractionKind)
        ensures
            r == self.spec_kind(),
    ;

    /// The value columns.
    fn values(&self) -> (r: &Vec<VirtualPairCol>)
        ensures
            r@ == self.spec_values(),
    ;

    /// The multiplicity column.
    fn multiplicity(&self) -> (r: &VirtualPairCol)
        ensures
            *r == self.spec_multiplicity(),
    ;
}

/// The executable argument index of a kind.
fn kind_argument_index(kind: InteractionKind) -> (r: usize)
    ensures
        r as int == kind_index(kind),
{
    match kind {
        InteractionKind::Memory => 1,
        InteractionKind::Program => 2,
        InteractionKind::Instruction => 3,
        InteractionKind::Alu => 4,
        InteractionKind::Byte => 5,
        InteractionKind::Range => 6,
        InteractionKind::Field => 7,
    }
}

impl Interaction {
    /// The mathematical model of this interaction.
    pub open spec fn model(self) -> InteractionModel {
        InteractionModel {
            values: self.values@.map_values(
                |v: VirtualPairCol| VirtualColModel {
                    column_weights: v.column_weights@,
                    constant: v.constant,
                },
            ),
            multiplicity: VirtualColModel {
                column_weights: self.multiplicity.column_weights@,
                constant: self.multiplicity.constant,
            },
            kind: self.kind,
        }
    }

    /// Every value column and the multiplicity column stay inside rows of the
    /// given widths.
    pub open spec fn wf(self, preprocessed_width: int, main_width: int) -> bool {
        &&& forall|i: int|
            0 <= i < self.values@.len() ==> crate::virtual_column::weights_wf(
                (#[trigger] self.values@[i]).column_weights@,
                preprocessed_width,
                main_width,
            ) && self.values@[i].constant.wf()
        &&& crate::virtual_column::weights_wf(
            self.multiplicity.column_weights@,
            preprocessed_width,
            main_width,
        )
        &&& self.multiplicity.constant.wf()
    }

    /// Create a new interaction.
    pub fn new(
        values: Vec<VirtualPairCol>,
        multiplicity: VirtualPairCol,
        kind: InteractionKind,
    ) -> (r: Interaction)
        ensures
            r.values == values,
            r.multiplicity == multiplicity,
            r.kind == kind,
    {
        Interaction { values, multiplicity, kind }
    }

    /// The index of the argument in the lookup table.
    pub fn argument_index(&self) -> (r: usize)
        ensures
            r as int == kind_index(self.kind),
    {
        kind_argument_index(self.kind)
    }
}

impl LogupInteraction for Interaction {
    open spec fn spec_values(&self) -> Seq<VirtualPairCol> {
        self.values@
    }

    open spec fn spec_multiplicity(&self) -> VirtualPairCol {
        self.multiplicity
    }

    open spec fn spec_kind(&self) -> InteractionKind {
        self.kind
    }

    fn argument_index(&self) -> (r: usize) {
        kind_argument_index(self.kind)
    }

    fn kind(&self) -> (r: InteractionKind) {
        self.kind
    }

    fn values(&self) -> (r: &Vec<VirtualPairCol>) {
        &self.values
    }

    fn multiplicity(&self) -> (r: &VirtualPairCol) {
        &self.multiplicity
    }
}

impl<'a> InteractionView<'a> {
    /// Create a new interaction view.
    pub fn new(
        values: &'a Vec<VirtualPairCol>,
        multiplicity: &'a VirtualPairCol,
        kind: InteractionKind,
    ) -> (r: InteractionView<'a>)
        ensures
            r.values == values,
            r.multiplicity == multiplicity,
            r.kind == kind,
    {
        InteractionView { values, multiplicity, kind }
    }

    /// The index of the argument in the lookup table.
    pub fn argument_index(&self) -> (r: usize)
        ensures
            r as int == kind_index(self.kind),
    {
        kind_argument_index(self.kind)
    }

    /// Borrow an owned interaction as a view.
    pub fn from(interaction: &'a Interaction) -> (r: InteractionView<'a>)
        ensures
            r.values@ == interaction.values@,
            *r.multiplicity == interaction.multiplicity,
            r.kind == interaction.kind,
    {
        InteractionView {
            values: &interaction.values,
            multiplicity: &interaction.multiplicity,
            kind: interaction.kind,
        }
    }
}

impl<'a> LogupInteraction for InteractionView<'a> {
    open spec fn spec_values(&self) -> Seq<VirtualPairCol> {
        self.values@
    }

    open spec fn spec_multiplicity(&self) -> VirtualPairCol {
        *self.multiplicity
    }

    open spec fn spec_kind(&self) -> InteractionKind {
        self.kind
    }

    fn argument_index(&self) -> (r: usize) {
        kind_argument_index(self.kind)
    }

    fn kind(&self) -> (r: InteractionKind) {
        self.kind
    }

    fn values(&self) -> (r: &Vec<VirtualPairCol>) {
        self.values
    }

    fn multiplicity(&self) -> (r: &VirtualPairCol) {
        self.multiplicity
    }
}

/// An interaction is well formed exactly when its model is.
pub proof fn lemma_wf_model(itx: Interaction, preprocessed_width: int, main_width: int)
    ensures
        itx.wf(preprocessed_width, main_width) <==> itx_model_wf(
            itx.model(),
            preprocessed_width,
            main_width,
        ),
{
    let m = itx.model();
    if itx.wf(preprocessed_width, main_width) {
        assert forall|i: int|
            0 <= i < m.values.len() implies vc_model_wf(
            #[trigger] m.values[i],
            preprocessed_width,
            main_width,
        ) by {
            assert(m.values[i].column_weights == itx.values@[i].column_weights@);
            assert(itx.values@[i] == itx.values@[i]);
        }
        assert(itx_model_wf(m, preprocessed_width, main_width));
    }
    if itx_model_wf(m, preprocessed_width, main_width) {
        assert forall|i: int|
            0 <= i < itx.values@.len() implies weights_wf(
            (#[trigger] itx.values@[i]).column_weights@,
            preprocessed_width,
            main_width,
        ) && itx.values@[i].constant.wf() by {
            assert(vc_model_wf(m.values[i], preprocessed_width, main_width));
            assert(m.values[i].column_weights == itx.values@[i].column_weights@);
        }
        assert(itx.wf(preprocessed_width, main_width));
    }
}

/// Copy a virtual column, preserving its model.
pub fn clone_pair_col(v: &VirtualPairCol) -> (r: VirtualPairCol)
    ensures
        r.column_weights@ == v.column_weights@,
        r.constant == v.constant,
{
    let mut column_weights: Vec<(PairCol, Felt)> = Vec::new();
    let mut i: usize = 0;
    while i < v.column_weights.len()
        invariant
            i <= v.column_weights@.len(),
            column_weights@ =~= v.column_weights@.take(i as int),
        decreases v.column_weights@.len() - i,
    {
        column_weights.push(v.column_weights[i]);
        proof {
            assert(v.column_weights@.take(i as int + 1) =~= v.column_weights@.take(i as int).push(
                v.column_weights@[i as int],
            ));
        }
        i = i + 1;
    }
    proof {
        assert(v.column_weights@.take(v.column_weights@.len() as int) =~= v.column_weights@);
    }
    VirtualPairCol { column_weights, constant: v.constant }
}

/// Copy an interaction, preserving its model.
pub fn clone_interaction(itx: &Interaction) -> (r: Interaction)
    ensures
        r.model() == itx.model(),
        r.values@.len() == itx.values@.len(),
{
    let mut values: Vec<VirtualPairCol> = Vec::new();
    let mut i: usize = 0;
    while i < itx.values.len()
        invariant
            i <= itx.values@.len(),
            values@.len() == i,
            forall|k: int|
                0 <= k < i ==> (#[trigger] values@[k]).column_weights@
                    == itx.values@[k].column_weights@ && values@[k].constant
                    == itx.values@[k].constant,
        decreases itx.values@.len() - i,
    {
        values.push(clone_pair_col(&itx.values[i]));
        i = i + 1;
    }
    let multiplicity = clone_pair_col(&itx.multiplicity);
    let r = Interaction { values, multiplicity, kind: itx.kind };
    proof {
        assert(r.model().values =~= itx.model().values);
        assert(r.model() == itx.model());
    }
    r
}

} // verus!
