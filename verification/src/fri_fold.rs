//! The FRI fold chip: two rows per syscall event. The input row records the
//! slice reads and the extension-field division of the event; the output row
//! records the accumulator writes.

use vstd::prelude::*;

use crate::builder::ConstraintBuilder;
use crate::chip::Air;
use crate::chip::MachineAir;
use crate::extension::ext_div_spec;
use crate::extension::ExtFelt;
use crate::field::fadd;
use crate::field::felt_of;
use crate::field::Felt;
use crate::interaction::Interaction;
use crate::interaction::InteractionKind;
use crate::interaction::InteractionModel;
use crate::lookup_air::LookupAir;
use crate::matrix::RowMajorMatrix;
use crate::record::spec_access_event;
use crate::record::ExecutionRecord;
use crate::record::FieldEvent;
use crate::record::FriFoldEvent;
use crate::record::MemoryRecord;
use crate::record::Program;
use crate::record::ALPHA_POW_ADDR_IDX;
use crate::record::DEGREE;
use crate::record::RO_ADDR_IDX;
use crate::symbolic::SymExpr;
use crate::trace::access_values;
use crate::trace::append_access_events;
use crate::trace::rows_to_matrix;
use crate::util::padded_height;
use crate::virtual_column::VirtualPairCol;

verus! {

/// Number of columns of the FRI fold main trace.
pub const NUM_FRI_FOLD_COLS: usize = 30;

/// The column flagging a real row.
pub const FRI_IS_REAL_COL: usize = 0;

/// The column flagging the input half of an event.
pub const FRI_IS_INPUT_COL: usize = 1;

/// The clock column.
pub const FRI_CLK_COL: usize = 3;

/// An extension element read from four machine words.
pub open spec fn ext_of_words(w: Seq<u32>) -> ExtFelt {
    ExtFelt {
        c0: felt_of(w[0]),
        c1: felt_of(w[1]),
        c2: felt_of(w[2]),
        c3: felt_of(w[3]),
    }
}

/// The value cells of a list of accesses.
pub open spec fn access_cells(records: Seq<MemoryRecord>) -> Seq<Felt> {
    records.map_values(|m: MemoryRecord| felt_of(m.value))
}

/// The comparison events of a list of accesses.
pub open spec fn access_events(records: Seq<MemoryRecord>) -> Seq<FieldEvent> {
    records.map_values(|m: MemoryRecord| spec_access_event(m))
}

/// The input row of one event: flags, bookkeeping, the accumulator addresses,
/// the extension division of the event, and every value read.
pub open spec fn fri_input_row(e: FriFoldEvent) -> Seq<Felt> {
    let div = ext_div_spec(ext_of_words(e.num@), ext_of_words(e.denom@));
    seq![
        Felt::spec_one(),
        Felt::spec_one(),
        felt_of(e.shard),
        felt_of(e.clk),
        felt_of(e.input_slice_ptr),
        felt_of(e.output_slice_ptr),
        felt_of(e.output_slice_read_records@[RO_ADDR_IDX as int].value),
        felt_of(e.output_slice_read_records@[ALPHA_POW_ADDR_IDX as int].value),
        div.c0,
        div.c1,
        div.c2,
        div.c3,
    ] + access_cells(e.input_slice_read_records@) + access_cells(e.output_slice_read_records@)
        + access_cells(e.ro_read_records@) + access_cells(e.alpha_pow_read_records@)
}

/// The output row of one event: flags, the bumped clock, the accumulator
/// addresses, and every value written.
pub open spec fn fri_output_row(e: FriFoldEvent) -> Seq<Felt> {
    seq![
        Felt::spec_one(),
        Felt::spec_zero(),
        felt_of(e.shard),
        Felt { value: fadd(felt_of(e.clk).value as int, 4) as u64 },
        Felt::spec_zero(),
        Felt::spec_zero(),
        felt_of(e.output_slice_read_records@[RO_ADDR_IDX as int].value),
        felt_of(e.output_slice_read_records@[ALPHA_POW_ADDR_IDX as int].value),
        Felt::spec_zero(),
        Felt::spec_zero(),
        Felt::spec_zero(),
        Felt::spec_zero(),
    ] + Seq::new(
        crate::record::NUM_INPUT_ELMS as nat,
        |k: int| Felt::spec_zero(),
    ) + Seq::new(crate::record::NUM_OUTPUT_ELMS as nat, |k: int| Felt::spec_zero())
        + access_cells(e.ro_write_records@) + access_cells(e.alpha_pow_write_records@)
}

/// The two rows of one event.
pub open spec fn fri_event_rows(e: FriFoldEvent) -> Seq<Seq<Felt>> {
    seq![fri_input_row(e), fri_output_row(e)]
}

/// The accumulator read (or write) events of rounds `i` on, interleaved
/// reduced-opening first.
pub open spec fn interleave_events(a: Seq<MemoryRecord>, b: Seq<MemoryRecord>, i: int) -> Seq<
    FieldEvent,
>
    decreases a.len() - i
        when 0 <= i <= a.len()
{
    if i >= a.len() {
        Seq::empty()
    } else {
        seq![spec_access_event(a[i]), spec_access_event(b[i])] + interleave_events(a, b, i + 1)
    }
}

/// All derived events of one event: the slice reads, the interleaved
/// accumulator reads, then the interleaved accumulator writes.
pub open spec fn fri_event_derived(e: FriFoldEvent) -> Seq<FieldEvent> {
    access_events(e.input_slice_read_records@) + access_events(e.output_slice_read_records@)
        + interleave_events(e.ro_read_records@, e.alpha_pow_read_records@, 0) + interleave_events(
        e.ro_write_records@,
        e.alpha_pow_write_records@,
        0,
    )
}

/// The real rows of a shard, in event order.
pub open spec fn fri_rows_spec(events: Seq<FriFoldEvent>) -> Seq<Seq<Felt>>
    decreases events.len(),
{
    if events.len() == 0 {
        Seq::empty()
    } else {
        fri_event_rows(events[0]) + fri_rows_spec(events.skip(1))
    }
}

/// The derived events of a shard, in event order.
pub open spec fn fri_derived_spec(events: Seq<FriFoldEvent>) -> Seq<FieldEvent>
    decreases events.len(),
{
    if events.len() == 0 {
        Seq::empty()
    } else {
        fri_event_derived(events[0]) + fri_derived_spec(events.skip(1))
    }
}

/// The all-zero inert padding row.
pub open spec fn fri_pad_row() -> Seq<Felt> {
    Seq::new(NUM_FRI_FOLD_COLS as nat, |c: int| Felt::spec_zero())
}

/// Appending one event appends its rows.
pub proof fn lemma_fri_rows_push(events: Seq<FriFoldEvent>, e: FriFoldEvent)
    ensures
        fri_rows_spec(events.push(e)) == fri_rows_spec(events) + fri_event_rows(e),
    decreases events.len(),
{
    if events.len() == 0 {
        assert(events.push(e)[0] == e);
        assert(events.push(e).skip(1) =~= Seq::<FriFoldEvent>::empty());
        assert(fri_rows_spec(Seq::<FriFoldEvent>::empty()) =~= Seq::<Seq<Felt>>::empty());
        assert(fri_rows_spec(events.push(e)) =~= fri_rows_spec(events) + fri_event_rows(e));
    } else {
        assert(events.push(e)[0] == events[0]);
        assert(events.push(e).skip(1) =~= events.skip(1).push(e));
        lemma_fri_rows_push(events.skip(1), e);
        assert(fri_rows_spec(events.push(e)) =~= fri_rows_spec(events) + fri_event_rows(e));
    }
}

/// Appending one event appends its derived events.
pub proof fn lemma_fri_derived_push(events: Seq<FriFoldEvent>, e: FriFoldEvent)
    ensures
        fri_derived_spec(events.push(e)) == fri_derived_spec(events) + fri_event_derived(e),
    decreases events.len(),
{
    if events.len() == 0 {
        assert(events.push(e)[0] == e);
        assert(events.push(e).skip(1) =~= Seq::<FriFoldEvent>::empty());
        assert(fri_derived_spec(Seq::<FriFoldEvent>::empty()) =~= Seq::<FieldEvent>::empty());
        assert(fri_derived_spec(events.push(e)) =~= fri_derived_spec(events) + fri_event_derived(
            e,
        ));
    } else {
        assert(events.push(e)[0] == events[0]);
        assert(events.push(e).skip(1) =~= events.skip(1).push(e));
        lemma_fri_derived_push(events.skip(1), e);
        assert(fri_derived_spec(events.push(e)) =~= fri_derived_spec(events) + fri_event_derived(
            e,
        ));
    }
}


/// Generating traces over two chunks of the event list and concatenating the
/// per-chunk buffers yields exactly the one-pass rows: parallel and sequential
/// generation agree row for row, and so as multisets.
pub proof fn lemma_fri_rows_chunked(a: Seq<FriFoldEvent>, b: Seq<FriFoldEvent>)
    ensures
        fri_rows_spec(a + b) == fri_rows_spec(a) + fri_rows_spec(b),
    decreases a.len(),
{
    if a.len() == 0 {
        assert(a + b =~= b);
        assert(fri_rows_spec(a) + fri_rows_spec(b) =~= fri_rows_spec(b));
    } else {
        assert((a + b).skip(1) =~= a.skip(1) + b);
        assert((a + b)[0] == a[0]);
        lemma_fri_rows_chunked(a.skip(1), b);
        assert(fri_rows_spec(a + b) =~= fri_rows_spec(a) + fri_rows_spec(b));
    }
}

/// The FRI fold chip.
pub struct FriFoldChip {
    /// The chip's declared constraints and lookups.
    pub declared: LookupAir,
}

impl FriFoldChip {
    /// Build the chip with its declarations: both flags are boolean, and each
    /// real row sends its clock to the field-operation table.
    pub fn new() -> (r: FriFoldChip)
        ensures
            r.declared.width == NUM_FRI_FOLD_COLS,
    {
        let mut constraints: Vec<SymExpr> = Vec::new();
        constraints.push(SymExpr::booleanity(FRI_IS_REAL_COL));
        constraints.push(SymExpr::booleanity(FRI_IS_INPUT_COL));
        let mut values: Vec<VirtualPairCol> = Vec::new();
        values.push(VirtualPairCol::single_main(FRI_CLK_COL));
        let mut sends: Vec<Interaction> = Vec::new();
        sends.push(
            Interaction {
                values,
                multiplicity: VirtualPairCol::single_main(FRI_IS_REAL_COL),
                kind: InteractionKind::Field,
            },
        );
        FriFoldChip {
            declared: LookupAir {
                width: NUM_FRI_FOLD_COLS,
                constraints,
                sends,
                receives: Vec::new(),
            },
        }
    }
}

impl Air for FriFoldChip {
    open spec fn spec_width(&self) -> int {
        self.declared.spec_width()
    }

    open spec fn spec_preprocessed_width(&self) -> int {
        0
    }

    open spec fn spec_constraints(&self) -> Seq<SymExpr> {
        self.declared.spec_constraints()
    }

    open spec fn spec_sends(&self) -> Seq<InteractionModel> {
        self.declared.spec_sends()
    }

    open spec fn spec_receives(&self) -> Seq<InteractionModel> {
        self.declared.spec_receives()
    }

    proof fn lemma_declarations_wf(&self) {
        self.declared.lemma_declarations_wf();
    }

    fn width(&self) -> (w: usize) {
        self.declared.width()
    }

    fn preprocessed_width(&self) -> (w: usize) {
        0
    }

    fn eval(&self, builder: &mut ConstraintBuilder) {
        self.declared.eval(builder);
    }
}

/// Build the two rows of one event.
fn fri_rows_for_event(e: &FriFoldEvent) -> (r: Vec<Vec<Felt>>)
    requires
        e.wf(),
    ensures
        r@.map_values(|row: Vec<Felt>| row@) =~= fri_event_rows(*e),
        r@.len() == 2,
        forall|k: int| 0 <= k < r@.len() ==> (#[trigger] r@[k])@.len() == NUM_FRI_FOLD_COLS,
{
    let num = ExtFelt {
        c0: Felt::from_u32(e.num[0]),
        c1: Felt::from_u32(e.num[1]),
        c2: Felt::from_u32(e.num[2]),
        c3: Felt::from_u32(e.num[3]),
    };
    let denom = ExtFelt {
        c0: Felt::from_u32(e.denom[0]),
        c1: Felt::from_u32(e.denom[1]),
        c2: Felt::from_u32(e.denom[2]),
        c3: Felt::from_u32(e.denom[3]),
    };
    let div = num.div(denom);
    let ro_addr = Felt::from_u32(e.output_slice_read_records[RO_ADDR_IDX].value);
    let alpha_pow_addr = Felt::from_u32(e.output_slice_read_records[ALPHA_POW_ADDR_IDX].value);

    let mut input_row: Vec<Felt> = Vec::new();
    input_row.push(Felt::one());
    input_row.push(Felt::one());
    input_row.push(Felt::from_u32(e.shard));
    input_row.push(Felt::from_u32(e.clk));
    input_row.push(Felt::from_u32(e.input_slice_ptr));
    input_row.push(Felt::from_u32(e.output_slice_ptr));
    input_row.push(ro_addr);
    input_row.push(alpha_pow_addr);
    input_row.push(div.c0);
    input_row.push(div.c1);
    input_row.push(div.c2);
    input_row.push(div.c3);
    let mut in_vals = access_values(&e.input_slice_read_records);
    input_row.append(&mut in_vals);
    let mut out_vals = access_values(&e.output_slice_read_records);
    input_row.append(&mut out_vals);
    let mut ro_vals = access_values(&e.ro_read_records);
    input_row.append(&mut ro_vals);
    let mut ap_vals = access_values(&e.alpha_pow_read_records);
    input_row.append(&mut ap_vals);
    proof {
        assert(num == ext_of_words(e.num@));
        assert(denom == ext_of_words(e.denom@));
        assert(input_row@ =~= fri_input_row(*e));
    }

    let mut output_row: Vec<Felt> = Vec::new();
    output_row.push(Felt::one());
    output_row.push(Felt::zero());
    output_row.push(Felt::from_u32(e.shard));
    output_row.push(Felt::from_u32(e.clk).add(Felt::from_u32(4)));
    output_row.push(Felt::zero());
    output_row.push(Felt::zero());
    output_row.push(ro_addr);
    output_row.push(alpha_pow_addr);
    output_row.push(Felt::zero());
    output_row.push(Felt::zero());
    output_row.push(Felt::zero());
    output_row.push(Felt::zero());
    let mut z: usize = 0;
    while z < crate::record::NUM_INPUT_ELMS + crate::record::NUM_OUTPUT_ELMS
        invariant
            z <= crate::record::NUM_INPUT_ELMS + crate::record::NUM_OUTPUT_ELMS,
            output_row@.len() == 12 + z,
            forall|k: int| 12 <= k < output_row@.len() ==> output_row@[k] == Felt::spec_zero(),
            output_row@.take(12) =~= fri_output_row(*e).take(12),
        decreases crate::record::NUM_INPUT_ELMS + crate::record::NUM_OUTPUT_ELMS - z,
    {
        output_row.push(Felt::zero());
        z = z + 1;
    }
    let mut ro_w_vals = access_values(&e.ro_write_records);
    output_row.append(&mut ro_w_vals);
    let mut ap_w_vals = access_values(&e.alpha_pow_write_records);
    output_row.append(&mut ap_w_vals);
    proof {
        assert(output_row@.len() == 30);
        assert(access_cells(e.ro_write_records@).len() == 4);
        assert(access_cells(e.alpha_pow_write_records@).len() == 4);
        assert(fri_output_row(*e).len() == 30);
        assert forall|k: int| 0 <= k < 12 implies output_row@[k] == fri_output_row(*e)[k] by {
            assert(output_row@.take(12)[k] == output_row@[k]);
            assert(fri_output_row(*e).take(12)[k] == fri_output_row(*e)[k]);
        }
        assert forall|k: int| 12 <= k < 22 implies output_row@[k] == fri_output_row(*e)[k] by {
            assert(output_row@[k] == Felt::spec_zero());
        }
        assert forall|k: int| 22 <= k < 30 implies output_row@[k] == fri_output_row(*e)[k] by {
            if k < 26 {
                assert(output_row@[k] == access_cells(e.ro_write_records@)[k - 22]);
            } else {
                assert(output_row@[k] == access_cells(e.alpha_pow_write_records@)[k - 26]);
            }
        }
        assert(output_row@ =~= fri_output_row(*e));
    }

    let mut rows: Vec<Vec<Felt>> = Vec::new();
    rows.push(input_row);
    rows.push(output_row);
    proof {
        assert(rows@.map_values(|row: Vec<Felt>| row@) =~= fri_event_rows(*e));
    }
    rows
}

/// Append the derived events of one event: slice reads, accumulator reads,
/// accumulator writes.
fn fri_events_for_event(e: &FriFoldEvent, out: &mut Vec<FieldEvent>)
    requires
        e.wf(),
    ensures
        final(out)@ == old(out)@ + fri_event_derived(*e),
{
    append_access_events(&e.input_slice_read_records, out);
    append_access_events(&e.output_slice_read_records, out);
    let ghost mid = out@;
    let mut i: usize = 0;
    while i < DEGREE
        invariant
            i <= DEGREE,
            e.wf(),
            out@ + interleave_events(e.ro_read_records@, e.alpha_pow_read_records@, i as int)
                == mid + interleave_events(e.ro_read_records@, e.alpha_pow_read_records@, 0),
        decreases DEGREE - i,
    {
        let ghost before = out@;
        let r = e.ro_read_records[i];
        out.push(FieldEvent { is_lt: r.prev_timestamp < r.timestamp, a: r.prev_timestamp, b: r.timestamp });
        let a = e.alpha_pow_read_records[i];
        out.push(FieldEvent { is_lt: a.prev_timestamp < a.timestamp, a: a.prev_timestamp, b: a.timestamp });
        proof {
            assert(out@ =~= before + seq![
                spec_access_event(e.ro_read_records@[i as int]),
                spec_access_event(e.alpha_pow_read_records@[i as int]),
            ]);
            assert(before + (seq![
                spec_access_event(e.ro_read_records@[i as int]),
                spec_access_event(e.alpha_pow_read_records@[i as int]),
            ] + interleave_events(e.ro_read_records@, e.alpha_pow_read_records@, i as int + 1))
                =~= (before + seq![
                spec_access_event(e.ro_read_records@[i as int]),
                spec_access_event(e.alpha_pow_read_records@[i as int]),
            ]) + interleave_events(e.ro_read_records@, e.alpha_pow_read_records@, i as int + 1));
        }
        i = i + 1;
    }
    proof {
        assert(interleave_events(e.ro_read_records@, e.alpha_pow_read_records@, DEGREE as int)
            =~= Seq::<FieldEvent>::empty());
        assert(out@ + Seq::<FieldEvent>::empty() =~= out@);
    }
    let ghost mid2 = out@;
    let mut i2: usize = 0;
    while i2 < DEGREE
        invariant
            i2 <= DEGREE,
            e.wf(),
            out@ + interleave_events(e.ro_write_records@, e.alpha_pow_write_records@, i2 as int)
                == mid2 + interleave_events(e.ro_write_records@, e.alpha_pow_write_records@, 0),
        decreases DEGREE - i2,
    {
        let ghost before = out@;
        let r = e.ro_write_records[i2];
        out.push(FieldEvent { is_lt: r.prev_timestamp < r.timestamp, a: r.prev_timestamp, b: r.timestamp });
        let a = e.alpha_pow_write_records[i2];
        out.push(FieldEvent { is_lt: a.prev_timestamp < a.timestamp, a: a.prev_timestamp, b: a.timestamp });
        proof {
            assert(out@ =~= before + seq![
                spec_access_event(e.ro_write_records@[i2 as int]),
                spec_access_event(e.alpha_pow_write_records@[i2 as int]),
            ]);
            assert(before + (seq![
                spec_access_event(e.ro_write_records@[i2 as int]),
                spec_access_event(e.alpha_pow_write_records@[i2 as int]),
            ] + interleave_events(e.ro_write_records@, e.alpha_pow_write_records@, i2 as int + 1))
                =~= (before + seq![
                spec_access_event(e.ro_write_records@[i2 as int]),
                spec_access_event(e.alpha_pow_write_records@[i2 as int]),
            ]) + interleave_events(e.ro_write_records@, e.alpha_pow_write_records@, i2 as int
                + 1));
        }
        i2 = i2 + 1;
    }
    proof {
        assert(interleave_events(e.ro_write_records@, e.alpha_pow_write_records@, DEGREE as int)
            =~= Seq::<FieldEvent>::empty());
        assert(out@ + Seq::<FieldEvent>::empty() =~= out@);
        assert(out@ =~= old(out)@ + fri_event_derived(*e));
    }
}

impl MachineAir for FriFoldChip {
    open spec fn spec_trace_width(&self) -> int {
        NUM_FRI_FOLD_COLS as int
    }

    open spec fn spec_name(&self) -> Seq<char> {
        "FriFold"@
    }

    open spec fn spec_rows(&self, input: ExecutionRecord) -> Seq<Seq<Felt>> {
        fri_rows_spec(input.fri_fold_events@)
    }

    open spec fn spec_pad_row(&self, i: int) -> Seq<Felt> {
        fri_pad_row()
    }

    open spec fn spec_derived_events(&self, input: ExecutionRecord) -> Seq<FieldEvent> {
        fri_derived_spec(input.fri_fold_events@)
    }

    open spec fn spec_preprocessed_width(&self) -> int {
        0
    }

    fn name(&self) -> (r: String) {
        String::from_str("FriFold")
    }

    fn generate_trace(&self, input: &ExecutionRecord, output: &mut ExecutionRecord) -> (t:
        RowMajorMatrix<Felt>) {
        let mut rows: Vec<Vec<Felt>> = Vec::new();
        let mut new_field_events: Vec<FieldEvent> = Vec::new();
        let mut i: usize = 0;
        proof {
            assert(input.fri_fold_events@.take(0) =~= Seq::<FriFoldEvent>::empty());
        }
        while i < input.fri_fold_events.len()
            invariant
                i <= input.fri_fold_events@.len(),
                input.wf(),
                rows@.map_values(|row: Vec<Felt>| row@) == fri_rows_spec(
                    input.fri_fold_events@.take(i as int),
                ),
                new_field_events@ == fri_derived_spec(input.fri_fold_events@.take(i as int)),
                forall|k: int|
                    0 <= k < rows@.len() ==> (#[trigger] rows@[k])@.len() == NUM_FRI_FOLD_COLS,
                rows@.len() == i * 2,
            decreases input.fri_fold_events@.len() - i,
        {
            let e = &input.fri_fold_events[i];
            let mut event_rows = fri_rows_for_event(e);
            rows.append(&mut event_rows);
            fri_events_for_event(e, &mut new_field_events);
            proof {
                assert(input.fri_fold_events@.take(i as int + 1)
                    =~= input.fri_fold_events@.take(i as int).push(
                    input.fri_fold_events@[i as int],
                ));
                lemma_fri_rows_push(
                    input.fri_fold_events@.take(i as int),
                    input.fri_fold_events@[i as int],
                );
                lemma_fri_derived_push(
                    input.fri_fold_events@.take(i as int),
                    input.fri_fold_events@[i as int],
                );
                assert(rows@.map_values(|row: Vec<Felt>| row@) =~= fri_rows_spec(
                    input.fri_fold_events@.take(i as int + 1),
                ));
            }
            i = i + 1;
        }
        proof {
            assert(input.fri_fold_events@.take(input.fri_fold_events@.len() as int)
                =~= input.fri_fold_events@);
        }
        let nb_rows = rows.len();
        let padded_nb_rows = padded_height(nb_rows);
        let mut k = nb_rows;
        while k < padded_nb_rows
            invariant
                nb_rows <= k <= padded_nb_rows,
                rows@.len() == k,
                rows@.map_values(|row: Vec<Felt>| row@).take(nb_rows as int) == fri_rows_spec(
                    input.fri_fold_events@,
                ),
                fri_rows_spec(input.fri_fold_events@).len() == nb_rows,
                forall|k2: int|
                    0 <= k2 < rows@.len() ==> (#[trigger] rows@[k2])@.len() == NUM_FRI_FOLD_COLS,
                forall|k2: int| nb_rows <= k2 < k ==> (#[trigger] rows@[k2])@ == fri_pad_row(),
            decreases padded_nb_rows - k,
        {
            let mut row: Vec<Felt> = Vec::new();
            let mut c: usize = 0;
            while c < NUM_FRI_FOLD_COLS
                invariant
                    c <= NUM_FRI_FOLD_COLS,
                    row@ =~= fri_pad_row().take(c as int),
                decreases NUM_FRI_FOLD_COLS - c,
            {
                row.push(Felt::zero());
                proof {
                    assert(fri_pad_row().take(c as int + 1) =~= fri_pad_row().take(c as int).push(
                        fri_pad_row()[c as int],
                    ));
                }
                c = c + 1;
            }
            proof {
                assert(row@ =~= fri_pad_row());
            }
            rows.push(row);
            proof {
                assert(rows@.map_values(|row2: Vec<Felt>| row2@).take(nb_rows as int)
                    =~= fri_rows_spec(input.fri_fold_events@));
            }
            k = k + 1;
        }
        output.add_field_events(&new_field_events);
        let t = rows_to_matrix(&rows, NUM_FRI_FOLD_COLS);
        proof {
            crate::util::lemma_padded_height(fri_rows_spec(input.fri_fold_events@).len() as nat);
            assert forall|i2: int|
                0 <= i2 < self.spec_rows(*input).len() implies t.spec_row(i2) == self.spec_rows(
                *input,
            )[i2] by {
                assert(t.spec_row(i2) == rows@[i2]@);
                assert(rows@.map_values(|row: Vec<Felt>| row@)[i2] == rows@[i2]@);
                assert(rows@.map_values(|row: Vec<Felt>| row@).take(nb_rows as int)[i2]
                    == rows@[i2]@);
            }
            assert forall|i2: int|
                self.spec_rows(*input).len() <= i2 < t.spec_height() implies t.spec_row(i2)
                    == self.spec_pad_row(i2) by {
                assert(t.spec_row(i2) == rows@[i2]@);
            }
        }
        t
    }

    fn generate_dependencies(&self, input: &ExecutionRecord, output: &mut ExecutionRecord) {
        let mut new_field_events: Vec<FieldEvent> = Vec::new();
        let mut i: usize = 0;
        proof {
            assert(input.fri_fold_events@.take(0) =~= Seq::<FriFoldEvent>::empty());
        }
        while i < input.fri_fold_events.len()
            invariant
                i <= input.fri_fold_events@.len(),
                input.wf(),
                new_field_events@ == fri_derived_spec(input.fri_fold_events@.take(i as int)),
            decreases input.fri_fold_events@.len() - i,
        {
            let e = &input.fri_fold_events[i];
            fri_events_for_event(e, &mut new_field_events);
            proof {
                assert(input.fri_fold_events@.take(i as int + 1)
                    =~= input.fri_fold_events@.take(i as int).push(
                    input.fri_fold_events@[i as int],
                ));
                lemma_fri_derived_push(
                    input.fri_fold_events@.take(i as int),
                    input.fri_fold_events@[i as int],
                );
            }
            i = i + 1;
        }
        proof {
            assert(input.fri_fold_events@.take(input.fri_fold_events@.len() as int)
                =~= input.fri_fold_events@);
        }
        output.add_field_events(&new_field_events);
    }

    fn included(&self, shard: &ExecutionRecord) -> (r: bool) {
        proof {
            if shard.fri_fold_events@.len() != 0 {
                assert(fri_rows_spec(shard.fri_fold_events@).len() >= fri_event_rows(
                    shard.fri_fold_events@[0],
                ).len());
            }
        }
        shard.fri_fold_events.len() > 0
    }

    fn preprocessed_width(&self) -> (r: usize) {
        0
    }

    fn generate_preprocessed_trace(&self, _program: &Program) -> (r: Option<RowMajorMatrix<Felt>>) {
        None
    }

    fn preprocessed_trace(&self) -> (r: Option<RowMajorMatrix<Felt>>) {
        None
    }
}

} // verus!
