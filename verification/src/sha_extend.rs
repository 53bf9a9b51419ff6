//! The SHA-256 message-schedule extension chip: 48 rows per syscall event,
//! each computing one extended schedule word from four earlier words.

use vstd::prelude::*;

use crate::chip::Air;
use crate::chip::MachineAir;
use crate::builder::ConstraintBuilder;
use crate::field::felt_of;
use crate::field::Felt;
use crate::interaction::Interaction;
use crate::interaction::InteractionKind;
use crate::interaction::InteractionModel;
use crate::lookup_air::LookupAir;
use crate::matrix::RowMajorMatrix;
use crate::record::spec_access_event;
use crate::record::ExecutionRecord;
use crate::record::FieldEvent;
use crate::record::Program;
use crate::record::ShaExtendEvent;
use crate::record::SHA_EXTEND_ROUNDS;
use crate::symbolic::SymExpr;
use crate::trace::rows_to_matrix;
use crate::util::padded_height;
use crate::virtual_column::VirtualPairCol;

verus! {

/// Number of columns of the SHA extend main trace.
pub const NUM_SHA_EXTEND_COLS: usize = 13;

/// The column holding the extended word.
pub const SHA_W_I_COL: usize = 11;

/// The column flagging a real (non-padding) row.
pub const SHA_IS_REAL_COL: usize = 12;

/// The first schedule sigma: `rotr(x, 7) ^ rotr(x, 18) ^ (x >> 3)`.
pub open spec fn spec_s0(x: u32) -> u32 {
    ((x >> 7u32) | (x << 25u32)) ^ ((x >> 18u32) | (x << 14u32)) ^ (x >> 3u32)
}

/// The second schedule sigma: `rotr(x, 17) ^ rotr(x, 19) ^ (x >> 10)`.
pub open spec fn spec_s1(x: u32) -> u32 {
    ((x >> 17u32) | (x << 15u32)) ^ ((x >> 19u32) | (x << 13u32)) ^ (x >> 10u32)
}

/// The extended word: the wrapping sum of the two sigmas and two earlier
/// words.
pub open spec fn spec_s2(w16: u32, s0: u32, w7: u32, s1: u32) -> u32 {
    ((w16 + s0 + w7 + s1) % 0x100000000) as u32
}

/// Row `j` generated by one event: bookkeeping, the four read words, the
/// sigmas, the extended word, and the real flag.
pub open spec fn sha_row(e: ShaExtendEvent, j: int) -> Seq<Felt> {
    let w15 = e.w_i_minus_15_reads@[j].value;
    let w2 = e.w_i_minus_2_reads@[j].value;
    let w16 = e.w_i_minus_16_reads@[j].value;
    let w7 = e.w_i_minus_7_reads@[j].value;
    seq![
        felt_of(e.shard),
        felt_of(e.clk),
        felt_of(e.w_ptr),
        Felt { value: (j % (SHA_EXTEND_ROUNDS as int)) as u64 },
        felt_of(w15),
        felt_of(w2),
        felt_of(w16),
        felt_of(w7),
        felt_of(spec_s0(w15)),
        felt_of(spec_s1(w2)),
        felt_of(spec_s2(w16, spec_s0(w15), w7, spec_s1(w2))),
        felt_of(e.w_i_writes@[j].value),
        Felt::spec_one(),
    ]
}

/// The 48 rows of one event.
pub open spec fn sha_event_rows(e: ShaExtendEvent) -> Seq<Seq<Felt>> {
    Seq::new(SHA_EXTEND_ROUNDS as nat, |j: int| sha_row(e, j))
}

/// The five access events derived in round `j`: the four reads, then the
/// write.
pub open spec fn sha_round_events(e: ShaExtendEvent, j: int) -> Seq<FieldEvent> {
    seq![
        spec_access_event(e.w_i_minus_15_reads@[j]),
        spec_access_event(e.w_i_minus_2_reads@[j]),
        spec_access_event(e.w_i_minus_16_reads@[j]),
        spec_access_event(e.w_i_minus_7_reads@[j]),
        spec_access_event(e.w_i_writes@[j]),
    ]
}

/// All derived events of one event, in round order.
pub open spec fn sha_event_derived(e: ShaExtendEvent) -> Seq<FieldEvent>
    decreases SHA_EXTEND_ROUNDS as int,
{
    sha_derived_from(e, 0)
}

/// The derived events from round `j` on.
pub open spec fn sha_derived_from(e: ShaExtendEvent, j: int) -> Seq<FieldEvent>
    decreases SHA_EXTEND_ROUNDS as int - j
        when 0 <= j <= SHA_EXTEND_ROUNDS as int
{
    if j >= SHA_EXTEND_ROUNDS as int {
        Seq::empty()
    } else {
        sha_round_events(e, j) + sha_derived_from(e, j + 1)
    }
}

/// The real rows of a shard, in event order.
pub open spec fn sha_rows_spec(events: Seq<ShaExtendEvent>) -> Seq<Seq<Felt>>
    decreases events.len(),
{
    if events.len() == 0 {
        Seq::empty()
    } else {
        sha_event_rows(events[0]) + sha_rows_spec(events.skip(1))
    }
}

/// The derived events of a shard, in event order.
pub open spec fn sha_derived_spec(events: Seq<ShaExtendEvent>) -> Seq<FieldEvent>
    decreases events.len(),
{
    if events.len() == 0 {
        Seq::empty()
    } else {
        sha_event_derived(events[0]) + sha_derived_spec(events.skip(1))
    }
}

/// The inert padding row at index `i`: zero everywhere but the cycle flag, so
/// every multiplicity is forced to zero.
pub open spec fn sha_pad_row(i: int) -> Seq<Felt> {
    Seq::new(
        NUM_SHA_EXTEND_COLS as nat,
        |c: int|
            if c == 3 {
                Felt { value: (i % (SHA_EXTEND_ROUNDS as int)) as u64 }
            } else {
                Felt::spec_zero()
            },
    )
}

/// Appending one event appends its rows.
pub proof fn lemma_sha_rows_push(events: Seq<ShaExtendEvent>, e: ShaExtendEvent)
    ensures
        sha_rows_spec(events.push(e)) == sha_rows_spec(events) + sha_event_rows(e),
    decreases events.len(),
{
    if events.len() == 0 {
        assert(events.push(e)[0] == e);
        assert(events.push(e).skip(1) =~= Seq::<ShaExtendEvent>::empty());
        assert(sha_rows_spec(Seq::<ShaExtendEvent>::empty()) =~= Seq::<Seq<Felt>>::empty());
        assert(sha_rows_spec(events.push(e)) =~= sha_rows_spec(events) + sha_event_rows(e));
    } else {
        assert(events.push(e)[0] == events[0]);
        assert(events.push(e).skip(1) =~= events.skip(1).push(e));
        lemma_sha_rows_push(events.skip(1), e);
        assert(sha_rows_spec(events.push(e)) =~= sha_rows_spec(events) + sha_event_rows(e));
    }
}

/// Appending one event appends its derived events.
pub proof fn lemma_sha_derived_push(events: Seq<ShaExtendEvent>, e: ShaExtendEvent)
    ensures
        sha_derived_spec(events.push(e)) == sha_derived_spec(events) + sha_event_derived(e),
    decreases events.len(),
{
    if events.len() == 0 {
        assert(events.push(e)[0] == e);
        assert(events.push(e).skip(1) =~= Seq::<ShaExtendEvent>::empty());
        assert(sha_derived_spec(Seq::<ShaExtendEvent>::empty()) =~= Seq::<FieldEvent>::empty());
        assert(sha_derived_spec(events.push(e)) =~= sha_derived_spec(events) + sha_event_derived(
            e,
        ));
    } else {
        assert(events.push(e)[0] == events[0]);
        assert(events.push(e).skip(1) =~= events.skip(1).push(e));
        lemma_sha_derived_push(events.skip(1), e);
        assert(sha_derived_spec(events.push(e)) =~= sha_derived_spec(events) + sha_event_derived(
            e,
        ));
    }
}

/// Generating traces over two chunks of the event list and concatenating the
/// per-chunk buffers yields exactly the one-pass rows: parallel and sequential
/// generation agree row for row, and so as multisets.
pub proof fn lemma_sha_rows_chunked(a: Seq<ShaExtendEvent>, b: Seq<ShaExtendEvent>)
    ensures
        sha_rows_spec(a + b) == sha_rows_spec(a) + sha_rows_spec(b),
    decreases a.len(),
{
    if a.len() == 0 {
        assert(a + b =~= b);
        assert(sha_rows_spec(a) + sha_rows_spec(b) =~= sha_rows_spec(b));
    } else {
        assert((a + b).skip(1) =~= a.skip(1) + b);
        assert((a + b)[0] == a[0]);
        lemma_sha_rows_chunked(a.skip(1), b);
        assert(sha_rows_spec(a + b) =~= sha_rows_spec(a) + sha_rows_spec(b));
    }
}

/// The rotate-right by `n` of a machine word, as two shifts.
fn rotr(x: u32, n: u32, m: u32) -> (r: u32)
    requires
        0 < n < 32,
        m == 32 - n,
    ensures
        r == ((x >> n) | (x << m)),
{
    (x >> n) | (x << m)
}

/// The first schedule sigma.
fn s0_of(x: u32) -> (r: u32)
    ensures
        r == spec_s0(x),
{
    rotr(x, 7, 25) ^ rotr(x, 18, 14) ^ (x >> 3u32)
}

/// The second schedule sigma.
fn s1_of(x: u32) -> (r: u32)
    ensures
        r == spec_s1(x),
{
    rotr(x, 17, 15) ^ rotr(x, 19, 13) ^ (x >> 10u32)
}

/// The extended word, a wrapping sum.
fn s2_of(w16: u32, s0: u32, w7: u32, s1: u32) -> (r: u32)
    ensures
        r == spec_s2(w16, s0, w7, s1),
{
    let wide: u64 = (w16 as u64) + (s0 as u64) + (w7 as u64) + (s1 as u64);
    (wide % 0x100000000) as u32
}

/// The SHA-256 message-schedule extension chip.
pub struct ShaExtendChip {
    /// The chip's declared constraints and lookups.
    pub declared: LookupAir,
}

impl ShaExtendChip {
    /// Build the chip with its declarations: the real flag is boolean, and
    /// each real row sends its extended word to the byte table.
    pub fn new() -> (r: ShaExtendChip)
        ensures
            r.declared.width == NUM_SHA_EXTEND_COLS,
    {
        let mut constraints: Vec<SymExpr> = Vec::new();
        constraints.push(SymExpr::booleanity(SHA_IS_REAL_COL));
        let mut values: Vec<VirtualPairCol> = Vec::new();
        values.push(VirtualPairCol::single_main(SHA_W_I_COL));
        let mut sends: Vec<Interaction> = Vec::new();
        sends.push(
            Interaction {
                values,
                multiplicity: VirtualPairCol::single_main(SHA_IS_REAL_COL),
                kind: InteractionKind::Byte,
            },
        );
        ShaExtendChip {
            declared: LookupAir {
                width: NUM_SHA_EXTEND_COLS,
                constraints,
                sends,
                receives: Vec::new(),
            },
        }
    }
}

impl Air for ShaExtendChip {
    open spec fn spec_width(&self) -> int {
        self.declared.spec_width()
    }

    open spec fn spec_preprocessed_width(&self) -> int {
        0
    }

    open spec fn spec_constraints(&self) -> Seq<SymExpr> {
        self.declared.spec_constraints()
    }

    open spec fn spec_sends(&self) -> Seq<InteractionModel> {
        self.declared.spec_sends()
    }

    open spec fn spec_receives(&self) -> Seq<InteractionModel> {
        self.declared.spec_receives()
    }

    proof fn lemma_declarations_wf(&self) {
        self.declared.lemma_declarations_wf();
    }

    fn width(&self) -> (w: usize) {
        self.declared.width()
    }

    fn preprocessed_width(&self) -> (w: usize) {
        0
    }

    fn eval(&self, builder: &mut ConstraintBuilder) {
        self.declared.eval(builder);
    }
}

/// Build the 48 rows of one event.
fn sha_rows_for_event(e: &ShaExtendEvent) -> (r: Vec<Vec<Felt>>)
    requires
        e.wf(),
    ensures
        r@.map_values(|row: Vec<Felt>| row@) =~= sha_event_rows(*e),
        r@.len() == SHA_EXTEND_ROUNDS,
        forall|k: int| 0 <= k < r@.len() ==> (#[trigger] r@[k])@.len() == NUM_SHA_EXTEND_COLS,
{
    let mut rows: Vec<Vec<Felt>> = Vec::new();
    let mut j: usize = 0;
    while j < SHA_EXTEND_ROUNDS
        invariant
            j <= SHA_EXTEND_ROUNDS,
            e.wf(),
            rows@.len() == j,
            forall|k: int| 0 <= k < j ==> (#[trigger] rows@[k])@ == sha_row(*e, k),
            forall|k: int| 0 <= k < j ==> (#[trigger] rows@[k])@.len() == NUM_SHA_EXTEND_COLS,
        decreases SHA_EXTEND_ROUNDS - j,
    {
        let w15 = e.w_i_minus_15_reads[j].value;
        let w2 = e.w_i_minus_2_reads[j].value;
        let w16 = e.w_i_minus_16_reads[j].value;
        let w7 = e.w_i_minus_7_reads[j].value;
        let s0 = s0_of(w15);
        let s1 = s1_of(w2);
        let s2 = s2_of(w16, s0, w7, s1);
        let mut row: Vec<Felt> = Vec::new();
        row.push(Felt::from_u32(e.shard));
        row.push(Felt::from_u32(e.clk));
        row.push(Felt::from_u32(e.w_ptr));
        row.push(Felt { value: (j % SHA_EXTEND_ROUNDS) as u64 });
        row.push(Felt::from_u32(w15));
        row.push(Felt::from_u32(w2));
        row.push(Felt::from_u32(w16));
        row.push(Felt::from_u32(w7));
        row.push(Felt::from_u32(s0));
        row.push(Felt::from_u32(s1));
        row.push(Felt::from_u32(s2));
        row.push(Felt::from_u32(e.w_i_writes[j].value));
        row.push(Felt::one());
        proof {
            assert(row@ =~= sha_row(*e, j as int));
        }
        rows.push(row);
        j = j + 1;
    }
    proof {
        assert(rows@.map_values(|row: Vec<Felt>| row@) =~= sha_event_rows(*e));
    }
    rows
}

/// Append the derived events of one event.
fn sha_events_for_event(e: &ShaExtendEvent, out: &mut Vec<FieldEvent>)
    requires
        e.wf(),
    ensures
        final(out)@ == old(out)@ + sha_event_derived(*e),
{
    let mut j: usize = 0;
    while j < SHA_EXTEND_ROUNDS
        invariant
            j <= SHA_EXTEND_ROUNDS,
            e.wf(),
            out@ + sha_derived_from(*e, j as int) == old(out)@ + sha_event_derived(*e),
        decreases SHA_EXTEND_ROUNDS - j,
    {
        let ghost before = out@;
        let r15 = e.w_i_minus_15_reads[j];
        out.push(FieldEvent { is_lt: r15.prev_timestamp < r15.timestamp, a: r15.prev_timestamp, b: r15.timestamp });
        let r2 = e.w_i_minus_2_reads[j];
        out.push(FieldEvent { is_lt: r2.prev_timestamp < r2.timestamp, a: r2.prev_timestamp, b: r2.timestamp });
        let r16 = e.w_i_minus_16_reads[j];
        out.push(FieldEvent { is_lt: r16.prev_timestamp < r16.timestamp, a: r16.prev_timestamp, b: r16.timestamp });
        let r7 = e.w_i_minus_7_reads[j];
        out.push(FieldEvent { is_lt: r7.prev_timestamp < r7.timestamp, a: r7.prev_timestamp, b: r7.timestamp });
        let w = e.w_i_writes[j];
        out.push(FieldEvent { is_lt: w.prev_timestamp < w.timestamp, a: w.prev_timestamp, b: w.timestamp });
        proof {
            assert(out@ =~= before + sha_round_events(*e, j as int));
            assert(before + (sha_round_events(*e, j as int) + sha_derived_from(*e, j as int + 1))
                =~= (before + sha_round_events(*e, j as int)) + sha_derived_from(*e, j as int + 1));
        }
        j = j + 1;
    }
    proof {
        assert(sha_derived_from(*e, SHA_EXTEND_ROUNDS as int) =~= Seq::<FieldEvent>::empty());
        assert(out@ + Seq::<FieldEvent>::empty() =~= out@);
    }
}

impl MachineAir for ShaExtendChip {
    open spec fn spec_trace_width(&self) -> int {
        NUM_SHA_EXTEND_COLS as int
    }

    open spec fn spec_name(&self) -> Seq<char> {
        "ShaExtend"@
    }

    open spec fn spec_rows(&self, input: ExecutionRecord) -> Seq<Seq<Felt>> {
        sha_rows_spec(input.sha_extend_events@)
    }

    open spec fn spec_pad_row(&self, i: int) -> Seq<Felt> {
        sha_pad_row(i)
    }

    open spec fn spec_derived_events(&self, input: ExecutionRecord) -> Seq<FieldEvent> {
        sha_derived_spec(input.sha_extend_events@)
    }

    open spec fn spec_preprocessed_width(&self) -> int {
        0
    }

    fn name(&self) -> (r: String) {
        String::from_str("ShaExtend")
    }

    fn generate_trace(&self, input: &ExecutionRecord, output: &mut ExecutionRecord) -> (t:
        RowMajorMatrix<Felt>) {
        let mut rows: Vec<Vec<Felt>> = Vec::new();
        let mut new_field_events: Vec<FieldEvent> = Vec::new();
        let mut i: usize = 0;
        proof {
            assert(input.sha_extend_events@.take(0) =~= Seq::<ShaExtendEvent>::empty());
        }
        while i < input.sha_extend_events.len()
            invariant
                i <= input.sha_extend_events@.len(),
                input.wf(),
                rows@.map_values(|row: Vec<Felt>| row@) == sha_rows_spec(
                    input.sha_extend_events@.take(i as int),
                ),
                new_field_events@ == sha_derived_spec(input.sha_extend_events@.take(i as int)),
                forall|k: int|
                    0 <= k < rows@.len() ==> (#[trigger] rows@[k])@.len() == NUM_SHA_EXTEND_COLS,
                rows@.len() == i * (SHA_EXTEND_ROUNDS as int),
            decreases input.sha_extend_events@.len() - i,
        {
            let e = &input.sha_extend_events[i];
            let mut event_rows = sha_rows_for_event(e);
            let ghost rows_before = rows@;
            rows.append(&mut event_rows);
            sha_events_for_event(e, &mut new_field_events);
            proof {
                assert(input.sha_extend_events@.take(i as int + 1)
                    =~= input.sha_extend_events@.take(i as int).push(
                    input.sha_extend_events@[i as int],
                ));
                lemma_sha_rows_push(
                    input.sha_extend_events@.take(i as int),
                    input.sha_extend_events@[i as int],
                );
                lemma_sha_derived_push(
                    input.sha_extend_events@.take(i as int),
                    input.sha_extend_events@[i as int],
                );
                assert(rows@.map_values(|row: Vec<Felt>| row@) =~= sha_rows_spec(
                    input.sha_extend_events@.take(i as int + 1),
                ));
                assert((i + 1) * (SHA_EXTEND_ROUNDS as int) == i * (SHA_EXTEND_ROUNDS as int)
                    + SHA_EXTEND_ROUNDS) by (nonlinear_arith);
            }
            i = i + 1;
        }
        proof {
            assert(input.sha_extend_events@.take(input.sha_extend_events@.len() as int)
                =~= input.sha_extend_events@);
        }
        let nb_rows = rows.len();
        let padded_nb_rows = padded_height(nb_rows);
        let mut k = nb_rows;
        while k < padded_nb_rows
            invariant
                nb_rows <= k <= padded_nb_rows,
                rows@.len() == k,
                rows@.map_values(|row: Vec<Felt>| row@).take(nb_rows as int) == sha_rows_spec(
                    input.sha_extend_events@,
                ),
                sha_rows_spec(input.sha_extend_events@).len() == nb_rows,
                forall|k2: int|
                    0 <= k2 < rows@.len() ==> (#[trigger] rows@[k2])@.len()
                        == NUM_SHA_EXTEND_COLS,
                forall|k2: int|
                    nb_rows <= k2 < k ==> (#[trigger] rows@[k2])@ == sha_pad_row(k2),
            decreases padded_nb_rows - k,
        {
            let mut row: Vec<Felt> = Vec::new();
            let mut c: usize = 0;
            while c < NUM_SHA_EXTEND_COLS
                invariant
                    c <= NUM_SHA_EXTEND_COLS,
                    k >= 0,
                    row@ =~= sha_pad_row(k as int).take(c as int),
                decreases NUM_SHA_EXTEND_COLS - c,
            {
                if c == 3 {
                    row.push(Felt { value: (k % SHA_EXTEND_ROUNDS) as u64 });
                } else {
                    row.push(Felt::zero());
                }
                proof {
                    assert(sha_pad_row(k as int).take(c as int + 1) =~= sha_pad_row(
                        k as int,
                    ).take(c as int).push(sha_pad_row(k as int)[c as int]));
                }
                c = c + 1;
            }
            proof {
                assert(row@ =~= sha_pad_row(k as int));
            }
            rows.push(row);
            proof {
                assert(rows@.map_values(|row: Vec<Felt>| row@).take(nb_rows as int)
                    =~= rows@.take(k as int).map_values(|row: Vec<Felt>| row@).take(
                    nb_rows as int,
                ));
                assert(rows@.map_values(|row: Vec<Felt>| row@).take(nb_rows as int)
                    == sha_rows_spec(input.sha_extend_events@)) by {
                    assert(rows@.map_values(|row: Vec<Felt>| row@).take(nb_rows as int)
                        =~= sha_rows_spec(input.sha_extend_events@));
                }
            }
            k = k + 1;
        }
        output.add_field_events(&new_field_events);
        let t = rows_to_matrix(&rows, NUM_SHA_EXTEND_COLS);
        proof {
            crate::util::lemma_padded_height(sha_rows_spec(input.sha_extend_events@).len() as nat);
            assert forall|i2: int|
                0 <= i2 < self.spec_rows(*input).len() implies t.spec_row(i2) == self.spec_rows(
                *input,
            )[i2] by {
                assert(t.spec_row(i2) == rows@[i2]@);
                assert(rows@.map_values(|row: Vec<Felt>| row@)[i2] == rows@[i2]@);
                assert(rows@.map_values(|row: Vec<Felt>| row@).take(nb_rows as int)[i2]
                    == rows@[i2]@);
            }
            assert forall|i2: int|
                self.spec_rows(*input).len() <= i2 < t.spec_height() implies t.spec_row(i2)
                    == self.spec_pad_row(i2) by {
                assert(t.spec_row(i2) == rows@[i2]@);
            }
        }
        t
    }

    fn generate_dependencies(&self, input: &ExecutionRecord, output: &mut ExecutionRecord) {
        let mut new_field_events: Vec<FieldEvent> = Vec::new();
        let mut i: usize = 0;
        proof {
            assert(input.sha_extend_events@.take(0) =~= Seq::<ShaExtendEvent>::empty());
        }
        while i < input.sha_extend_events.len()
            invariant
                i <= input.sha_extend_events@.len(),
                input.wf(),
                new_field_events@ == sha_derived_spec(input.sha_extend_events@.take(i as int)),
            decreases input.sha_extend_events@.len() - i,
        {
            let e = &input.sha_extend_events[i];
            sha_events_for_event(e, &mut new_field_events);
            proof {
                assert(input.sha_extend_events@.take(i as int + 1)
                    =~= input.sha_extend_events@.take(i as int).push(
                    input.sha_extend_events@[i as int],
                ));
                lemma_sha_derived_push(
                    input.sha_extend_events@.take(i as int),
                    input.sha_extend_events@[i as int],
                );
            }
            i = i + 1;
        }
        proof {
            assert(input.sha_extend_events@.take(input.sha_extend_events@.len() as int)
                =~= input.sha_extend_events@);
        }
        output.add_field_events(&new_field_events);
    }

    fn included(&self, shard: &ExecutionRecord) -> (r: bool) {
        proof {
            if shard.sha_extend_events@.len() != 0 {
                assert(sha_rows_spec(shard.sha_extend_events@).len() >= sha_event_rows(
                    shard.sha_extend_events@[0],
                ).len());
            }
        }
        shard.sha_extend_events.len() > 0
    }

    fn preprocessed_width(&self) -> (r: usize) {
        0
    }

    fn generate_preprocessed_trace(&self, _program: &Program) -> (r: Option<RowMajorMatrix<Felt>>) {
        None
    }

    fn preprocessed_trace(&self) -> (r: Option<RowMajorMatrix<Felt>>) {
        None
    }
}

} // verus!
