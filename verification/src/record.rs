//! Per-shard execution records: the typed event lists that trace generation
//! consumes, and the output side-channel of newly derived events that later
//! chips consume.

use vstd::prelude::*;

verus! {

/// Rounds of the SHA-256 message-schedule extension handled per event.
pub const SHA_EXTEND_ROUNDS: usize = 48;

/// Degree of the extension field carried through the FRI fold columns.
pub const DEGREE: usize = 4;

/// Number of input-slice cells one FRI fold event reads.
pub const NUM_INPUT_ELMS: usize = 8;

/// Number of output-slice cells one FRI fold event reads.
pub const NUM_OUTPUT_ELMS: usize = 2;

/// Index of the reduced-opening address within the output slice.
pub const RO_ADDR_IDX: usize = 0;

/// Index of the alpha-power address within the output slice.
pub const ALPHA_POW_ADDR_IDX: usize = 1;

/// A derived field event: a timestamp comparison that a later chip must
/// range-check.
#[derive(Clone, Copy, Debug, PartialEq, Eq, Structural)]
pub struct FieldEvent {
    pub is_lt: bool,
    pub a: u32,
    pub b: u32,
}

/// One memory access: the value seen and the access bookkeeping needed to
/// derive the comparison events.
#[derive(Clone, Copy, Debug, PartialEq, Eq, Structural)]
pub struct MemoryRecord {
    pub value: u32,
    pub shard: u32,
    pub timestamp: u32,
    pub prev_shard: u32,
    pub prev_timestamp: u32,
}

/// A memory access tagged by direction.
#[derive(Clone, Copy, Debug, PartialEq, Eq, Structural)]
pub enum MemoryRecordEnum {
    Read(MemoryRecord),
    Write(MemoryRecord),
}

impl MemoryRecordEnum {
    /// The record behind the tag.
    pub open spec fn spec_record(self) -> MemoryRecord {
        match self {
            MemoryRecordEnum::Read(r) => r,
            MemoryRecordEnum::Write(r) => r,
        }
    }
}

/// The comparison event an access derives: the previous timestamp against the
/// new one.
pub open spec fn spec_access_event(record: MemoryRecord) -> FieldEvent {
    FieldEvent {
        is_lt: record.prev_timestamp < record.timestamp,
        a: record.prev_timestamp,
        b: record.timestamp,
    }
}

/// One SHA-256 extend syscall: 48 rounds of reads of the four schedule words
/// and one write of the extended word.
#[derive(Clone, Debug)]
pub struct ShaExtendEvent {
    pub shard: u32,
    pub clk: u32,
    pub w_ptr: u32,
    pub w_i_minus_15_reads: Vec<MemoryRecord>,
    pub w_i_minus_2_reads: Vec<MemoryRecord>,
    pub w_i_minus_16_reads: Vec<MemoryRecord>,
    pub w_i_minus_7_reads: Vec<MemoryRecord>,
    pub w_i_writes: Vec<MemoryRecord>,
}

impl ShaExtendEvent {
    /// Every per-round list carries one record per round.
    pub open spec fn wf(self) -> bool {
        &&& self.w_i_minus_15_reads@.len() == SHA_EXTEND_ROUNDS
        &&& self.w_i_minus_2_reads@.len() == SHA_EXTEND_ROUNDS
        &&& self.w_i_minus_16_reads@.len() == SHA_EXTEND_ROUNDS
        &&& self.w_i_minus_7_reads@.len() == SHA_EXTEND_ROUNDS
        &&& self.w_i_writes@.len() == SHA_EXTEND_ROUNDS
    }
}

/// One FRI fold syscall: an extension-field division plus the slice and
/// accumulator accesses of its input and output halves.
#[derive(Clone, Debug)]
pub struct FriFoldEvent {
    pub shard: u32,
    pub clk: u32,
    pub input_slice_ptr: u32,
    pub output_slice_ptr: u32,
    pub num: Vec<u32>,
    pub denom: Vec<u32>,
    pub input_slice_read_records: Vec<MemoryRecord>,
    pub output_slice_read_records: Vec<MemoryRecord>,
    pub ro_read_records: Vec<MemoryRecord>,
    pub alpha_pow_read_records: Vec<MemoryRecord>,
    pub ro_write_records: Vec<MemoryRecord>,
    pub alpha_pow_write_records: Vec<MemoryRecord>,
}

impl FriFoldEvent {
    /// Every list carries exactly the cells its half of the syscall touches.
    pub open spec fn wf(self) -> bool {
        &&& self.num@.len() == DEGREE
        &&& self.denom@.len() == DEGREE
        &&& self.input_slice_read_records@.len() == NUM_INPUT_ELMS
        &&& self.output_slice_read_records@.len() == NUM_OUTPUT_ELMS
        &&& self.ro_read_records@.len() == DEGREE
        &&& self.alpha_pow_read_records@.len() == DEGREE
        &&& self.ro_write_records@.len() == DEGREE
        &&& self.alpha_pow_write_records@.len() == DEGREE
    }
}

/// The program a shard executes; preprocessed traces are derived from it.
#[derive(Clone, Debug)]
pub struct Program {
    pub instructions: Vec<u32>,
}

/// The per-shard event log: typed inputs to trace generation plus the
/// append-only channel of derived events.
#[derive(Clone, Debug)]
pub struct ExecutionRecord {
    pub sha_extend_events: Vec<ShaExtendEvent>,
    pub fri_fold_events: Vec<FriFoldEvent>,
    pub field_events: Vec<FieldEvent>,
}

impl ExecutionRecord {
    /// Every event in the record is well formed.
    pub open spec fn wf(self) -> bool {
        &&& forall|i: int|
            0 <= i < self.sha_extend_events@.len() ==> (#[trigger] self.sha_extend_events@[i]).wf()
        &&& forall|i: int|
            0 <= i < self.fri_fold_events@.len() ==> (#[trigger] self.fri_fold_events@[i]).wf()
    }

    /// An empty record.
    pub fn new() -> (r: ExecutionRecord)
        ensures
            r.sha_extend_events@.len() == 0,
            r.fri_fold_events@.len() == 0,
            r.field_events@.len() == 0,
            r.wf(),
    {
        ExecutionRecord {
            sha_extend_events: Vec::new(),
            fri_fold_events: Vec::new(),
            field_events: Vec::new(),
        }
    }

    /// Append derived field events to the output channel.
    pub fn add_field_events(&mut self, events: &Vec<FieldEvent>)
        ensures
            final(self).field_events@ == old(self).field_events@ + events@,
            final(self).sha_extend_events == old(self).sha_extend_events,
            final(self).fri_fold_events == old(self).fri_fold_events,
            old(self).wf() ==> final(self).wf(),
    {
        let mut i: usize = 0;
        while i < events.len()
            invariant
                i <= events.len(),
                self.field_events@ == old(self).field_events@ + events@.take(i as int),
                self.sha_extend_events == old(self).sha_extend_events,
                self.fri_fold_events == old(self).fri_fold_events,
            decreases events.len() - i,
        {
            self.field_events.push(events[i]);
            proof {
                assert(events@.take(i as int).push(events@[i as int]) =~= events@.take(
                    i as int + 1,
                ));
                assert(old(self).field_events@ + events@.take(i as int + 1) =~= (old(
                    self,
                ).field_events@ + events@.take(i as int)).push(events@[i as int]));
            }
            i = i + 1;
        }
        proof {
            assert(events@.take(events@.len() as int) =~= events@);
        }
    }
}

} // verus!
