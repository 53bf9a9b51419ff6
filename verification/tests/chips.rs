//! Trace generation of the two machine chips: row contents, power-of-two
//! padding, derived events, and parallel-versus-sequential agreement.

use sp1_core::chip::Chip;
use sp1_core::chip::MachineAir;
use sp1_core::field::Felt;
use sp1_core::field::FIELD_PRIME;
use sp1_core::record::ExecutionRecord;
use sp1_core::record::FriFoldEvent;
use sp1_core::record::MemoryRecord;
use sp1_core::record::ShaExtendEvent;
use sp1_core::fri_fold::FriFoldChip;
use sp1_core::sha_extend::ShaExtendChip;

fn rec(value: u32, prev_ts: u32, ts: u32) -> MemoryRecord {
    MemoryRecord { value, shard: 1, timestamp: ts, prev_shard: 1, prev_timestamp: prev_ts }
}

fn sha_event(seed: u32) -> ShaExtendEvent {
    ShaExtendEvent {
        shard: 1,
        clk: 100 + seed,
        w_ptr: 4096,
        w_i_minus_15_reads: vec![rec(0x12345678 + seed, 1, 2); 48],
        w_i_minus_2_reads: vec![rec(0x9abcdef0, 2, 3); 48],
        w_i_minus_16_reads: vec![rec(7, 3, 4); 48],
        w_i_minus_7_reads: vec![rec(9, 4, 5); 48],
        w_i_writes: vec![rec(42, 5, 6); 48],
    }
}

fn fri_event(seed: u32) -> FriFoldEvent {
    FriFoldEvent {
        shard: 1,
        clk: 200 + seed,
        input_slice_ptr: 1000,
        output_slice_ptr: 2000,
        num: vec![6, 0, 0, 0],
        denom: vec![2, 0, 0, 0],
        input_slice_read_records: vec![rec(11 + seed, 1, 2); 8],
        output_slice_read_records: vec![rec(3000, 2, 3), rec(4000, 3, 4)],
        ro_read_records: vec![rec(21, 4, 5); 4],
        alpha_pow_read_records: vec![rec(22, 5, 6); 4],
        ro_write_records: vec![rec(23, 6, 7); 4],
        alpha_pow_write_records: vec![rec(24, 7, 8); 4],
    }
}

#[test]
fn sha_trace_height_is_a_power_of_two_at_least_four() {
    let chip = ShaExtendChip::new();
    let mut input = ExecutionRecord::new();
    input.sha_extend_events.push(sha_event(0));
    let mut output = ExecutionRecord::new();
    let t = chip.generate_trace(&input, &mut output);
    // 48 real rows pad to the next power of two.
    assert_eq!(t.height(), 64);
    assert_eq!(t.width, 13);
}

#[test]
fn sha_trace_cells_compute_the_schedule() {
    let chip = ShaExtendChip::new();
    let mut input = ExecutionRecord::new();
    input.sha_extend_events.push(sha_event(0));
    let mut output = ExecutionRecord::new();
    let t = chip.generate_trace(&input, &mut output);
    let row = t.row(0);
    let w15: u32 = 0x12345678;
    let w2: u32 = 0x9abcdef0;
    let s0 = w15.rotate_right(7) ^ w15.rotate_right(18) ^ (w15 >> 3);
    let s1 = w2.rotate_right(17) ^ w2.rotate_right(19) ^ (w2 >> 10);
    let w_i = 7u32.wrapping_add(s0).wrapping_add(9).wrapping_add(s1);
    assert_eq!(row[0].value, 1); // shard
    assert_eq!(row[1].value, 100); // clk
    assert_eq!(row[2].value, 4096); // w_ptr
    assert_eq!(row[3].value, 0); // cycle
    assert_eq!(row[4].value, (w15 as u64) % FIELD_PRIME);
    assert_eq!(row[5].value, (w2 as u64) % FIELD_PRIME);
    assert_eq!(row[8].value, (s0 as u64) % FIELD_PRIME);
    assert_eq!(row[9].value, (s1 as u64) % FIELD_PRIME);
    assert_eq!(row[10].value, (w_i as u64) % FIELD_PRIME);
    assert_eq!(row[11].value, 42); // the written word
    assert_eq!(row[12].value, 1); // is_real
    // Padding rows force the real flag (the multiplicity) to zero.
    let pad = t.row(63);
    assert_eq!(pad[12].value, 0);
    assert_eq!(pad[3].value, (63 % 48) as u64);
}

#[test]
fn sha_trace_emits_five_events_per_round() {
    let chip = ShaExtendChip::new();
    let mut input = ExecutionRecord::new();
    input.sha_extend_events.push(sha_event(0));
    let mut output = ExecutionRecord::new();
    let _ = chip.generate_trace(&input, &mut output);
    assert_eq!(output.field_events.len(), 48 * 5);
    // The first derived event compares the first read's timestamps.
    assert_eq!(output.field_events[0].a, 1);
    assert_eq!(output.field_events[0].b, 2);
    assert!(output.field_events[0].is_lt);
}

#[test]
fn sha_dependencies_match_trace_generation() {
    let chip = ShaExtendChip::new();
    let mut input = ExecutionRecord::new();
    input.sha_extend_events.push(sha_event(3));
    input.sha_extend_events.push(sha_event(4));
    let mut out_trace = ExecutionRecord::new();
    let _ = chip.generate_trace(&input, &mut out_trace);
    let mut out_deps = ExecutionRecord::new();
    chip.generate_dependencies(&input, &mut out_deps);
    assert_eq!(out_trace.field_events, out_deps.field_events);
}

#[test]
fn fri_trace_height_is_a_power_of_two_at_least_four() {
    let chip = FriFoldChip::new();
    let mut input = ExecutionRecord::new();
    input.fri_fold_events.push(fri_event(0));
    let mut output = ExecutionRecord::new();
    let t = chip.generate_trace(&input, &mut output);
    // 2 real rows pad to the minimum of four.
    assert_eq!(t.height(), 4);
    assert_eq!(t.width, 30);

    let mut input3 = ExecutionRecord::new();
    for s in 0..3 {
        input3.fri_fold_events.push(fri_event(s));
    }
    let mut output3 = ExecutionRecord::new();
    let t3 = chip.generate_trace(&input3, &mut output3);
    // 6 real rows pad to eight.
    assert_eq!(t3.height(), 8);
}

#[test]
fn fri_trace_records_the_extension_division() {
    let chip = FriFoldChip::new();
    let mut input = ExecutionRecord::new();
    input.fri_fold_events.push(fri_event(0));
    let mut output = ExecutionRecord::new();
    let t = chip.generate_trace(&input, &mut output);
    let input_row = t.row(0);
    // (6, 0, 0, 0) / (2, 0, 0, 0) = (3, 0, 0, 0).
    assert_eq!(input_row[8].value, 3);
    assert_eq!(input_row[9].value, 0);
    assert_eq!(input_row[10].value, 0);
    assert_eq!(input_row[11].value, 0);
    // Flags and accumulator addresses.
    assert_eq!(input_row[0].value, 1); // is_real
    assert_eq!(input_row[1].value, 1); // is_input
    assert_eq!(input_row[6].value, 3000); // reduced-opening address
    assert_eq!(input_row[7].value, 4000); // alpha-power address
    let output_row = t.row(1);
    assert_eq!(output_row[0].value, 1); // is_real
    assert_eq!(output_row[1].value, 0); // is_input
    assert_eq!(output_row[3].value, 204); // clk + 4
    // The output half records the written accumulator values.
    assert_eq!(output_row[22].value, 23);
    assert_eq!(output_row[26].value, 24);
    // 8 + 2 slice reads, 8 interleaved reads, 8 interleaved writes.
    assert_eq!(output.field_events.len(), 26);
}

#[test]
fn fri_chunked_generation_matches_sequential() {
    // Handing the events to two workers and concatenating their buffers gives
    // the same rows as the one-pass generator.
    let chip = FriFoldChip::new();
    let mut full = ExecutionRecord::new();
    full.fri_fold_events.push(fri_event(0));
    full.fri_fold_events.push(fri_event(1));
    let mut chunk1 = ExecutionRecord::new();
    chunk1.fri_fold_events.push(fri_event(0));
    let mut chunk2 = ExecutionRecord::new();
    chunk2.fri_fold_events.push(fri_event(1));

    let mut o = ExecutionRecord::new();
    let t_full = chip.generate_trace(&full, &mut o);
    let mut o1 = ExecutionRecord::new();
    let t1 = chip.generate_trace(&chunk1, &mut o1);
    let mut o2 = ExecutionRecord::new();
    let t2 = chip.generate_trace(&chunk2, &mut o2);

    // The four real rows of the sequential pass are the two chunks' real rows
    // in chunk order.
    assert_eq!(t_full.row(0), t1.row(0));
    assert_eq!(t_full.row(1), t1.row(1));
    assert_eq!(t_full.row(2), t2.row(0));
    assert_eq!(t_full.row(3), t2.row(1));
    // The derived event streams concatenate the same way.
    let mut concat = o1.field_events.clone();
    concat.extend(o2.field_events.clone());
    assert_eq!(o.field_events, concat);
}

#[test]
fn included_reflects_the_shard_events() {
    let sha = ShaExtendChip::new();
    let fri = FriFoldChip::new();
    let empty = ExecutionRecord::new();
    assert!(!sha.included(&empty));
    assert!(!fri.included(&empty));
    let mut shard = ExecutionRecord::new();
    shard.sha_extend_events.push(sha_event(0));
    assert!(sha.included(&shard));
    assert!(!fri.included(&shard));
}

#[test]
fn chip_names_and_preprocessed_traces() {
    let sha = Chip::new(ShaExtendChip::new());
    let fri = Chip::new(FriFoldChip::new());
    assert_eq!(sha.name(), "ShaExtend");
    assert_eq!(fri.name(), "FriFold");
    let program = sp1_core::record::Program { instructions: vec![] };
    assert!(sha.generate_preprocessed_trace(&program).is_none());
    assert!(fri.generate_preprocessed_trace(&program).is_none());
    assert_eq!(sha.preprocessed_width(), 0);
    // The frozen interaction lists carry the declarations of the AIRs.
    assert_eq!(sha.sends().len(), 1);
    assert_eq!(fri.sends().len(), 1);
}
