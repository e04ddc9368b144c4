use cairo_trace::errors::TraceError;
use cairo_trace::field::{from_u64, Felt};
use cairo_trace::memory::get_ordered_memory_accesses;
use cairo_trace::trace::{
    next_power_of_two, public_memory_padding_address, DecodedStep, ExecutionTrace, RegisterState,
};

fn mk_step(
    instruction: u64,
    offs: (u64, u64, u64),
    addrs: (u64, u64, u64),
    vals: (u64, u64, u64),
) -> DecodedStep {
    DecodedStep {
        instruction: from_u64(instruction),
        off_dst: offs.0,
        off_op0: offs.1,
        off_op1: offs.2,
        dst_addr: addrs.0,
        op0_addr: addrs.1,
        op1_addr: addrs.2,
        dst: from_u64(vals.0),
        op0: from_u64(vals.1),
        op1: from_u64(vals.2),
        res: from_u64(vals.0),
        tmp0: from_u64(11),
        tmp1: from_u64(13),
        flag_prefixes: [0u64; 16],
    }
}

#[test]
fn single_step_trace_has_one_padded_cycle() {
    // one instruction at address 1, operands at addresses 2, 3, 4
    let regs = vec![RegisterState { pc: 1, ap: 10, fp: 20 }];
    let steps = vec![mk_step(77, (32768, 32768, 32768), (2, 3, 4), (7, 5, 6))];
    let pm: Vec<(u64, Felt)> = Vec::new();
    let t = ExecutionTrace::new(&regs, &steps, &pm).unwrap();

    let cols = t.base_columns();
    assert_eq!(cols.len(), 9);
    for c in cols.iter() {
        // next_power_of_two(1) = 1 cycle of 16 rows
        assert_eq!(c.len(), 16);
    }
    // the sixteenth flag slot is the zero sentinel on every row
    assert_eq!(cols[0][15], from_u64(0));
    for v in cols[1].iter() {
        assert_eq!(*v, from_u64(0));
    }
    assert_eq!(t.public_memory_padding_address, 5);
    assert_eq!(t.public_memory_padding_value, from_u64(5));
    assert_eq!(t.initial_registers, RegisterState { pc: 1, ap: 10, fp: 20 });
    assert_eq!(t.final_registers, RegisterState { pc: 1, ap: 10, fp: 20 });
}

#[test]
fn single_step_trace_column_layout() {
    let regs = vec![RegisterState { pc: 1, ap: 10, fp: 20 }];
    let steps = vec![mk_step(77, (32768, 32768, 32768), (2, 3, 4), (7, 5, 6))];
    let pm: Vec<(u64, Felt)> = Vec::new();
    let t = ExecutionTrace::new(&regs, &steps, &pm).unwrap();
    let cols = t.base_columns();

    // control-flow cycle: pc, word, two zeroed public-memory slots, the
    // operand pairs, and the padding access in the unused rows
    let npc = &cols[5];
    assert_eq!(npc[0], from_u64(1));
    assert_eq!(npc[1], from_u64(77));
    assert_eq!(npc[2], from_u64(0));
    assert_eq!(npc[3], from_u64(0));
    assert_eq!(npc[4], from_u64(3));
    assert_eq!(npc[5], from_u64(5));
    assert_eq!(npc[6], from_u64(5));
    assert_eq!(npc[7], from_u64(5));
    assert_eq!(npc[8], from_u64(2));
    assert_eq!(npc[9], from_u64(7));
    assert_eq!(npc[10], from_u64(0));
    assert_eq!(npc[11], from_u64(0));
    assert_eq!(npc[12], from_u64(4));
    assert_eq!(npc[13], from_u64(6));
    assert_eq!(npc[14], from_u64(5));
    assert_eq!(npc[15], from_u64(5));

    // range-check cycle: offsets, pointers, operand product, result
    let rc = &cols[7];
    assert_eq!(rc[0], from_u64(32768));
    assert_eq!(rc[3], from_u64(10));
    assert_eq!(rc[4], from_u64(32768));
    assert_eq!(rc[7], from_u64(30)); // op0 * op1 = 5 * 6
    assert_eq!(rc[8], from_u64(32768));
    assert_eq!(rc[11], from_u64(20));
    assert_eq!(rc[15], from_u64(7));

    // auxiliary cycle: the two temporaries
    let aux = &cols[8];
    assert_eq!(aux[0], from_u64(11));
    assert_eq!(aux[8], from_u64(13));

    // sorted, stripped memory column: (1,77) (2,7) (3,5) (4,6) then the
    // padding access (5,5), the tail repeating its value
    let mem = &cols[6];
    assert_eq!(mem[0], from_u64(1));
    assert_eq!(mem[1], from_u64(77));
    assert_eq!(mem[2], from_u64(2));
    assert_eq!(mem[3], from_u64(7));
    assert_eq!(mem[4], from_u64(3));
    assert_eq!(mem[5], from_u64(5));
    assert_eq!(mem[6], from_u64(4));
    assert_eq!(mem[7], from_u64(6));
    assert_eq!(mem[8], from_u64(5));
    assert_eq!(mem[9], from_u64(5));
    assert_eq!(mem[10], from_u64(5));
    assert_eq!(mem[11], from_u64(5));
    for i in 12..16 {
        assert_eq!(mem[i], from_u64(5));
    }
}

#[test]
fn tight_loop_has_equal_range_check_bounds() {
    // two steps with identical registers and one repeated offset value
    let reg = RegisterState { pc: 1, ap: 10, fp: 20 };
    let step = mk_step(77, (32768, 32768, 32768), (2, 3, 4), (7, 5, 6));
    let regs = vec![reg, reg];
    let steps = vec![step, step];
    let pm: Vec<(u64, Felt)> = Vec::new();
    let t = ExecutionTrace::new(&regs, &steps, &pm).unwrap();

    assert_eq!(t.range_check_min, 32768);
    assert_eq!(t.range_check_max, 32768);
    assert_eq!(t.range_check_min, t.range_check_max);
    for c in t.base_columns().iter() {
        assert_eq!(c.len(), 32);
    }
}

#[test]
fn range_check_bounds_are_tight() {
    let reg = RegisterState { pc: 1, ap: 10, fp: 20 };
    let s1 = mk_step(77, (100, 200, 300), (2, 3, 4), (7, 5, 6));
    let s2 = mk_step(77, (250, 50, 150), (2, 3, 4), (7, 5, 6));
    let regs = vec![reg, reg];
    let steps = vec![s1, s2];
    let pm: Vec<(u64, Felt)> = Vec::new();
    let t = ExecutionTrace::new(&regs, &steps, &pm).unwrap();
    assert_eq!(t.range_check_min, 50);
    assert_eq!(t.range_check_max, 300);
}

#[test]
fn untouched_public_memory_enters_the_memory_column() {
    // the executed steps touch addresses 1..4 and 6; the declared public
    // memory entry (5, 42) fills the gap and must appear in the column
    let reg = RegisterState { pc: 1, ap: 10, fp: 20 };
    let s1 = mk_step(77, (32768, 32768, 32768), (2, 3, 4), (7, 5, 6));
    let s2 = mk_step(77, (32768, 32768, 32768), (6, 6, 6), (9, 9, 9));
    let regs = vec![reg, reg];
    let steps = vec![s1, s2];
    let pm: Vec<(u64, Felt)> = vec![(5, from_u64(42))];
    let t = ExecutionTrace::new(&regs, &steps, &pm).unwrap();

    assert_eq!(t.public_memory, vec![(5, from_u64(42))]);
    assert_eq!(t.public_memory_padding_address, 7);
    let mem = &t.base_columns()[6];
    assert_eq!(mem.len(), 32);
    // stripped sorted pairs: (1,77) (1,77) (2,7) (3,5) (4,6) (5,42)
    // (6,9) x3 then the padding pairs (7,7)
    assert_eq!(mem[10], from_u64(5));
    assert_eq!(mem[11], from_u64(42));
    assert_eq!(mem[12], from_u64(6));
    assert_eq!(mem[13], from_u64(9));
    assert_eq!(mem[31], from_u64(7));
}

#[test]
fn padding_cycles_duplicate_the_last_real_cycle() {
    // three steps pad to four cycles; the padding cycle repeats the third
    let reg = RegisterState { pc: 1, ap: 10, fp: 20 };
    let s1 = mk_step(77, (32768, 32768, 32768), (2, 3, 4), (7, 5, 6));
    let s2 = mk_step(77, (32768, 32768, 32768), (5, 5, 5), (8, 8, 8));
    let s3 = mk_step(77, (32768, 32768, 32768), (6, 6, 6), (9, 9, 9));
    let regs = vec![reg, reg, reg];
    let steps = vec![s1, s2, s3];
    let pm: Vec<(u64, Felt)> = Vec::new();
    let t = ExecutionTrace::new(&regs, &steps, &pm).unwrap();

    let cols = t.base_columns();
    assert_eq!(next_power_of_two(3), 4);
    assert_eq!(cols[0].len(), 64);
    for &c in [0usize, 5, 7, 8].iter() {
        for k in 0..16 {
            // cycle 3 (padding) equals cycle 2 (last real)
            assert_eq!(cols[c][48 + k], cols[c][32 + k]);
        }
    }
}

#[test]
fn padding_address_is_one_above_highest_access() {
    let regs = vec![RegisterState { pc: 9, ap: 0, fp: 0 }];
    let steps = vec![mk_step(1, (0, 0, 0), (3, 4, 12), (0, 0, 0))];
    assert_eq!(public_memory_padding_address(&regs, &steps), 13);
}

#[test]
fn non_zero_dummy_access_is_rejected() {
    // a control-flow column with no zero pairs cannot supply the dummies
    let npc: Vec<Felt> = (0..16).map(|_| from_u64(5)).collect();
    let pm: Vec<(u64, Felt)> = Vec::new();
    match get_ordered_memory_accesses(16, &npc, &pm) {
        Err(TraceError::NonZeroDummyAccess { index, address, value }) => {
            assert_eq!(index, 0);
            assert_eq!(address, from_u64(5));
            assert_eq!(value, from_u64(5));
        }
        other => panic!("expected a dummy-access error, got {:?}", other.is_ok()),
    }
}

fn pairs_to_column(pairs: &[(u64, u64)]) -> Vec<Felt> {
    let mut col = Vec::new();
    for &(a, v) in pairs {
        col.push(from_u64(a));
        col.push(from_u64(v));
    }
    col
}

#[test]
fn first_address_must_be_one() {
    let npc = pairs_to_column(&[
        (0, 0),
        (0, 0),
        (2, 9),
        (2, 9),
        (2, 9),
        (2, 9),
        (3, 3),
        (3, 3),
    ]);
    let pm: Vec<(u64, Felt)> = Vec::new();
    match get_ordered_memory_accesses(16, &npc, &pm) {
        Err(TraceError::FirstAddressNotOne { address }) => {
            assert_eq!(address, from_u64(2));
        }
        _ => panic!("expected a first-address error"),
    }
}

#[test]
fn memory_gaps_are_rejected() {
    // address 2 is never accessed: the sorted accesses jump from 1 to 3
    let npc = pairs_to_column(&[
        (0, 0),
        (0, 0),
        (1, 9),
        (1, 9),
        (1, 9),
        (1, 9),
        (3, 3),
        (3, 3),
    ]);
    let pm: Vec<(u64, Felt)> = Vec::new();
    match get_ordered_memory_accesses(16, &npc, &pm) {
        Err(TraceError::DiscontinuousMemory { index, address, next_address, .. }) => {
            assert_eq!(index, 3);
            assert_eq!(address, from_u64(1));
            assert_eq!(next_address, from_u64(3));
        }
        _ => panic!("expected a discontinuity error"),
    }
}

#[test]
fn multi_valued_cells_are_rejected() {
    // address 1 is read with two different values
    let npc = pairs_to_column(&[
        (0, 0),
        (0, 0),
        (1, 8),
        (1, 9),
        (2, 5),
        (2, 5),
        (3, 3),
        (3, 3),
    ]);
    let pm: Vec<(u64, Felt)> = Vec::new();
    match get_ordered_memory_accesses(16, &npc, &pm) {
        Err(TraceError::DiscontinuousMemory { index, value, next_value, .. }) => {
            assert_eq!(index, 0);
            assert_eq!(value, from_u64(8));
            assert_eq!(next_value, from_u64(9));
        }
        _ => panic!("expected a single-valuedness error"),
    }
}

#[test]
fn padding_access_must_match_address_and_value() {
    let npc = pairs_to_column(&[
        (0, 0),
        (0, 0),
        (1, 1),
        (1, 1),
        (2, 2),
        (2, 2),
        (3, 3),
        (4, 5),
    ]);
    let pm: Vec<(u64, Felt)> = Vec::new();
    match get_ordered_memory_accesses(16, &npc, &pm) {
        Err(TraceError::PaddingAccessMismatch { address, value }) => {
            assert_eq!(address, from_u64(4));
            assert_eq!(value, from_u64(5));
        }
        _ => panic!("expected a padding-access error"),
    }
}

#[test]
fn ordered_memory_column_is_flattened_and_padded() {
    let npc = pairs_to_column(&[
        (0, 0),
        (0, 0),
        (1, 1),
        (1, 1),
        (2, 2),
        (2, 2),
        (3, 3),
        (3, 3),
    ]);
    let pm: Vec<(u64, Felt)> = Vec::new();
    let col = get_ordered_memory_accesses(16, &npc, &pm).unwrap();
    assert_eq!(col.len(), 16);
    let expect = [1u64, 1, 1, 1, 2, 2, 2, 2, 3, 3, 3, 3, 3, 3, 3, 3];
    for (i, &e) in expect.iter().enumerate() {
        assert_eq!(col[i], from_u64(e));
    }
}
