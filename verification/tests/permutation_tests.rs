use cairo_trace::errors::TraceError;
use cairo_trace::field::{from_u64, Felt};
use cairo_trace::permutation::compute_permutation_column;
use cairo_trace::trace::{DecodedStep, ExecutionTrace, RegisterState};

fn pairs_to_column(pairs: &[(u64, u64)]) -> Vec<Felt> {
    let mut col = Vec::new();
    for &(a, v) in pairs {
        col.push(from_u64(a));
        col.push(from_u64(v));
    }
    col
}

#[test]
fn permuted_accesses_telescope_to_one() {
    // the address order is a reordering of the program order, so the
    // running product must end at exactly 1
    let program_order = pairs_to_column(&[(1, 10), (2, 20), (3, 30), (4, 40)]);
    let address_order = pairs_to_column(&[(3, 30), (1, 10), (4, 40), (2, 20)]);
    let z = from_u64(123456789);
    let alpha = from_u64(987654321);
    let col = compute_permutation_column(&program_order, &address_order, &z, &alpha).unwrap();
    assert_eq!(col.len(), 8);
    assert_eq!(col[6], from_u64(1));
    // values between the aligned rows stay zero
    assert_eq!(col[1], from_u64(0));
    assert_eq!(col[3], from_u64(0));
    assert_eq!(col[5], from_u64(0));
    assert_eq!(col[7], from_u64(0));
}

#[test]
fn more_permutations_telescope_to_one() {
    let program_order = pairs_to_column(&[(1, 1), (5, 2), (5, 2), (9, 77), (2, 3), (1, 1)]);
    let address_order = pairs_to_column(&[(9, 77), (1, 1), (5, 2), (1, 1), (2, 3), (5, 2)]);
    let z = from_u64(5550123);
    let alpha = from_u64(31337);
    let col = compute_permutation_column(&program_order, &address_order, &z, &alpha).unwrap();
    assert_eq!(col[10], from_u64(1));
}

#[test]
fn mutated_access_breaks_the_product() {
    // one value differs between the orderings: the multisets are unequal,
    // so the final product must not be 1
    let program_order = pairs_to_column(&[(1, 10), (2, 20), (3, 30), (4, 40)]);
    let address_order = pairs_to_column(&[(3, 30), (1, 10), (4, 40), (2, 21)]);
    let z = from_u64(123456789);
    let alpha = from_u64(987654321);
    let col = compute_permutation_column(&program_order, &address_order, &z, &alpha).unwrap();
    assert_ne!(col[6], from_u64(1));
}

#[test]
fn identical_orderings_keep_the_product_at_one() {
    let program_order = pairs_to_column(&[(1, 10), (2, 20)]);
    let address_order = pairs_to_column(&[(1, 10), (2, 20)]);
    let z = from_u64(424242);
    let alpha = from_u64(171717);
    let col = compute_permutation_column(&program_order, &address_order, &z, &alpha).unwrap();
    // every prefix of the product is 1 when the orderings agree pairwise
    assert_eq!(col[0], from_u64(1));
    assert_eq!(col[2], from_u64(1));
}

#[test]
fn colliding_challenges_are_reported() {
    // with alpha = 0 and z = 7, the pair (7, 9) hashes to zero
    let program_order = pairs_to_column(&[(7, 9)]);
    let address_order = pairs_to_column(&[(7, 9)]);
    let z = from_u64(7);
    let alpha = from_u64(0);
    match compute_permutation_column(&program_order, &address_order, &z, &alpha) {
        Err(TraceError::ChallengeCollision { index }) => assert_eq!(index, 0),
        _ => panic!("expected a challenge collision"),
    }
}

fn mk_step(
    instruction: u64,
    addrs: (u64, u64, u64),
    vals: (u64, u64, u64),
) -> DecodedStep {
    DecodedStep {
        instruction: from_u64(instruction),
        off_dst: 32768,
        off_op0: 32768,
        off_op1: 32768,
        dst_addr: addrs.0,
        op0_addr: addrs.1,
        op1_addr: addrs.2,
        dst: from_u64(vals.0),
        op0: from_u64(vals.1),
        op1: from_u64(vals.2),
        res: from_u64(vals.0),
        tmp0: from_u64(11),
        tmp1: from_u64(13),
        flag_prefixes: [0u64; 16],
    }
}

#[test]
fn extension_column_of_a_built_trace() {
    let regs = vec![RegisterState { pc: 1, ap: 10, fp: 20 }];
    let steps = vec![mk_step(77, (2, 3, 4), (7, 5, 6))];
    let pm: Vec<(u64, Felt)> = Vec::new();
    let t = ExecutionTrace::new(&regs, &steps, &pm).unwrap();
    let ext = t.build_extension_columns(&from_u64(123456789), &from_u64(987654321)).unwrap();
    assert_eq!(ext.len(), 1);
    assert_eq!(ext[0].len(), 16);
    for i in 0..8 {
        assert_eq!(ext[0][2 * i + 1], from_u64(0));
    }
}
