use cairo_trace::field::{felt_lt, from_u64, Felt};
use cairo_trace::layout::{
    Auxiliary, Flag, Mem, Npc, Permutation, RangeCheck, CYCLE_HEIGHT, MEMORY_STEP,
    NUM_BASE_COLUMNS, NUM_EXTENSION_COLUMNS, PUBLIC_MEMORY_STEP, RANGE_CHECK_STEP,
};

#[test]
fn protocol_constants() {
    assert_eq!(CYCLE_HEIGHT, 16);
    assert_eq!(MEMORY_STEP, 2);
    assert_eq!(PUBLIC_MEMORY_STEP, 8);
    assert_eq!(RANGE_CHECK_STEP, 4);
    assert_eq!(NUM_BASE_COLUMNS, 9);
    assert_eq!(NUM_EXTENSION_COLUMNS, 1);
}

#[test]
fn flag_offsets_follow_bit_positions() {
    let flags = [
        Flag::DstReg,
        Flag::Op0Reg,
        Flag::Op1Imm,
        Flag::Op1Fp,
        Flag::Op1Ap,
        Flag::ResAdd,
        Flag::ResMul,
        Flag::PcJumpAbs,
        Flag::PcJumpRel,
        Flag::PcJnz,
        Flag::ApAdd,
        Flag::ApAdd1,
        Flag::OpcodeCall,
        Flag::OpcodeRet,
        Flag::OpcodeAssertEq,
        Flag::Zero,
    ];
    for (k, f) in flags.iter().enumerate() {
        assert_eq!(f.index(), 0);
        assert_eq!(f.offset(), k);
        assert_eq!(f.step(), 16);
    }
}

#[test]
fn npc_layout() {
    assert_eq!(Npc::Pc.index(), 5);
    assert_eq!(Npc::Pc.offset(), 0);
    assert_eq!(Npc::Instruction.offset(), 1);
    assert_eq!(Npc::PubMemAddr.offset(), 2);
    assert_eq!(Npc::PubMemVal.offset(), 3);
    assert_eq!(Npc::MemOp0Addr.offset(), 4);
    assert_eq!(Npc::MemOp0.offset(), 5);
    assert_eq!(Npc::MemDstAddr.offset(), 8);
    assert_eq!(Npc::MemDst.offset(), 9);
    assert_eq!(Npc::MemOp1Addr.offset(), 12);
    assert_eq!(Npc::MemOp1.offset(), 13);
    assert_eq!(Npc::PubMemAddr.step(), 8);
    assert_eq!(Npc::PubMemVal.step(), 8);
    assert_eq!(Npc::Pc.step(), 16);
    assert_eq!(Npc::MemOp1.step(), 16);
}

#[test]
fn memory_and_permutation_layout() {
    assert_eq!(Mem::Address.index(), 6);
    assert_eq!(Mem::Address.offset(), 0);
    assert_eq!(Mem::Value.offset(), 1);
    assert_eq!(Mem::Value.step(), 2);
    assert_eq!(Permutation::Memory.index(), 9);
    assert_eq!(Permutation::Memory.offset(), 0);
    assert_eq!(Permutation::Memory.step(), 2);
    assert_eq!(Permutation::RangeCheck.offset(), 1);
    assert_eq!(Permutation::RangeCheck.step(), 4);
}

#[test]
fn range_check_and_auxiliary_layout() {
    assert_eq!(RangeCheck::OffDst.index(), 7);
    assert_eq!(RangeCheck::OffDst.offset(), 0);
    assert_eq!(RangeCheck::Ap.offset(), 3);
    assert_eq!(RangeCheck::OffOp1.offset(), 4);
    assert_eq!(RangeCheck::Op0MulOp1.offset(), 7);
    assert_eq!(RangeCheck::OffOp0.offset(), 8);
    assert_eq!(RangeCheck::Fp.offset(), 11);
    assert_eq!(RangeCheck::Res.offset(), 15);
    assert_eq!(RangeCheck::Res.step(), 16);
    assert_eq!(Auxiliary::Tmp0.index(), 8);
    assert_eq!(Auxiliary::Tmp0.offset(), 0);
    assert_eq!(Auxiliary::Tmp1.offset(), 8);
    assert_eq!(Auxiliary::Tmp1.step(), 16);
}

#[test]
fn field_elements_compare_by_value() {
    assert_eq!(from_u64(5), Felt { l0: 5, l1: 0, l2: 0, l3: 0 });
    assert!(felt_lt(&from_u64(4), &from_u64(5)));
    assert!(!felt_lt(&from_u64(5), &from_u64(5)));
    assert!(!felt_lt(&from_u64(6), &from_u64(5)));
    let low = Felt { l0: u64::MAX, l1: 0, l2: 0, l3: 0 };
    let high = Felt { l0: 0, l1: 1, l2: 0, l3: 0 };
    assert!(felt_lt(&low, &high));
}
