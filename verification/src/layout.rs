//! The fixed column layout of the trace. Each semantic field of a cycle is a
//! variant of one of the small enumerations below, and carries three numbers:
//! the index of the base (or extension) column it lives in, its integer
//! offset inside one repetition, and its step, the number of trace rows
//! between successive occurrences. The constraint system addresses trace
//! cells by exactly these numbers, so they are part of the protocol.

use vstd::prelude::*;

verus! {

/// Number of trace rows occupied by one VM cycle.
pub const CYCLE_HEIGHT: usize = 16;

/// Stride between one `(address, value)` memory pair and the next.
pub const MEMORY_STEP: usize = 2;

/// Stride of the public-memory slots inside the control-flow column: one
/// slot every `PUBLIC_MEMORY_STEP` rows, so two per cycle.
pub const PUBLIC_MEMORY_STEP: usize = 8;

/// Stride of the range-check permutation values.
pub const RANGE_CHECK_STEP: usize = 4;

/// Number of base columns of the trace.
pub const NUM_BASE_COLUMNS: usize = 9;

/// Number of extension columns of the trace.
pub const NUM_EXTENSION_COLUMNS: usize = 1;

/// The sixteen flag slots of a cycle, one bit position of the instruction
/// word each. The stored value is the bit-prefix sum of the word's flags
/// from that position up, so the constraint system recovers the single bit
/// at position `i` as `prefix[i] - 2 * prefix[i + 1]`; the sixteenth slot is
/// the zero sentinel that makes the prefix of a well-formed word end at 0.
#[derive(Clone, Copy, PartialEq, Eq, Structural, Debug)]
pub enum Flag {
    DstReg,
    Op0Reg,
    Op1Imm,
    Op1Fp,
    Op1Ap,
    ResAdd,
    ResMul,
    PcJumpAbs,
    PcJumpRel,
    PcJnz,
    ApAdd,
    ApAdd1,
    OpcodeCall,
    OpcodeRet,
    OpcodeAssertEq,
    Zero,
}

impl Flag {
    /// The bit position of the flag, which is also its row inside a cycle.
    pub open spec fn offset_spec(self) -> int {
        match self {
            Flag::DstReg => 0,
            Flag::Op0Reg => 1,
            Flag::Op1Imm => 2,
            Flag::Op1Fp => 3,
            Flag::Op1Ap => 4,
            Flag::ResAdd => 5,
            Flag::ResMul => 6,
            Flag::PcJumpAbs => 7,
            Flag::PcJumpRel => 8,
            Flag::PcJnz => 9,
            Flag::ApAdd => 10,
            Flag::ApAdd1 => 11,
            Flag::OpcodeCall => 12,
            Flag::OpcodeRet => 13,
            Flag::OpcodeAssertEq => 14,
            Flag::Zero => 15,
        }
    }

    /// The base column the flags live in.
    pub fn index(&self) -> (r: usize)
        ensures
            r == 0,
    {
        0
    }

    /// The row of this flag inside its cycle.
    pub fn offset(&self) -> (r: usize)
        ensures
            r == self.offset_spec(),
    {
        match self {
            Flag::DstReg => 0,
            Flag::Op0Reg => 1,
            Flag::Op1Imm => 2,
            Flag::Op1Fp => 3,
            Flag::Op1Ap => 4,
            Flag::ResAdd => 5,
            Flag::ResMul => 6,
            Flag::PcJumpAbs => 7,
            Flag::PcJumpRel => 8,
            Flag::PcJnz => 9,
            Flag::ApAdd => 10,
            Flag::ApAdd1 => 11,
            Flag::OpcodeCall => 12,
            Flag::OpcodeRet => 13,
            Flag::OpcodeAssertEq => 14,
            Flag::Zero => 15,
        }
    }

    /// Rows between two occurrences of the same flag: one cycle.
    pub fn step(&self) -> (r: usize)
        ensures
            r == CYCLE_HEIGHT,
    {
        CYCLE_HEIGHT
    }
}

/// The control-flow ("next program counter") fields of a cycle.
#[derive(Clone, Copy, PartialEq, Eq, Structural, Debug)]
pub enum Npc {
    Pc,
    Instruction,
    PubMemAddr,
    PubMemVal,
    MemOp0Addr,
    MemOp0,
    MemDstAddr,
    MemDst,
    MemOp1Addr,
    MemOp1,
}

impl Npc {
    /// The row of this field inside one repetition of its step.
    pub open spec fn offset_spec(self) -> int {
        match self {
            Npc::Pc => 0,
            Npc::Instruction => 1,
            Npc::PubMemAddr => 2,
            Npc::PubMemVal => 3,
            Npc::MemOp0Addr => 4,
            Npc::MemOp0 => 5,
            Npc::MemDstAddr => 8,
            Npc::MemDst => 9,
            Npc::MemOp1Addr => 12,
            Npc::MemOp1 => 13,
        }
    }

    /// The step of this field: the public-memory pair repeats on its own
    /// coarser grid, twice per cycle; every other field once per cycle.
    pub open spec fn step_spec(self) -> int {
        match self {
            Npc::PubMemAddr | Npc::PubMemVal => PUBLIC_MEMORY_STEP as int,
            _ => CYCLE_HEIGHT as int,
        }
    }

    /// The base column the control-flow fields live in.
    pub fn index(&self) -> (r: usize)
        ensures
            r == 5,
    {
        5
    }

    /// The row of this field inside one repetition of its step.
    pub fn offset(&self) -> (r: usize)
        ensures
            r == self.offset_spec(),
    {
        match self {
            Npc::Pc => 0,
            Npc::Instruction => 1,
            Npc::PubMemAddr => 2,
            Npc::PubMemVal => 3,
            Npc::MemOp0Addr => 4,
            Npc::MemOp0 => 5,
            Npc::MemDstAddr => 8,
            Npc::MemDst => 9,
            Npc::MemOp1Addr => 12,
            Npc::MemOp1 => 13,
        }
    }

    /// Rows between two occurrences of this field.
    pub fn step(&self) -> (r: usize)
        ensures
            r == self.step_spec(),
    {
        match self {
            Npc::PubMemAddr | Npc::PubMemVal => PUBLIC_MEMORY_STEP,
            _ => CYCLE_HEIGHT,
        }
    }
}

/// The two halves of a memory pair in the sorted memory column.
#[derive(Clone, Copy, PartialEq, Eq, Structural, Debug)]
pub enum Mem {
    Address,
    Value,
}

impl Mem {
    /// The row of this half inside its pair.
    pub open spec fn offset_spec(self) -> int {
        match self {
            Mem::Address => 0,
            Mem::Value => 1,
        }
    }

    /// The base column the sorted memory pairs live in.
    pub fn index(&self) -> (r: usize)
        ensures
            r == 6,
    {
        6
    }

    /// The row of this half inside its pair.
    pub fn offset(&self) -> (r: usize)
        ensures
            r == self.offset_spec(),
    {
        match self {
            Mem::Address => 0,
            Mem::Value => 1,
        }
    }

    /// Rows between two memory pairs.
    pub fn step(&self) -> (r: usize)
        ensures
            r == MEMORY_STEP,
    {
        MEMORY_STEP
    }
}

/// The range-checked and register fields of a cycle.
#[derive(Clone, Copy, PartialEq, Eq, Structural, Debug)]
pub enum RangeCheck {
    OffDst,
    Ap,
    OffOp1,
    Op0MulOp1,
    OffOp0,
    Fp,
    Res,
}

impl RangeCheck {
    /// The row of this field inside its cycle.
    pub open spec fn offset_spec(self) -> int {
        match self {
            RangeCheck::OffDst => 0,
            RangeCheck::Ap => 3,
            RangeCheck::OffOp1 => 4,
            RangeCheck::Op0MulOp1 => 7,
            RangeCheck::OffOp0 => 8,
            RangeCheck::Fp => 11,
            RangeCheck::Res => 15,
        }
    }

    /// The base column the range-check fields live in.
    pub fn index(&self) -> (r: usize)
        ensures
            r == 7,
    {
        7
    }

    /// The row of this field inside its cycle.
    pub fn offset(&self) -> (r: usize)
        ensures
            r == self.offset_spec(),
    {
        match self {
            RangeCheck::OffDst => 0,
            RangeCheck::Ap => 3,
            RangeCheck::OffOp1 => 4,
            RangeCheck::Op0MulOp1 => 7,
            RangeCheck::OffOp0 => 8,
            RangeCheck::Fp => 11,
            RangeCheck::Res => 15,
        }
    }

    /// Rows between two occurrences of the same field: one cycle.
    pub fn step(&self) -> (r: usize)
        ensures
            r == CYCLE_HEIGHT,
    {
        CYCLE_HEIGHT
    }
}

/// The auxiliary temporaries of a cycle.
#[derive(Clone, Copy, PartialEq, Eq, Structural, Debug)]
pub enum Auxiliary {
    Tmp0,
    Tmp1,
}

impl Auxiliary {
    /// The row of this temporary inside its cycle.
    pub open spec fn offset_spec(self) -> int {
        match self {
            Auxiliary::Tmp0 => 0,
            Auxiliary::Tmp1 => 8,
        }
    }

    /// The base column the temporaries live in.
    pub fn index(&self) -> (r: usize)
        ensures
            r == 8,
    {
        8
    }

    /// The row of this temporary inside its cycle.
    pub fn offset(&self) -> (r: usize)
        ensures
            r == self.offset_spec(),
    {
        match self {
            Auxiliary::Tmp0 => 0,
            Auxiliary::Tmp1 => 8,
        }
    }

    /// Rows between two occurrences of the same temporary: one cycle.
    pub fn step(&self) -> (r: usize)
        ensures
            r == CYCLE_HEIGHT,
    {
        CYCLE_HEIGHT
    }
}

/// The running-product values of the permutation arguments, living in the
/// extension column.
#[derive(Clone, Copy, PartialEq, Eq, Structural, Debug)]
pub enum Permutation {
    Memory,
    RangeCheck,
}

impl Permutation {
    /// The row of this running product inside one repetition of its step.
    pub open spec fn offset_spec(self) -> int {
        match self {
            Permutation::Memory => 0,
            Permutation::RangeCheck => 1,
        }
    }

    /// The step of this running product.
    pub open spec fn step_spec(self) -> int {
        match self {
            Permutation::Memory => MEMORY_STEP as int,
            Permutation::RangeCheck => RANGE_CHECK_STEP as int,
        }
    }

    /// The column the permutation values live in: the first column after
    /// the base columns.
    pub fn index(&self) -> (r: usize)
        ensures
            r == 9,
    {
        9
    }

    /// The row of this running product inside one repetition of its step.
    pub fn offset(&self) -> (r: usize)
        ensures
            r == self.offset_spec(),
    {
        match self {
            Permutation::Memory => 0,
            Permutation::RangeCheck => 1,
        }
    }

    /// The step of this running product.
    pub fn step(&self) -> (r: usize)
        ensures
            r == self.step_spec(),
    {
        match self {
            Permutation::Memory => MEMORY_STEP,
            Permutation::RangeCheck => RANGE_CHECK_STEP,
        }
    }
}

} // verus!
