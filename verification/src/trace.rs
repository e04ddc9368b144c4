//! The base trace builder. Given the recorded register states, the decoded
//! form of each executed instruction, and the program's public memory, it
//! lays the values out into the nine base columns, pads the cycle count to
//! a power of two by duplicating the last real cycle, derives the sorted
//! memory column, and later, under the caller's challenges, the permutation
//! extension column.

use vstd::prelude::*;
use vstd::arithmetic::div_mod::lemma_mod_multiples_basic;
use crate::errors::TraceError;
use crate::field::{Felt, felt_of_u64, from_u64, felt_mul, mul_p};
use crate::layout::{CYCLE_HEIGHT, NUM_BASE_COLUMNS, NUM_EXTENSION_COLUMNS};
use crate::memory::{get_ordered_memory_accesses, memory_column_ok, ordered_accesses,
    ordering_err_witness, ordering_ok};
use crate::permutation::{challenges_ok, compute_permutation_column, permutation_column_ok,
    access_term};

verus! {

/// One recorded register snapshot: program counter, allocation pointer and
/// frame pointer, in execution order.
#[derive(Clone, Copy, PartialEq, Eq, Structural, Debug)]
pub struct RegisterState {
    pub pc: u64,
    pub ap: u64,
    pub fp: u64,
}

/// What the instruction decoder yields for one executed step: the fetched
/// word, the three biased offsets, the three operand addresses, the operand
/// and result values, the two auxiliary temporaries, and the sixteen
/// flag-prefix values (the sixteenth is the zero sentinel: a word whose
/// sentinel prefix is not zero is malformed and rejected up front).
#[derive(Clone, Copy, PartialEq, Eq, Debug)]
pub struct DecodedStep {
    pub instruction: Felt,
    pub off_dst: u64,
    pub off_op0: u64,
    pub off_op1: u64,
    pub dst_addr: u64,
    pub op0_addr: u64,
    pub op1_addr: u64,
    pub dst: Felt,
    pub op0: Felt,
    pub op1: Felt,
    pub res: Felt,
    pub tmp0: Felt,
    pub tmp1: Felt,
    pub flag_prefixes: [u64; 16],
}

impl DecodedStep {
    /// All field elements of the step are canonical.
    pub open spec fn wf(self) -> bool {
        &&& self.instruction.wf()
        &&& self.dst.wf()
        &&& self.op0.wf()
        &&& self.op1.wf()
        &&& self.res.wf()
        &&& self.tmp0.wf()
        &&& self.tmp1.wf()
    }
}

/// The smallest power of two at or above `n` (1 for `n <= 1`).
pub open spec fn next_pow2(n: int) -> int
    decreases n,
{
    if n <= 1 {
        1
    } else {
        2 * next_pow2((n + 1) / 2)
    }
}

/// Bounds of `next_pow2`: at least `n`, and for `n > 1` at most `2(n - 1)`.
pub proof fn lemma_next_pow2_bounds(n: int)
    requires
        n >= 1,
    ensures
        next_pow2(n) >= n,
        next_pow2(n) >= 1,
        n > 1 ==> next_pow2(n) <= 2 * (n - 1),
    decreases n,
{
    if n > 1 {
        lemma_next_pow2_bounds((n + 1) / 2);
    }
}

/// The cycle count every trace is padded to is a power of two, as the
/// prover's evaluation domain demands.
pub proof fn lemma_next_pow2_is_power_of_two(n: int)
    requires
        n >= 1,
    ensures
        vstd::arithmetic::power2::is_pow2(next_pow2(n)),
    decreases n,
{
    reveal(vstd::arithmetic::power2::is_pow2);
    if n > 1 {
        lemma_next_pow2_is_power_of_two((n + 1) / 2);
        lemma_next_pow2_bounds((n + 1) / 2);
        let m = next_pow2((n + 1) / 2);
        lemma_mod_multiples_basic(m, 2);
        vstd::arithmetic::div_mod::lemma_div_multiples_vanish(m, 2);
        assert(vstd::arithmetic::power2::is_pow2(2 * m));
    }
}

/// Computes the smallest power of two at or above `n`.
pub fn next_power_of_two(n: usize) -> (r: usize)
    requires
        n <= usize::MAX / 2,
    ensures
        r == next_pow2(n as int),
        r >= 1,
    decreases n,
{
    proof {
        if n >= 1 {
            lemma_next_pow2_bounds(n as int);
        }
    }
    if n <= 1 {
        1
    } else {
        2 * next_power_of_two((n + 1) / 2)
    }
}

/// The highest address among the first `i` steps' instruction fetches and
/// operand accesses, and at least 1.
pub open spec fn highest_access(regs: Seq<RegisterState>, steps: Seq<DecodedStep>, i: int) -> int
    decreases i,
{
    if i <= 0 {
        1
    } else {
        let h = highest_access(regs, steps, i - 1);
        let m1 = if steps[i - 1].dst_addr as int > h {
            steps[i - 1].dst_addr as int
        } else {
            h
        };
        let m2 = if steps[i - 1].op0_addr as int > m1 {
            steps[i - 1].op0_addr as int
        } else {
            m1
        };
        let m3 = if steps[i - 1].op1_addr as int > m2 {
            steps[i - 1].op1_addr as int
        } else {
            m2
        };
        if regs[i - 1].pc as int > m3 {
            regs[i - 1].pc as int
        } else {
            m3
        }
    }
}

/// The padding address: one above every address the execution touches, so
/// that the padding accesses sort after all real accesses.
pub open spec fn padding_address_spec(regs: Seq<RegisterState>, steps: Seq<DecodedStep>) -> int {
    highest_access(regs, steps, regs.len() as int) + 1
}

/// Every fetched or accessed address leaves room for the padding address
/// above it.
pub open spec fn addresses_bounded(regs: Seq<RegisterState>, steps: Seq<DecodedStep>) -> bool {
    forall|i: int|
        0 <= i < regs.len() ==> (#[trigger] regs[i]).pc < u64::MAX && (#[trigger] steps[i]).dst_addr
            < u64::MAX && steps[i].op0_addr < u64::MAX && steps[i].op1_addr < u64::MAX
}

/// Finds the address used to pad the public-memory accesses: one above the
/// highest memory address the execution touches.
pub fn public_memory_padding_address(
    register_states: &Vec<RegisterState>,
    decoded: &Vec<DecodedStep>,
) -> (r: u64)
    requires
        register_states@.len() == decoded@.len(),
        addresses_bounded(register_states@, decoded@),
    ensures
        r == padding_address_spec(register_states@, decoded@),
        r >= 2,
{
    let mut highest: u64 = 1;
    let mut i: usize = 0;
    while i < register_states.len()
        invariant
            register_states@.len() == decoded@.len(),
            addresses_bounded(register_states@, decoded@),
            i <= register_states@.len(),
            1 <= highest < u64::MAX,
            highest == highest_access(register_states@, decoded@, i as int),
        decreases register_states@.len() - i,
    {
        let d = &decoded[i];
        if d.dst_addr > highest {
            highest = d.dst_addr;
        }
        if d.op0_addr > highest {
            highest = d.op0_addr;
        }
        if d.op1_addr > highest {
            highest = d.op1_addr;
        }
        if register_states[i].pc > highest {
            highest = register_states[i].pc;
        }
        i += 1;
    }
    highest + 1
}

/// Which step a cycle shows: its own for the real cycles, the last real
/// step for every padding cycle.
pub open spec fn cycle_of(c: int, n: int) -> int {
    if c < n {
        c
    } else {
        n - 1
    }
}

/// The sixteen flag rows of one cycle: the bit-prefix values of the step's
/// word, one bit position per row.
pub open spec fn flags_cycle(d: DecodedStep) -> Seq<Felt> {
    Seq::new(16, |k: int| felt_of_u64(d.flag_prefixes@[k]))
}

/// The sixteen control-flow rows of one cycle: program counter and word,
/// the two public-memory slots left zero (public memory enters only through
/// the sorted memory column), the three operand address/value pairs, and
/// the padding-access pairs in the otherwise unused rows.
pub open spec fn npc_cycle(reg: RegisterState, d: DecodedStep, pad: Felt) -> Seq<Felt> {
    seq![
        felt_of_u64(reg.pc),
        d.instruction,
        felt_of_u64(0),
        felt_of_u64(0),
        felt_of_u64(d.op0_addr),
        d.op0,
        pad,
        pad,
        felt_of_u64(d.dst_addr),
        d.dst,
        felt_of_u64(0),
        felt_of_u64(0),
        felt_of_u64(d.op1_addr),
        d.op1,
        pad,
        pad,
    ]
}

/// The values of the sixteen range-check rows of one cycle: the three
/// biased offsets, the two pointers, the operand product and the result.
pub open spec fn rc_cycle_vals(reg: RegisterState, d: DecodedStep) -> Seq<int> {
    seq![
        d.off_dst as int,
        0,
        0,
        reg.ap as int,
        d.off_op1 as int,
        0,
        0,
        mul_p(d.op0.val(), d.op1.val()),
        d.off_op0 as int,
        0,
        0,
        reg.fp as int,
        0,
        0,
        0,
        d.res.val(),
    ]
}

/// The sixteen auxiliary rows of one cycle: the two temporaries.
pub open spec fn aux_cycle(d: DecodedStep) -> Seq<Felt> {
    seq![
        d.tmp0,
        felt_of_u64(0),
        felt_of_u64(0),
        felt_of_u64(0),
        felt_of_u64(0),
        felt_of_u64(0),
        felt_of_u64(0),
        felt_of_u64(0),
        d.tmp1,
        felt_of_u64(0),
        felt_of_u64(0),
        felt_of_u64(0),
        felt_of_u64(0),
        felt_of_u64(0),
        felt_of_u64(0),
        felt_of_u64(0),
    ]
}

/// The flags column over the given number of cycles.
pub open spec fn flags_column_spec(steps: Seq<DecodedStep>, cycles: int) -> Seq<Felt>
    decreases cycles,
{
    if cycles <= 0 {
        Seq::empty()
    } else {
        flags_column_spec(steps, cycles - 1) + flags_cycle(
            steps[cycle_of(cycles - 1, steps.len() as int)],
        )
    }
}

/// The control-flow column over the given number of cycles.
pub open spec fn npc_column_spec(
    regs: Seq<RegisterState>,
    steps: Seq<DecodedStep>,
    pad: Felt,
    cycles: int,
) -> Seq<Felt>
    decreases cycles,
{
    if cycles <= 0 {
        Seq::empty()
    } else {
        npc_column_spec(regs, steps, pad, cycles - 1) + npc_cycle(
            regs[cycle_of(cycles - 1, steps.len() as int)],
            steps[cycle_of(cycles - 1, steps.len() as int)],
            pad,
        )
    }
}

/// The values of the range-check column over the given number of cycles.
pub open spec fn rc_column_vals_spec(
    regs: Seq<RegisterState>,
    steps: Seq<DecodedStep>,
    cycles: int,
) -> Seq<int>
    decreases cycles,
{
    if cycles <= 0 {
        Seq::empty()
    } else {
        rc_column_vals_spec(regs, steps, cycles - 1) + rc_cycle_vals(
            regs[cycle_of(cycles - 1, steps.len() as int)],
            steps[cycle_of(cycles - 1, steps.len() as int)],
        )
    }
}

/// The auxiliary column over the given number of cycles.
pub open spec fn aux_column_spec(steps: Seq<DecodedStep>, cycles: int) -> Seq<Felt>
    decreases cycles,
{
    if cycles <= 0 {
        Seq::empty()
    } else {
        aux_column_spec(steps, cycles - 1) + aux_cycle(
            steps[cycle_of(cycles - 1, steps.len() as int)],
        )
    }
}

/// The integer values of a column.
pub open spec fn vals_of(s: Seq<Felt>) -> Seq<int> {
    s.map_values(|f: Felt| f.val())
}

/// Each per-cycle column holds sixteen rows per cycle.
pub proof fn lemma_column_specs_len(
    regs: Seq<RegisterState>,
    steps: Seq<DecodedStep>,
    pad: Felt,
    cycles: int,
)
    requires
        cycles >= 0,
    ensures
        flags_column_spec(steps, cycles).len() == 16 * cycles,
        npc_column_spec(regs, steps, pad, cycles).len() == 16 * cycles,
        rc_column_vals_spec(regs, steps, cycles).len() == 16 * cycles,
        aux_column_spec(steps, cycles).len() == 16 * cycles,
    decreases cycles,
{
    if cycles > 0 {
        lemma_column_specs_len(regs, steps, pad, cycles - 1);
    }
}

/// Row `16 c + k` of each per-cycle column shows row `k` of the cycle of
/// the step that cycle `c` repeats.
pub proof fn lemma_column_specs_index(
    regs: Seq<RegisterState>,
    steps: Seq<DecodedStep>,
    pad: Felt,
    cycles: int,
    c: int,
    k: int,
)
    requires
        regs.len() == steps.len(),
        steps.len() >= 1,
        0 <= c < cycles,
        0 <= k < 16,
    ensures
        flags_column_spec(steps, cycles)[16 * c + k] == flags_cycle(
            steps[cycle_of(c, steps.len() as int)],
        )[k],
        npc_column_spec(regs, steps, pad, cycles)[16 * c + k] == npc_cycle(
            regs[cycle_of(c, steps.len() as int)],
            steps[cycle_of(c, steps.len() as int)],
            pad,
        )[k],
        rc_column_vals_spec(regs, steps, cycles)[16 * c + k] == rc_cycle_vals(
            regs[cycle_of(c, steps.len() as int)],
            steps[cycle_of(c, steps.len() as int)],
        )[k],
        aux_column_spec(steps, cycles)[16 * c + k] == aux_cycle(
            steps[cycle_of(c, steps.len() as int)],
        )[k],
    decreases cycles,
{
    lemma_column_specs_len(regs, steps, pad, cycles - 1);
    if c < cycles - 1 {
        lemma_column_specs_index(regs, steps, pad, cycles - 1, c, k);
    }
}

/// Padding duplicates the last real cycle: in each of the four per-cycle
/// columns, every row of every padding cycle equals the corresponding row
/// of the last real cycle.
pub proof fn lemma_padding_duplication(
    regs: Seq<RegisterState>,
    steps: Seq<DecodedStep>,
    pad: Felt,
    cycles: int,
    c: int,
    k: int,
)
    requires
        regs.len() == steps.len(),
        steps.len() >= 1,
        steps.len() <= c < cycles,
        0 <= k < 16,
    ensures
        flags_column_spec(steps, cycles)[16 * c + k] == flags_column_spec(steps, cycles)[16 * (
        steps.len() - 1) + k],
        npc_column_spec(regs, steps, pad, cycles)[16 * c + k] == npc_column_spec(
            regs,
            steps,
            pad,
            cycles,
        )[16 * (steps.len() - 1) + k],
        rc_column_vals_spec(regs, steps, cycles)[16 * c + k] == rc_column_vals_spec(
            regs,
            steps,
            cycles,
        )[16 * (steps.len() - 1) + k],
        aux_column_spec(steps, cycles)[16 * c + k] == aux_column_spec(steps, cycles)[16 * (
        steps.len() - 1) + k],
{
    let n = steps.len() as int;
    lemma_column_specs_index(regs, steps, pad, cycles, c, k);
    lemma_column_specs_index(regs, steps, pad, cycles, n - 1, k);
}

/// A column of zeros.
pub open spec fn zero_column_spec(len: int) -> Seq<Felt> {
    Seq::new(len as nat, |i: int| felt_of_u64(0))
}

/// Builds a zero-filled column, reserved for derived or unused data.
fn zeros_column(len: usize) -> (r: Vec<Felt>)
    ensures
        r@ == zero_column_spec(len as int),
{
    let mut r: Vec<Felt> = Vec::new();
    let mut i: usize = 0;
    while i < len
        invariant
            i <= len,
            r@.len() == i,
            forall|j: int| 0 <= j < i ==> #[trigger] r@[j] == felt_of_u64(0),
        decreases len - i,
    {
        r.push(from_u64(0));
        i += 1;
    }
    proof {
        assert(r@ =~= zero_column_spec(len as int));
    }
    r
}

/// Appends one cycle of flag rows.
fn push_flags_cycle(col: &mut Vec<Felt>, d: &DecodedStep)
    ensures
        final(col)@ == old(col)@ + flags_cycle(*d),
        forall|i: int|
            old(col)@.len() <= i < final(col)@.len() ==> (#[trigger] final(col)@[i]).wf(),
{
    let mut k: usize = 0;
    let ghost col0 = col@;
    while k < 16
        invariant
            k <= 16,
            col@ == col0 + flags_cycle(*d).subrange(0, k as int),
        decreases 16 - k,
    {
        col.push(from_u64(d.flag_prefixes[k]));
        proof {
            assert(col@ =~= col0 + flags_cycle(*d).subrange(0, k + 1 as int));
        }
        k += 1;
    }
    proof {
        assert(flags_cycle(*d).subrange(0, 16) =~= flags_cycle(*d));
    }
}

/// Appends one cycle of control-flow rows.
fn push_npc_cycle(col: &mut Vec<Felt>, reg: &RegisterState, d: &DecodedStep, pad: &Felt)
    requires
        d.wf(),
        pad.wf(),
    ensures
        final(col)@ == old(col)@ + npc_cycle(*reg, *d, *pad),
        forall|i: int|
            old(col)@.len() <= i < final(col)@.len() ==> (#[trigger] final(col)@[i]).wf(),
{
    let zero = from_u64(0);
    col.push(from_u64(reg.pc));
    col.push(d.instruction);
    col.push(zero);
    col.push(zero);
    col.push(from_u64(d.op0_addr));
    col.push(d.op0);
    col.push(*pad);
    col.push(*pad);
    col.push(from_u64(d.dst_addr));
    col.push(d.dst);
    col.push(zero);
    col.push(zero);
    col.push(from_u64(d.op1_addr));
    col.push(d.op1);
    col.push(*pad);
    col.push(*pad);
    proof {
        assert(col@ =~= old(col)@ + npc_cycle(*reg, *d, *pad));
    }
}

/// Appends one cycle of range-check rows, including the operand product.
fn push_rc_cycle(col: &mut Vec<Felt>, reg: &RegisterState, d: &DecodedStep)
    requires
        d.wf(),
    ensures
        final(col)@.len() == old(col)@.len() + 16,
        vals_of(final(col)@) == vals_of(old(col)@) + rc_cycle_vals(*reg, *d),
        forall|i: int|
            old(col)@.len() <= i < final(col)@.len() ==> (#[trigger] final(col)@[i]).wf(),
        forall|i: int| 0 <= i < old(col)@.len() ==> final(col)@[i] == old(col)@[i],
    {
    let zero = from_u64(0);
    let prod = felt_mul(&d.op0, &d.op1);
    col.push(from_u64(d.off_dst));
    col.push(zero);
    col.push(zero);
    col.push(from_u64(reg.ap));
    col.push(from_u64(d.off_op1));
    col.push(zero);
    col.push(zero);
    col.push(prod);
    col.push(from_u64(d.off_op0));
    col.push(zero);
    col.push(zero);
    col.push(from_u64(reg.fp));
    col.push(zero);
    col.push(zero);
    col.push(zero);
    col.push(d.res);
    proof {
        assert(vals_of(col@) =~= vals_of(old(col)@) + rc_cycle_vals(*reg, *d));
    }
}

/// Appends one cycle of auxiliary rows.
fn push_aux_cycle(col: &mut Vec<Felt>, d: &DecodedStep)
    requires
        d.wf(),
    ensures
        final(col)@ == old(col)@ + aux_cycle(*d),
        forall|i: int|
            old(col)@.len() <= i < final(col)@.len() ==> (#[trigger] final(col)@[i]).wf(),
{
    let zero = from_u64(0);
    col.push(d.tmp0);
    col.push(zero);
    col.push(zero);
    col.push(zero);
    col.push(zero);
    col.push(zero);
    col.push(zero);
    col.push(zero);
    col.push(d.tmp1);
    col.push(zero);
    col.push(zero);
    col.push(zero);
    col.push(zero);
    col.push(zero);
    col.push(zero);
    col.push(zero);
    proof {
        assert(col@ =~= old(col)@ + aux_cycle(*d));
    }
}

/// The range-check bounds are tight: every decoded offset lies between
/// them, and both are attained by some offset.
pub open spec fn rc_bounds_ok(mn: u64, mx: u64, steps: Seq<DecodedStep>) -> bool {
    &&& forall|i: int|
        0 <= i < steps.len() ==> mn <= (#[trigger] steps[i]).off_dst && mn <= steps[i].off_op0
            && mn <= steps[i].off_op1 && steps[i].off_dst <= mx && steps[i].off_op0 <= mx
            && steps[i].off_op1 <= mx
    &&& exists|i: int|
        0 <= i < steps.len() && (mn == (#[trigger] steps[i]).off_dst || mn == steps[i].off_op0
            || mn == steps[i].off_op1)
    &&& exists|i: int|
        0 <= i < steps.len() && (mx == (#[trigger] steps[i]).off_dst || mx == steps[i].off_op0
            || mx == steps[i].off_op1)
}

/// The padding access as a field element.
pub open spec fn pad_felt(regs: Seq<RegisterState>, steps: Seq<DecodedStep>) -> Felt {
    felt_of_u64(padding_address_spec(regs, steps) as u64)
}

/// The control-flow column a successful build holds, over all cycles.
pub open spec fn npc_spec(regs: Seq<RegisterState>, steps: Seq<DecodedStep>) -> Seq<Felt> {
    npc_column_spec(regs, steps, pad_felt(regs, steps), next_pow2(regs.len() as int))
}

/// The built trace: the scalars of the range-check and public-memory
/// arguments, the first and last register snapshots, and the nine base
/// columns, each of the padded trace length.
pub struct ExecutionTrace {
    pub public_memory_padding_address: u64,
    pub public_memory_padding_value: Felt,
    pub range_check_min: u64,
    pub range_check_max: u64,
    pub public_memory: Vec<(u64, Felt)>,
    pub initial_registers: RegisterState,
    pub final_registers: RegisterState,
    pub base_trace: Vec<Vec<Felt>>,
}

impl ExecutionTrace {
    /// Base column `c`.
    pub open spec fn col(self, c: int) -> Seq<Felt> {
        self.base_trace@[c]@
    }

    /// The shared length of the base columns.
    pub open spec fn trace_len(self) -> int {
        self.col(0).len() as int
    }

    /// How many base columns the trace holds.
    pub open spec fn num_columns(self) -> int {
        self.base_trace@.len() as int
    }

    /// The shape every built trace has: nine base columns of one length, a
    /// positive multiple of the cycle height, all cells canonical.
    pub open spec fn wf(self) -> bool {
        &&& self.num_columns() == NUM_BASE_COLUMNS as int
        &&& self.trace_len() >= CYCLE_HEIGHT as int
        &&& self.trace_len() % (CYCLE_HEIGHT as int) == 0
        &&& forall|c: int|
            0 <= c < NUM_BASE_COLUMNS as int ==> (#[trigger] self.col(c)).len()
                == self.trace_len()
        &&& forall|c: int, i: int|
            0 <= c < NUM_BASE_COLUMNS as int && 0 <= i < self.trace_len() ==> (#[trigger] self.col(
                c,
            )[i]).wf()
    }

    /// What a successful build returns for the given inputs: every column
    /// laid out as specified, the bounds tight, the scalars as computed.
    pub open spec fn built_from(
        self,
        regs: Seq<RegisterState>,
        steps: Seq<DecodedStep>,
        pm: Seq<(u64, Felt)>,
    ) -> bool {
        let n = regs.len() as int;
        let cycles = next_pow2(n);
        let tl = 16 * cycles;
        let pad = pad_felt(regs, steps);
        &&& self.wf()
        &&& self.trace_len() == tl
        &&& self.col(0) == flags_column_spec(steps, cycles)
        &&& self.col(1) == zero_column_spec(tl)
        &&& self.col(2) == zero_column_spec(tl)
        &&& self.col(3) == zero_column_spec(tl)
        &&& self.col(4) == zero_column_spec(tl)
        &&& self.col(5) == npc_column_spec(regs, steps, pad, cycles)
        &&& memory_column_ok(self.col(6), npc_column_spec(regs, steps, pad, cycles), pm, tl)
        &&& vals_of(self.col(7)) == rc_column_vals_spec(regs, steps, cycles)
        &&& self.col(8) == aux_column_spec(steps, cycles)
        &&& self.public_memory_padding_address == padding_address_spec(regs, steps)
        &&& self.public_memory_padding_value == pad
        &&& self.public_memory@ == pm
        &&& self.initial_registers == regs[0]
        &&& self.final_registers == regs[n - 1]
        &&& rc_bounds_ok(self.range_check_min, self.range_check_max, steps)
    }

    /// Builds the base trace from the recorded register states, the decoded
    /// steps (one per state, in execution order) and the program's declared
    /// public memory.
    ///
    /// Succeeds exactly when the memory ordering engine accepts the laid-out
    /// control-flow column together with the public memory; the error
    /// reports the violated memory invariant with its position and values.
    #[verifier::rlimit(100)]
    #[verifier::loop_isolation(false)]
    pub fn new(
        register_states: &Vec<RegisterState>,
        decoded: &Vec<DecodedStep>,
        public_memory: &Vec<(u64, Felt)>,
    ) -> (r: Result<ExecutionTrace, TraceError>)
        requires
            register_states@.len() == decoded@.len(),
            register_states@.len() >= 1,
            register_states@.len() <= usize::MAX as int / 32,
            forall|i: int| 0 <= i < decoded@.len() ==> (#[trigger] decoded@[i]).wf(),
            forall|i: int| 0 <= i < decoded@.len() ==> (#[trigger] decoded@[i]).flag_prefixes@[15]
                == 0,
            addresses_bounded(register_states@, decoded@),
            forall|j: int| 0 <= j < public_memory@.len() ==> (#[trigger] public_memory@[j]).1.wf(),
            public_memory@.len() <= 2 * next_pow2(register_states@.len() as int),
        ensures
            (r is Ok) <==> ordering_ok(
                npc_spec(register_states@, decoded@),
                public_memory@,
                16 * next_pow2(register_states@.len() as int),
            ),
            r is Ok ==> r->Ok_0.built_from(register_states@, decoded@, public_memory@),
            r is Err ==> ordering_err_witness(
                r->Err_0,
                ordered_accesses(npc_spec(register_states@, decoded@), public_memory@),
                2 * next_pow2(register_states@.len() as int),
            ),
    {
        let n = register_states.len();
        proof {
            lemma_next_pow2_bounds(n as int);
        }
        let num_cycles = next_power_of_two(n);
        let trace_len = num_cycles * CYCLE_HEIGHT;
        proof {
            lemma_mod_multiples_basic(num_cycles as int, 16);
            vstd::arithmetic::div_mod::lemma_div_multiples_vanish(
                2 * num_cycles as int,
                8,
            );
        }

        let pad_addr = public_memory_padding_address(register_states, decoded);
        let pad_f = from_u64(pad_addr);
        let ghost pad_spec = pad_felt(register_states@, decoded@);
        proof {
            assert(pad_f == pad_spec);
        }

        // fold the tight range-check bounds over all decoded offsets
        let mut rc_min = decoded[0].off_dst;
        let mut rc_max = decoded[0].off_dst;
        let mut i: usize = 0;
        while i < n
            invariant
                i <= n,
                forall|j: int|
                    0 <= j < i ==> rc_min <= (#[trigger] decoded@[j]).off_dst && rc_min
                        <= decoded@[j].off_op0 && rc_min <= decoded@[j].off_op1
                        && decoded@[j].off_dst <= rc_max && decoded@[j].off_op0 <= rc_max
                        && decoded@[j].off_op1 <= rc_max,
                exists|j: int|
                    0 <= j < n && (rc_min == (#[trigger] decoded@[j]).off_dst || rc_min
                        == decoded@[j].off_op0 || rc_min == decoded@[j].off_op1),
                exists|j: int|
                    0 <= j < n && (rc_max == (#[trigger] decoded@[j]).off_dst || rc_max
                        == decoded@[j].off_op0 || rc_max == decoded@[j].off_op1),
            decreases n - i,
        {
            let d = &decoded[i];
            if d.off_dst < rc_min {
                rc_min = d.off_dst;
            }
            if d.off_op0 < rc_min {
                rc_min = d.off_op0;
            }
            if d.off_op1 < rc_min {
                rc_min = d.off_op1;
            }
            if d.off_dst > rc_max {
                rc_max = d.off_dst;
            }
            if d.off_op0 > rc_max {
                rc_max = d.off_op0;
            }
            if d.off_op1 > rc_max {
                rc_max = d.off_op1;
            }
            i += 1;
        }

        // scatter the decoded values cycle by cycle; every padding cycle
        // repeats the last real step, keeping it algebraically consistent
        let mut flags: Vec<Felt> = Vec::new();
        let mut npc: Vec<Felt> = Vec::new();
        let mut rc: Vec<Felt> = Vec::new();
        let mut aux: Vec<Felt> = Vec::new();
        let mut c: usize = 0;
        while c < num_cycles
            invariant
                c <= num_cycles,
                flags@ == flags_column_spec(decoded@, c as int),
                npc@ == npc_column_spec(register_states@, decoded@, pad_f, c as int),
                vals_of(rc@) == rc_column_vals_spec(register_states@, decoded@, c as int),
                aux@ == aux_column_spec(decoded@, c as int),
                flags@.len() == 16 * c,
                npc@.len() == 16 * c,
                rc@.len() == 16 * c,
                aux@.len() == 16 * c,
                forall|i: int| 0 <= i < flags@.len() ==> (#[trigger] flags@[i]).wf(),
                forall|i: int| 0 <= i < npc@.len() ==> (#[trigger] npc@[i]).wf(),
                forall|i: int| 0 <= i < rc@.len() ==> (#[trigger] rc@[i]).wf(),
                forall|i: int| 0 <= i < aux@.len() ==> (#[trigger] aux@[i]).wf(),
            decreases num_cycles - c,
        {
            let s_idx = if c < n {
                c
            } else {
                n - 1
            };
            let reg = register_states[s_idx];
            let d = decoded[s_idx];
            proof {
                assert(cycle_of(c as int, n as int) == s_idx as int);
            }
            push_flags_cycle(&mut flags, &d);
            push_npc_cycle(&mut npc, &reg, &d, &pad_f);
            push_rc_cycle(&mut rc, &reg, &d);
            push_aux_cycle(&mut aux, &d);
            proof {
                assert(vals_of(rc@) =~= rc_column_vals_spec(
                    register_states@,
                    decoded@,
                    c as int + 1,
                ));
            }
            c += 1;
        }

        // the memory column is derived from the populated control-flow
        // column; a rejected ordering aborts the build
        let memory_column = match get_ordered_memory_accesses(trace_len, &npc, public_memory) {
            Ok(mc) => mc,
            Err(e) => {
                return Err(e);
            },
        };

        let z1 = zeros_column(trace_len);
        let z2 = zeros_column(trace_len);
        let z3 = zeros_column(trace_len);
        let z4 = zeros_column(trace_len);

        let mut pm_copy: Vec<(u64, Felt)> = Vec::new();
        let mut j: usize = 0;
        while j < public_memory.len()
            invariant
                j <= public_memory@.len(),
                pm_copy@.len() == j,
                forall|i: int| 0 <= i < j ==> #[trigger] pm_copy@[i] == public_memory@[i],
            decreases public_memory@.len() - j,
        {
            let e = public_memory[j];
            pm_copy.push(e);
            j += 1;
        }
        proof {
            assert(pm_copy@ =~= public_memory@);
        }

        let initial_registers = register_states[0];
        let final_registers = register_states[n - 1];

        let ghost flags_seq = flags@;
        let ghost npc_seq = npc@;
        let ghost rc_seq = rc@;
        let ghost aux_seq = aux@;
        let ghost mem_seq = memory_column@;

        let mut base_trace: Vec<Vec<Felt>> = Vec::new();
        base_trace.push(flags);
        base_trace.push(z1);
        base_trace.push(z2);
        base_trace.push(z3);
        base_trace.push(z4);
        base_trace.push(npc);
        base_trace.push(memory_column);
        base_trace.push(rc);
        base_trace.push(aux);

        let t = ExecutionTrace {
            public_memory_padding_address: pad_addr,
            public_memory_padding_value: pad_f,
            range_check_min: rc_min,
            range_check_max: rc_max,
            public_memory: pm_copy,
            initial_registers,
            final_registers,
            base_trace,
        };
        proof {
            assert(t.col(0) == flags_seq);
            assert(t.col(1)  =~= zero_column_spec(trace_len as int));
            assert(t.col(5) == npc_seq);
            assert(t.col(6) == mem_seq);
            assert(t.col(7) == rc_seq);
            assert(t.col(8) == aux_seq);
            assert forall|cc: int, ii: int|
                0 <= cc < NUM_BASE_COLUMNS as int && 0 <= ii < t.trace_len() implies (
            #[trigger] t.col(cc)[ii]).wf() by {
                if cc == 1 || cc == 2 || cc == 3 || cc == 4 {
                    assert(t.col(cc)[ii] == felt_of_u64(0));
                }
            }
            assert(t.wf());
        }
        Ok(t)
    }

    /// The nine base columns, flags first, in their fixed protocol order.
    pub fn base_columns(&self) -> (r: &Vec<Vec<Felt>>)
        ensures
            self.wf() ==> r@.len() == NUM_BASE_COLUMNS as int,
            forall|c: int| 0 <= c < r@.len() ==> (#[trigger] r@[c])@ == self.col(c),
    {
        &self.base_trace
    }

    /// Builds the one extension column: the memory-permutation running
    /// product under the caller's challenges `z` and `alpha`.
    ///
    /// Succeeds exactly when no sorted access hashes to `z`; otherwise the
    /// caller must redraw its challenges.
    pub fn build_extension_columns(&self, z: &Felt, alpha: &Felt) -> (r: Result<
        Vec<Vec<Felt>>,
        TraceError,
    >)
        requires
            self.wf(),
            z.wf(),
            alpha.wf(),
        ensures
            (r is Ok) <==> challenges_ok(self.col(6), *z, *alpha),
            r is Ok ==> r->Ok_0@.len() == NUM_EXTENSION_COLUMNS as int && permutation_column_ok(
                r->Ok_0@[0]@,
                self.col(5),
                self.col(6),
                *z,
                *alpha,
            ),
            r is Err ==> match r->Err_0 {
                TraceError::ChallengeCollision { index } => {
                    &&& 0 <= index < self.col(6).len() / 2
                    &&& access_term(self.col(6), *z, *alpha, index as int) == 0
                    &&& forall|j: int|
                        0 <= j < index ==> #[trigger] access_term(self.col(6), *z, *alpha, j) != 0
                },
                _ => false,
            },
    {
        proof {
            vstd::arithmetic::div_mod::lemma_fundamental_div_mod(self.trace_len(), 16);
            lemma_mod_multiples_basic(8 * (self.trace_len() / 16), 2);
        }
        let program_order = &self.base_trace[5];
        let address_order = &self.base_trace[6];
        proof {
            assert(self.col(5).len() == self.trace_len());
            assert(self.col(6).len() == self.trace_len());
            assert(program_order@ == self.col(5));
            assert(address_order@ == self.col(6));
        }
        match compute_permutation_column(program_order, address_order, z, alpha) {
            Ok(col) => {
                let mut out: Vec<Vec<Felt>> = Vec::new();
                out.push(col);
                Ok(out)
            },
            Err(e) => Err(e),
        }
    }
}

} // verus!
