//! The memory ordering and consistency engine. The control-flow column is
//! read as `(address, value)` pairs in program execution order; the declared
//! public-memory pairs are appended; the combined accesses are sorted by
//! `(address, value)`; the dummy zero accesses are checked and stripped; the
//! continuity and single-valuedness invariant is checked; and the tail is
//! padded with the highest access, whose address must equal its value.

use vstd::prelude::*;
use vstd::relations::{sorted_by, total_ordering};
use vstd::seq_lib::*;
use crate::errors::TraceError;
use crate::field::{Felt, add_p, felt_add, felt_lt, felt_of_u64, from_u64, lemma_val_injective};
use crate::layout::{CYCLE_HEIGHT, PUBLIC_MEMORY_STEP};

verus! {

/// The order the accesses are sorted in: by address, ties broken by value.
pub open spec fn access_le() -> spec_fn((Felt, Felt), (Felt, Felt)) -> bool {
    |x: (Felt, Felt), y: (Felt, Felt)|
        x.0.val() < y.0.val() || (x.0.val() == y.0.val() && x.1.val() <= y.1.val())
}

/// The pair order is a total order, because the limbs determine the values
/// and conversely.
pub proof fn lemma_access_le_total()
    ensures
        total_ordering(access_le()),
{
    let le = access_le();
    assert forall|x: (Felt, Felt), y: (Felt, Felt)| #[trigger] le(x, y) && le(y, x) implies x
        == y by {
        lemma_val_injective(x.0, y.0);
        lemma_val_injective(x.1, y.1);
    }
}

/// Whether two adjacent sorted accesses satisfy the memory-consistency
/// rule: the same cell repeated with the same value, or the address
/// advanced by exactly one.
pub open spec fn continuous_pair(x: (Felt, Felt), y: (Felt, Felt)) -> bool {
    (x.0.val() == y.0.val() && x.1.val() == y.1.val()) || y.0.val() == add_p(x.0.val(), 1)
}

/// The `(address, value)` pairs of the control-flow column, in program
/// execution order.
pub open spec fn program_order_accesses(npc: Seq<Felt>) -> Seq<(Felt, Felt)> {
    Seq::new((npc.len() / 2) as nat, |k: int| (npc[2 * k], npc[2 * k + 1]))
}

/// The declared public-memory pairs as field-element accesses.
pub open spec fn public_memory_accesses(pm: Seq<(u64, Felt)>) -> Seq<(Felt, Felt)> {
    pm.map_values(|e: (u64, Felt)| (felt_of_u64(e.0), e.1))
}

/// All memory accesses handed to the ordering engine.
pub open spec fn all_accesses(npc: Seq<Felt>, pm: Seq<(u64, Felt)>) -> Seq<(Felt, Felt)> {
    program_order_accesses(npc) + public_memory_accesses(pm)
}

/// The accesses sorted by `(address, value)`.
pub open spec fn ordered_accesses(npc: Seq<Felt>, pm: Seq<(u64, Felt)>) -> Seq<(Felt, Felt)> {
    all_accesses(npc, pm).sort_by(access_le())
}

/// The sorted list starts with the expected dummy zero accesses.
pub open spec fn dummies_ok(s: Seq<(Felt, Felt)>, nd: int) -> bool {
    forall|k: int| 0 <= k < nd ==> (#[trigger] s[k]).0.val() == 0 && s[k].1.val() == 0
}

/// The first surviving access sits at address 1.
pub open spec fn first_address_ok(s: Seq<(Felt, Felt)>, nd: int) -> bool {
    s[nd].0.val() == 1
}

/// Every adjacent pair of surviving accesses is continuous and
/// single-valued.
pub open spec fn continuity_ok(s: Seq<(Felt, Felt)>, nd: int) -> bool {
    forall|k: int| nd <= k < s.len() - 1 ==> continuous_pair(#[trigger] s[k], s[k + 1])
}

/// The highest access, used for tail padding, has address equal to value.
pub open spec fn padding_access_ok(s: Seq<(Felt, Felt)>) -> bool {
    s.last().0.val() == s.last().1.val()
}

/// Whether the ordering engine accepts the given control-flow column and
/// public memory for a trace of the given length.
pub open spec fn ordering_ok(npc: Seq<Felt>, pm: Seq<(u64, Felt)>, trace_len: int) -> bool {
    let s = ordered_accesses(npc, pm);
    let nd = trace_len / (PUBLIC_MEMORY_STEP as int);
    &&& dummies_ok(s, nd)
    &&& first_address_ok(s, nd)
    &&& continuity_ok(s, nd)
    &&& padding_access_ok(s)
}

/// What the memory column holds when the engine succeeds: the stripped,
/// sorted accesses flattened, padded to the trace length by repeating the
/// value of the highest access (whose address equals it).
pub open spec fn memory_column_ok(
    col: Seq<Felt>,
    npc: Seq<Felt>,
    pm: Seq<(u64, Felt)>,
    trace_len: int,
) -> bool {
    let s = ordered_accesses(npc, pm);
    let nd = trace_len / (PUBLIC_MEMORY_STEP as int);
    let kept = s.skip(nd);
    &&& col.len() == trace_len
    &&& forall|i: int| 0 <= i < col.len() ==> (#[trigger] col[i]).wf()
    &&& forall|i: int|
        0 <= i < 2 * kept.len() ==> #[trigger] col[i] == (if i % 2 == 0 {
            kept[i / 2].0
        } else {
            kept[i / 2].1
        })
    &&& forall|i: int| 2 * kept.len() <= i < col.len() ==> #[trigger] col[i] == kept.last().1
}

/// Which violation a returned ordering error reports, over the sorted
/// accesses `s` with `nd` dummy slots.
pub open spec fn ordering_err_witness(e: TraceError, s: Seq<(Felt, Felt)>, nd: int) -> bool {
    match e {
        TraceError::NonZeroDummyAccess { index, address, value } => {
            &&& 0 <= index < nd
            &&& s[index as int] == (address, value)
            &&& !(address.val() == 0 && value.val() == 0)
        },
        TraceError::FirstAddressNotOne { address } => {
            &&& dummies_ok(s, nd)
            &&& address == s[nd].0
            &&& address.val() != 1
        },
        TraceError::DiscontinuousMemory { index, address, value, next_address, next_value } => {
            &&& dummies_ok(s, nd)
            &&& first_address_ok(s, nd)
            &&& nd + index < s.len() - 1
            &&& s[nd + index] == (address, value)
            &&& s[nd + index + 1] == (next_address, next_value)
            &&& !continuous_pair((address, value), (next_address, next_value))
        },
        TraceError::PaddingAccessMismatch { address, value } => {
            &&& dummies_ok(s, nd)
            &&& first_address_ok(s, nd)
            &&& continuity_ok(s, nd)
            &&& s.last() == (address, value)
            &&& address.val() != value.val()
        },
        _ => false,
    }
}

/// Compares two accesses in the `(address, value)` order.
fn access_before(x: &(Felt, Felt), y: &(Felt, Felt)) -> (r: bool)
    ensures
        r == access_le()(*x, *y),
{
    if felt_lt(&x.0, &y.0) {
        true
    } else if felt_lt(&y.0, &x.0) {
        false
    } else {
        !felt_lt(&y.1, &x.1)
    }
}

/// Sorts the accesses by `(address, value)`; the result is exactly the
/// specification-level sort of the input.
fn sort_accesses(v: Vec<(Felt, Felt)>) -> (r: Vec<(Felt, Felt)>)
    ensures
        r@ == v@.sort_by(access_le()),
        sorted_by(r@, access_le()),
        r@.to_multiset() == v@.to_multiset(),
        r@.len() == v@.len(),
{
    proof {
        lemma_access_le_total();
        broadcast use group_to_multiset_ensures;
        broadcast use vstd::multiset::group_multiset_axioms;

    }
    let le = Ghost(access_le());
    let mut src = v;
    let mut out: Vec<(Felt, Felt)> = Vec::new();
    proof {
        assert(out@.to_multiset().add(src@.to_multiset()) =~= v@.to_multiset());
    }
    while src.len() > 0
        invariant
            total_ordering(le@),
            le@ == access_le(),
            out@.len() + src@.len() == v@.len(),
            sorted_by(out@, le@),
            out@.to_multiset().add(src@.to_multiset()) == v@.to_multiset(),
            forall|i: int, j: int|
                0 <= i < out@.len() && 0 <= j < src@.len() ==> le@(
                    #[trigger] out@[i],
                    #[trigger] src@[j],
                ),
        decreases src.len(),
    {
        let ghost src0 = src@;
        let ghost out0 = out@;
        let mut m: usize = 0;
        let mut k: usize = 1;
        while k < src.len()
            invariant
                total_ordering(le@),
                le@ == access_le(),
                0 < src.len(),
                m < k <= src.len(),
                forall|j: int| 0 <= j < k ==> le@(src@[m as int], #[trigger] src@[j]),
                src@ == src0,
            decreases src.len() - k,
        {
            if !access_before(&src[m], &src[k]) {
                assert(le@(src@[k as int], src@[m as int]));
                m = k;
            }
            k += 1;
        }
        let x = src.remove(m);
        out.push(x);
        proof {
            broadcast use group_to_multiset_ensures;
            broadcast use vstd::multiset::group_multiset_axioms;

            to_multiset_build(out0, x);
            to_multiset_remove(src0, m as int);
            assert(src0[m as int] == x);
            assert(src0.contains(x));
            assert(src0.to_multiset().contains(x));
            assert(out@ == out0.push(x));
            assert(src@ == src0.remove(m as int));
            assert(out@.to_multiset() =~= out0.to_multiset().insert(x));
            assert(src@.to_multiset() =~= src0.to_multiset().remove(x));
            assert(out@.to_multiset().add(src@.to_multiset()) =~= v@.to_multiset());
            assert forall|i: int, j: int|
                0 <= i < out@.len() && 0 <= j < src@.len() implies le@(
                #[trigger] out@[i],
                #[trigger] src@[j],
            ) by {
                if i < out0.len() {
                    assert(le@(out@[i], x));
                }
                assert(le@(x, if j < m { src0[j] } else { src0[j + 1] }));
            }
            assert(sorted_by(out@, le@));
        }
    }
    proof {
        assert(out@.to_multiset() =~= v@.to_multiset());
        v@.lemma_sort_by_ensures(le@);
        lemma_sorted_unique(out@, v@.sort_by(le@), le@);
        assert(v@.to_multiset().len() == v@.len());
        assert(out@ =~= v@.sort_by(access_le()));
    }
    out
}

/// Trace-length arithmetic shared by the ordering engine: with the length a
/// positive multiple of the cycle height, the pair count and the dummy count
/// are exact multiples of the cycle count.
proof fn lemma_geometry(tl: int)
    requires
        tl > 0,
        tl % 16 == 0,
    ensures
        tl == 16 * (tl / 16),
        tl / 16 >= 1,
        tl / 8 == 2 * (tl / 16),
        tl / 2 == 8 * (tl / 16),
{
    vstd::arithmetic::div_mod::lemma_fundamental_div_mod(tl, 16);
    let c = tl / 16;
    vstd::arithmetic::div_mod::lemma_div_multiples_vanish(2 * c, 8);
    vstd::arithmetic::div_mod::lemma_div_multiples_vanish(8 * c, 2);
}

/// Every access of a permutation of well-formed accesses is well-formed.
proof fn lemma_sorted_elements_wf(s: Seq<(Felt, Felt)>, all: Seq<(Felt, Felt)>)
    requires
        s.to_multiset() == all.to_multiset(),
        forall|i: int| 0 <= i < all.len() ==> (#[trigger] all[i]).0.wf() && all[i].1.wf(),
    ensures
        forall|k: int| 0 <= k < s.len() ==> (#[trigger] s[k]).0.wf() && s[k].1.wf(),
{
    assert forall|k: int| 0 <= k < s.len() implies (#[trigger] s[k]).0.wf() && s[k].1.wf() by {
        broadcast use group_to_multiset_ensures;

        assert(s.contains(s[k]));
        assert(all.to_multiset().count(s[k]) > 0);
        assert(all.contains(s[k]));
        let i = choose|i: int| 0 <= i < all.len() && all[i] == s[k];
        assert(all[i].0.wf() && all[i].1.wf());
    }
}

/// Orders the memory accesses of the control-flow column together with the
/// declared public memory, checks the dummy, continuity, single-valuedness
/// and padding invariants, and returns the flattened, padded memory column.
///
/// Succeeds exactly when the sorted accesses begin with the expected dummy
/// zero pairs, the first surviving address is 1, every adjacent surviving
/// pair is continuous and single-valued, and the highest access has address
/// equal to value; the error reports the first violation found, with its
/// position and values.
#[verifier::rlimit(100)]
#[verifier::loop_isolation(false)]
pub fn get_ordered_memory_accesses(
    trace_len: usize,
    npc_column: &Vec<Felt>,
    public_memory: &Vec<(u64, Felt)>,
) -> (r: Result<Vec<Felt>, TraceError>)
    requires
        trace_len >= CYCLE_HEIGHT,
        (trace_len as int) % (CYCLE_HEIGHT as int) == 0,
        npc_column@.len() == trace_len,
        forall|i: int| 0 <= i < npc_column@.len() ==> (#[trigger] npc_column@[i]).wf(),
        forall|j: int| 0 <= j < public_memory@.len() ==> (#[trigger] public_memory@[j]).1.wf(),
        public_memory@.len() <= (trace_len as int) / (PUBLIC_MEMORY_STEP as int),
    ensures
        (r is Ok) <==> ordering_ok(npc_column@, public_memory@, trace_len as int),
        r is Ok ==> memory_column_ok(r->Ok_0@, npc_column@, public_memory@, trace_len as int),
        r is Err ==> ordering_err_witness(
            r->Err_0,
            ordered_accesses(npc_column@, public_memory@),
            (trace_len as int) / (PUBLIC_MEMORY_STEP as int),
        ),
{
    proof {
        lemma_geometry(trace_len as int);
    }
    let half: usize = trace_len / 2;
    let nd: usize = trace_len / 8;

    // the accesses in program execution order, then the declared public memory
    let mut accesses: Vec<(Felt, Felt)> = Vec::new();
    let mut k: usize = 0;
    while k < half
        invariant
            half == trace_len / 2,
            2 * half <= trace_len,
            trace_len as int == 2 * half,
            npc_column@.len() == trace_len,
            forall|i: int| 0 <= i < npc_column@.len() ==> (#[trigger] npc_column@[i]).wf(),
            k <= half,
            accesses@.len() == k,
            forall|j: int|
                0 <= j < k ==> #[trigger] accesses@[j] == (
                    npc_column@[2 * j],
                    npc_column@[2 * j + 1],
                ),
        decreases half - k,
    {
        let a = npc_column[2 * k];
        let v = npc_column[2 * k + 1];
        accesses.push((a, v));
        k += 1;
    }
    assert(accesses@ =~= program_order_accesses(npc_column@));
    let ghost po = accesses@;
    let mut j: usize = 0;
    while j < public_memory.len()
        invariant
            j <= public_memory@.len(),
            accesses@.len() == po.len() + j,
            forall|i: int| 0 <= i < po.len() ==> #[trigger] accesses@[i] == po[i],
            forall|i: int| 0 <= i < public_memory@.len() ==> (#[trigger] public_memory@[i]).1.wf(),
            forall|i: int|
                po.len() <= i < accesses@.len() ==> #[trigger] accesses@[i] == (
                    felt_of_u64(public_memory@[i - po.len()].0),
                    public_memory@[i - po.len()].1,
                ),
        decreases public_memory.len() - j,
    {
        let (a, v) = public_memory[j];
        let fa = from_u64(a);
        accesses.push((fa, v));
        j += 1;
    }
    assert(accesses@ =~= all_accesses(npc_column@, public_memory@));
    assert forall|i: int| 0 <= i < accesses@.len() implies (#[trigger] accesses@[i]).0.wf()
        && accesses@[i].1.wf() by {
        if i < po.len() {
        } else {
            assert(accesses@[i] == (
                felt_of_u64(public_memory@[i - po.len()].0),
                public_memory@[i - po.len()].1,
            ));
        }
    }

    let sorted = sort_accesses(accesses);
    let ghost s = sorted@;
    proof {
        lemma_sorted_elements_wf(s, all_accesses(npc_column@, public_memory@));
        assert(s == ordered_accesses(npc_column@, public_memory@));
    }

    let zero = from_u64(0);
    let one = from_u64(1);

    // the dummy zero accesses contributed by the empty public-memory slots
    let mut k: usize = 0;
    while k < nd
        invariant
            k <= nd,
            nd < sorted@.len(),
            sorted@ == s,
            zero == felt_of_u64(0),
            forall|i: int| 0 <= i < s.len() ==> (#[trigger] s[i]).0.wf() && s[i].1.wf(),
            forall|i: int| 0 <= i < k ==> (#[trigger] s[i]).0.val() == 0 && s[i].1.val() == 0,
        decreases nd - k,
    {
        let (a, v) = sorted[k];
        proof {
            lemma_val_injective(a, felt_of_u64(0));
            lemma_val_injective(v, felt_of_u64(0));
        }
        if !(a == zero && v == zero) {
            proof {
                assert(s[k as int] == (a, v));
                assert(!dummies_ok(s, nd as int));
            }
            return Err(TraceError::NonZeroDummyAccess { index: k, address: a, value: v });
        }
        k += 1;
    }
    assert(dummies_ok(s, nd as int));

    // by protocol the first surviving access sits at address 1
    let (fa, _fv) = sorted[nd];
    proof {
        lemma_val_injective(fa, felt_of_u64(1));
    }
    if !(fa == one) {
        proof {
            assert(fa == s[nd as int].0);
            assert(!first_address_ok(s, nd as int));
        }
        return Err(TraceError::FirstAddressNotOne { address: fa });
    }
    assert(first_address_ok(s, nd as int));

    // continuity and single-valuedness of the surviving accesses
    let mut k: usize = nd;
    while k < sorted.len() - 1
        invariant
            nd <= k <= sorted@.len(),
            nd < sorted@.len(),
            sorted@ == s,
            one == felt_of_u64(1),
            forall|i: int| 0 <= i < s.len() ==> (#[trigger] s[i]).0.wf() && s[i].1.wf(),
            forall|i: int| nd <= i < k ==> continuous_pair(#[trigger] s[i], s[i + 1]),
        decreases sorted@.len() - k,
    {
        let (a, v) = sorted[k];
        let (a2, v2) = sorted[k + 1];
        let succ = felt_add(&a, &one);
        proof {
            lemma_val_injective(a, a2);
            lemma_val_injective(v, v2);
            lemma_val_injective(a2, succ);
        }
        if !((a == a2 && v == v2) || a2 == succ) {
            proof {
                assert(s[k as int] == (a, v));
                assert(s[k as int + 1] == (a2, v2));
                assert(!continuous_pair(s[k as int], s[k as int + 1]));
                assert(!continuity_ok(s, nd as int));
            }
            return Err(TraceError::DiscontinuousMemory {
                index: k - nd,
                address: a,
                value: v,
                next_address: a2,
                next_value: v2,
            });
        }
        k += 1;
    }
    assert(continuity_ok(s, nd as int));

    // the highest access pads the tail, so its address must equal its value
    let (pa, pv) = sorted[sorted.len() - 1];
    proof {
        lemma_val_injective(pa, pv);
        assert(s.last() == (pa, pv));
    }
    if !(pa == pv) {
        proof {
            assert(!padding_access_ok(s));
        }
        return Err(TraceError::PaddingAccessMismatch { address: pa, value: pv });
    }
    assert(padding_access_ok(s));

    // flatten the surviving accesses and pad to the trace length
    let ghost kept = s.skip(nd as int);
    let mut col: Vec<Felt> = Vec::new();
    let mut k: usize = nd;
    while k < sorted.len()
        invariant
            nd <= k <= sorted@.len(),
            sorted@ == s,
            kept == s.skip(nd as int),
            forall|i: int| 0 <= i < s.len() ==> (#[trigger] s[i]).0.wf() && s[i].1.wf(),
            col@.len() == 2 * (k - nd),
            forall|i: int|
                0 <= i < col@.len() ==> #[trigger] col@[i] == (if i % 2 == 0 {
                    kept[i / 2].0
                } else {
                    kept[i / 2].1
                }),
            forall|i: int| 0 <= i < col@.len() ==> (#[trigger] col@[i]).wf(),
        decreases sorted@.len() - k,
    {
        let (a, v) = sorted[k];
        col.push(a);
        col.push(v);
        k += 1;
    }
    proof {
        assert(2 * kept.len() == col@.len());
        assert(kept.last() == s.last());
    }
    while col.len() < trace_len
        invariant
            2 * kept.len() <= col@.len() <= trace_len,
            kept.len() > 0,
            pv == kept.last().1,
            pv.wf(),
            forall|i: int|
                0 <= i < 2 * kept.len() ==> #[trigger] col@[i] == (if i % 2 == 0 {
                    kept[i / 2].0
                } else {
                    kept[i / 2].1
                }),
            forall|i: int| 2 * kept.len() <= i < col@.len() ==> #[trigger] col@[i] == kept.last().1,
            forall|i: int| 0 <= i < col@.len() ==> (#[trigger] col@[i]).wf(),
        decreases trace_len - col.len(),
    {
        col.push(pv);
    }
    assert(memory_column_ok(col@, npc_column@, public_memory@, trace_len as int));
    Ok(col)
}

} // verus!
