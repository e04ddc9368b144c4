//! The randomized permutation column. Given the verifier challenges `z` and
//! `alpha`, every memory pair `(a, v)` is hashed to the field value
//! `z - (a + alpha * v)`, and the column carries the running product of the
//! program-order hashes divided by the address-order hashes. The product
//! telescopes to 1 exactly when the two orderings hold the same multiset of
//! pairs, which is what ties the sorted memory column to the control-flow
//! column.

use vstd::prelude::*;
use vstd::arithmetic::div_mod::{
    lemma_mod_bound,
    lemma_mul_mod_noop_left,
    lemma_mul_mod_noop_right,
    lemma_small_mod,
};
use vstd::arithmetic::mul::lemma_mul_is_associative;
use crate::errors::TraceError;
use crate::field::{
    Felt,
    add_p,
    felt_add,
    felt_inv,
    felt_mul,
    felt_of_u64,
    felt_sub,
    from_u64,
    lemma_val_injective,
    mul_p,
    stark_p,
    sub_p,
};

verus! {

/// The hash `z - (a + alpha * v)` of the `k`-th `(address, value)` pair of
/// a column read at the memory-pair stride.
pub open spec fn access_term(col: Seq<Felt>, z: Felt, alpha: Felt, k: int) -> int {
    sub_p(z.val(), add_p(col[2 * k].val(), mul_p(alpha.val(), col[2 * k + 1].val())))
}

/// The challenges are usable for the given address-order column: no
/// denominator of the running product vanishes.
pub open spec fn challenges_ok(address_order: Seq<Felt>, z: Felt, alpha: Felt) -> bool {
    forall|k: int|
        0 <= k < address_order.len() / 2 ==> #[trigger] access_term(address_order, z, alpha, k)
            != 0
}

/// The running product before the `i`-th row is written: 1 at the start,
/// afterwards the value two rows up.
pub open spec fn prev_acc(col: Seq<Felt>, i: int) -> int {
    if i == 0 {
        1
    } else {
        col[i - 2].val()
    }
}

/// What the permutation column satisfies: zero off the memory-pair grid,
/// and on it a running product obeying
/// `acc[k] * den[k] = acc[k-1] * num[k]` modulo the prime, with `num` the
/// program-order hash and `den` the address-order hash of the `k`-th pair.
pub open spec fn permutation_column_ok(
    col: Seq<Felt>,
    program_order: Seq<Felt>,
    address_order: Seq<Felt>,
    z: Felt,
    alpha: Felt,
) -> bool {
    &&& col.len() == program_order.len()
    &&& forall|i: int| 0 <= i < col.len() ==> (#[trigger] col[i]).wf()
    &&& forall|i: int| 0 <= i < col.len() && i % 2 == 1 ==> (#[trigger] col[i]).val() == 0
    &&& forall|i: int|
        0 <= i < col.len() && i % 2 == 0 ==> mul_p(
            (#[trigger] col[i]).val(),
            access_term(address_order, z, alpha, i / 2),
        ) == mul_p(prev_acc(col, i), access_term(program_order, z, alpha, i / 2))
}

/// One step of the running product: multiplying by a hash and by the
/// inverse of another hash relates the new accumulator to the old one.
proof fn lemma_acc_update(a: int, n: int, i: int, d: int)
    requires
        mul_p(i, d) == 1,
    ensures
        mul_p(mul_p(mul_p(a, n), i), d) == mul_p(a, n),
{
    let p = stark_p();
    let t = (a * n) % p;
    lemma_mod_bound(a * n, p);
    lemma_mul_mod_noop_left(t * i, d, p);
    lemma_mul_is_associative(t, i, d);
    lemma_mul_mod_noop_right(t, i * d, p);
    lemma_small_mod(t as nat, p as nat);
}

/// Builds the permutation column for a program-order and an address-order
/// view of the memory pairs, under the challenges `z` and `alpha`.
///
/// Succeeds exactly when no address-order hash equals zero; otherwise the
/// first offending pair index is reported, and the caller must redraw its
/// challenges.
#[verifier::loop_isolation(false)]
pub fn compute_permutation_column(
    program_order: &Vec<Felt>,
    address_order: &Vec<Felt>,
    z: &Felt,
    alpha: &Felt,
) -> (r: Result<Vec<Felt>, TraceError>)
    requires
        program_order@.len() == address_order@.len(),
        program_order@.len() % 2 == 0,
        forall|i: int| 0 <= i < program_order@.len() ==> (#[trigger] program_order@[i]).wf(),
        forall|i: int| 0 <= i < address_order@.len() ==> (#[trigger] address_order@[i]).wf(),
        z.wf(),
        alpha.wf(),
    ensures
        (r is Ok) <==> challenges_ok(address_order@, *z, *alpha),
        r is Ok ==> permutation_column_ok(r->Ok_0@, program_order@, address_order@, *z, *alpha),
        r is Err ==> match r->Err_0 {
            TraceError::ChallengeCollision { index } => {
                &&& 0 <= index < address_order@.len() / 2
                &&& access_term(address_order@, *z, *alpha, index as int) == 0
                &&& forall|j: int|
                    0 <= j < index ==> #[trigger] access_term(address_order@, *z, *alpha, j) != 0
            },
            _ => false,
        },
{
    let n = program_order.len();
    let m = n / 2;
    let zero = from_u64(0);
    let mut col: Vec<Felt> = Vec::new();
    let mut acc = from_u64(1);
    let mut k: usize = 0;
    while k < m
        invariant
            k <= m,
            col@.len() == 2 * k,
            acc.wf(),
            acc.val() == prev_acc(col@, 2 * k),
            forall|i: int| 0 <= i < col@.len() ==> (#[trigger] col@[i]).wf(),
            forall|i: int| 0 <= i < col@.len() && i % 2 == 1 ==> (#[trigger] col@[i]).val() == 0,
            forall|i: int|
                0 <= i < col@.len() && i % 2 == 0 ==> mul_p(
                    (#[trigger] col@[i]).val(),
                    access_term(address_order@, *z, *alpha, i / 2),
                ) == mul_p(prev_acc(col@, i), access_term(program_order@, *z, *alpha, i / 2)),
            forall|j: int| 0 <= j < k ==> #[trigger] access_term(address_order@, *z, *alpha, j)
                != 0,
        decreases m - k,
    {
        let pa = program_order[2 * k];
        let pv = program_order[2 * k + 1];
        let aa = address_order[2 * k];
        let av = address_order[2 * k + 1];
        let num = felt_sub(z, &felt_add(&pa, &felt_mul(alpha, &pv)));
        let den = felt_sub(z, &felt_add(&aa, &felt_mul(alpha, &av)));
        proof {
            assert(num.val() == access_term(program_order@, *z, *alpha, k as int));
            assert(den.val() == access_term(address_order@, *z, *alpha, k as int));
            lemma_val_injective(den, felt_of_u64(0));
        }
        if den == zero {
            return Err(TraceError::ChallengeCollision { index: k });
        }
        let inv = felt_inv(&den);
        let ghost acc0 = acc;
        acc = felt_mul(&felt_mul(&acc, &num), &inv);
        proof {
            lemma_acc_update(acc0.val(), num.val(), inv.val(), den.val());
        }
        let ghost col0 = col@;
        col.push(acc);
        col.push(zero);
        proof {
            assert forall|i: int| 0 <= i < col@.len() && i % 2 == 0 implies mul_p(
                (#[trigger] col@[i]).val(),
                access_term(address_order@, *z, *alpha, i / 2),
            ) == mul_p(prev_acc(col@, i), access_term(program_order@, *z, *alpha, i / 2)) by {
                if i < col0.len() {
                    assert(col@[i] == col0[i]);
                    assert(prev_acc(col@, i) == prev_acc(col0, i));
                } else {
                    assert(i == 2 * k);
                    assert(col@[i] == acc);
                    assert(prev_acc(col@, i) == acc0.val());
                }
            }
        }
        k += 1;
    }
    Ok(col)
}

} // verus!
