//! The prime field the trace is built over: integers modulo the STARK prime
//! `p = 2^251 + 17 * 2^192 + 1`. An element is held as four little-endian
//! 64-bit limbs of its canonical (fully reduced) value, so that contracts can
//! speak of the element's integer value directly; the modular arithmetic
//! itself is delegated to an outside big-integer field implementation.

use vstd::prelude::*;

verus! {

/// The STARK prime `2^251 + 17 * 2^192 + 1`.
pub open spec fn stark_p() -> int {
    0x800000000000011000000000000000000000000000000000000000000000001int
}

/// A field element, stored as the four little-endian 64-bit limbs of its
/// canonical value. Well-formed elements (see [`Felt::wf`]) hold a value
/// below the prime.
#[derive(Clone, Copy, PartialEq, Eq, Structural, Debug)]
pub struct Felt {
    pub l0: u64,
    pub l1: u64,
    pub l2: u64,
    pub l3: u64,
}

impl Felt {
    /// The integer this element stands for.
    pub open spec fn val(self) -> int {
        self.l0 as int + (self.l1 as int) * 0x10000000000000000int
            + (self.l2 as int) * 0x100000000000000000000000000000000int
            + (self.l3 as int) * 0x1000000000000000000000000000000000000000000000000int
    }

    /// A well-formed element holds its canonical value: below the prime.
    pub open spec fn wf(self) -> bool {
        self.val() < stark_p()
    }
}

/// The element with a given small value.
pub open spec fn felt_of_u64(x: u64) -> Felt {
    Felt { l0: x, l1: 0, l2: 0, l3: 0 }
}

/// Builds the field element for a value that fits in one limb.
pub fn from_u64(x: u64) -> (r: Felt)
    ensures
        r == felt_of_u64(x),
        r.wf(),
        r.val() == x,
{
    Felt { l0: x, l1: 0, l2: 0, l3: 0 }
}

/// Limb-lexicographic comparison agrees with comparison of the values,
/// because the limbs are the base-2^64 digits of the value.
pub proof fn lemma_val_lt(a: Felt, b: Felt)
    ensures
        (a.val() < b.val()) <==> (a.l3 < b.l3 || (a.l3 == b.l3 && (a.l2 < b.l2 || (a.l2 == b.l2
            && (a.l1 < b.l1 || (a.l1 == b.l1 && a.l0 < b.l0)))))),
{
}

/// Distinct limb quadruples stand for distinct values, and conversely.
pub proof fn lemma_val_injective(a: Felt, b: Felt)
    ensures
        (a.val() == b.val()) <==> (a == b),
{
    lemma_val_lt(a, b);
    lemma_val_lt(b, a);
}

/// Compares two elements by value.
pub fn felt_lt(a: &Felt, b: &Felt) -> (r: bool)
    ensures
        r == (a.val() < b.val()),
{
    proof {
        lemma_val_lt(*a, *b);
    }
    if a.l3 != b.l3 {
        a.l3 < b.l3
    } else if a.l2 != b.l2 {
        a.l2 < b.l2
    } else if a.l1 != b.l1 {
        a.l1 < b.l1
    } else {
        a.l0 < b.l0
    }
}

/// Addition modulo the prime.
pub open spec fn add_p(a: int, b: int) -> int {
    (a + b) % stark_p()
}

/// Subtraction modulo the prime.
pub open spec fn sub_p(a: int, b: int) -> int {
    (a - b) % stark_p()
}

/// Multiplication modulo the prime.
pub open spec fn mul_p(a: int, b: int) -> int {
    (a * b) % stark_p()
}

/// Relies on `starknet_types_core::felt::Felt`: `from_bytes_le` builds the
/// element whose canonical value the bytes spell (our invariant keeps it
/// below the prime, so no reduction happens), `Add` adds modulo the prime,
/// and `to_le_digits` returns the canonical little-endian 64-bit digits.
#[verifier::external_body]
pub(crate) fn felt_add(a: &Felt, b: &Felt) -> (r: Felt)
    requires
        a.wf(),
        b.wf(),
    ensures
        r.wf(),
        r.val() == add_p(a.val(), b.val()),
{
    let mut ab = [0u8; 32];
    let mut bb = [0u8; 32];
    let al = [a.l0, a.l1, a.l2, a.l3];
    let bl = [b.l0, b.l1, b.l2, b.l3];
    for i in 0..4 {
        ab[i * 8..i * 8 + 8].copy_from_slice(&al[i].to_le_bytes());
        bb[i * 8..i * 8 + 8].copy_from_slice(&bl[i].to_le_bytes());
    }
    let x = starknet_types_core::felt::Felt::from_bytes_le(&ab);
    let y = starknet_types_core::felt::Felt::from_bytes_le(&bb);
    let d = (x + y).to_le_digits();
    Felt { l0: d[0], l1: d[1], l2: d[2], l3: d[3] }
}

/// Relies on `starknet_types_core::felt::Felt`: `Sub` subtracts modulo the
/// prime; conversions as in [`felt_add`].
#[verifier::external_body]
pub(crate) fn felt_sub(a: &Felt, b: &Felt) -> (r: Felt)
    requires
        a.wf(),
        b.wf(),
    ensures
        r.wf(),
        r.val() == sub_p(a.val(), b.val()),
{
    let mut ab = [0u8; 32];
    let mut bb = [0u8; 32];
    let al = [a.l0, a.l1, a.l2, a.l3];
    let bl = [b.l0, b.l1, b.l2, b.l3];
    for i in 0..4 {
        ab[i * 8..i * 8 + 8].copy_from_slice(&al[i].to_le_bytes());
        bb[i * 8..i * 8 + 8].copy_from_slice(&bl[i].to_le_bytes());
    }
    let x = starknet_types_core::felt::Felt::from_bytes_le(&ab);
    let y = starknet_types_core::felt::Felt::from_bytes_le(&bb);
    let d = (x - y).to_le_digits();
    Felt { l0: d[0], l1: d[1], l2: d[2], l3: d[3] }
}

/// Relies on `starknet_types_core::felt::Felt`: `Mul` multiplies modulo the
/// prime; conversions as in [`felt_add`].
#[verifier::external_body]
pub(crate) fn felt_mul(a: &Felt, b: &Felt) -> (r: Felt)
    requires
        a.wf(),
        b.wf(),
    ensures
        r.wf(),
        r.val() == mul_p(a.val(), b.val()),
{
    let mut ab = [0u8; 32];
    let mut bb = [0u8; 32];
    let al = [a.l0, a.l1, a.l2, a.l3];
    let bl = [b.l0, b.l1, b.l2, b.l3];
    for i in 0..4 {
        ab[i * 8..i * 8 + 8].copy_from_slice(&al[i].to_le_bytes());
        bb[i * 8..i * 8 + 8].copy_from_slice(&bl[i].to_le_bytes());
    }
    let x = starknet_types_core::felt::Felt::from_bytes_le(&ab);
    let y = starknet_types_core::felt::Felt::from_bytes_le(&bb);
    let d = (x * y).to_le_digits();
    Felt { l0: d[0], l1: d[1], l2: d[2], l3: d[3] }
}

/// Relies on `starknet_types_core::felt::Felt::inverse`: the multiplicative
/// inverse modulo the prime, defined for every non-zero element; conversions
/// as in [`felt_add`].
#[verifier::external_body]
pub(crate) fn felt_inv(a: &Felt) -> (r: Felt)
    requires
        a.wf(),
        a.val() != 0,
    ensures
        r.wf(),
        mul_p(r.val(), a.val()) == 1,
{
    let mut ab = [0u8; 32];
    let al = [a.l0, a.l1, a.l2, a.l3];
    for i in 0..4 {
        ab[i * 8..i * 8 + 8].copy_from_slice(&al[i].to_le_bytes());
    }
    let x = starknet_types_core::felt::Felt::from_bytes_le(&ab);
    let d = x.inverse().unwrap().to_le_digits();
    Felt { l0: d[0], l1: d[1], l2: d[2], l3: d[3] }
}

} // verus!
