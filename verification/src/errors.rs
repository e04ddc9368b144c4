//! The fatal conditions trace construction can run into. Each carries the
//! offending position and values, so a caller can tell which invariant of
//! the inputs (or which challenge draw) was bad.

use vstd::prelude::*;
use crate::field::Felt;

verus! {

/// Why a trace could not be built.
#[derive(Clone, Copy, PartialEq, Eq, Structural, Debug)]
pub enum TraceError {
    /// A dummy slot of the sorted memory accesses held something other than
    /// the zero pair.
    NonZeroDummyAccess { index: usize, address: Felt, value: Felt },
    /// The first surviving sorted memory access is not at address 1.
    FirstAddressNotOne { address: Felt },
    /// Two adjacent sorted accesses neither repeat the same cell nor advance
    /// the address by exactly one. The index counts within the stripped,
    /// sorted list.
    DiscontinuousMemory {
        index: usize,
        address: Felt,
        value: Felt,
        next_address: Felt,
        next_value: Felt,
    },
    /// The highest sorted access, used to pad the memory column, does not
    /// have its address equal to its value.
    PaddingAccessMismatch { address: Felt, value: Felt },
    /// A permutation denominator came out zero: the challenges collide with
    /// an access and must be redrawn by the caller.
    ChallengeCollision { index: usize },
}

} // verus!
