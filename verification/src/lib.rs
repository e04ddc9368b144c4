//! Construction of the algebraic execution trace of a Cairo-style virtual
//! machine run: the column-major table of field elements a STARK prover
//! consumes, together with the memory-consistency ordering and the
//! randomized permutation column.

pub mod errors;
pub mod field;
pub mod layout;
pub mod memory;
pub mod permutation;
pub mod trace;
