//! The ways in which a request to this library can be refused.

use vstd::prelude::*;

verus! {

/// Why a request was refused.
#[derive(Clone, Copy, Debug, PartialEq, Eq, Structural)]
pub enum Error {
    /// More values than the ciphertext has slots.
    BatchSlots,
    /// A size that has to be a power of two (of at most `2^28`) is none.
    NotPowerOfTwo,
    /// The dimension is zero or too large, is not the product of the two
    /// step counts, or a vector does not have the matrix's dimension.
    Dimension,
    /// The slots are neither twice the dimension nor more than four times
    /// the dimension.
    Packing,
    /// A rotation was asked for by a step for which no key was generated.
    MissingKey { step: i32 },
    /// An instruction names a register or a plaintext that is not there.
    InvalidProgram,
}

} // verus!
