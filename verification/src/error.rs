//! Why instruction data could not be unpacked.

use vstd::prelude::*;

verus! {

/// The ways in which unpacking instruction data fails.
#[derive(Clone, Copy, Debug, PartialEq, Eq)]
pub enum UnpackError {
    /// The data is too short, names no known instruction, or declares a
    /// string longer than the bytes that follow.
    InvalidInstructionData,
    /// The bytes after the discriminator are not an encoding of the
    /// instruction's data: a byte that is no boolean, option flag or field
    /// index, a string that is not UTF-8, too few bytes, or bytes left over.
    BorshIoError,
}

} // verus!
