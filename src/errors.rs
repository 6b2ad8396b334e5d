use vstd::prelude::*;

verus! {

/// Why a value could not be read back from bytes.
#[derive(Debug, Clone, Copy, PartialEq, Eq, Structural)]
pub enum DecodeError {
    /// The input ended before the value did (short read or closed stream).
    IO,
    /// A boolean byte held something other than 0 or 1.
    NonBoolValue,
    /// The bytes of a string were not valid UTF-8.
    FromUtf8,
}

/// Why a value could not be written as bytes.
#[derive(Debug, Clone, Copy, PartialEq, Eq, Structural)]
pub enum EncodeError {
    /// The transport refused the bytes.
    IO,
    /// A length did not fit its `u32` prefix.
    TryFromInt,
}

} // verus!
