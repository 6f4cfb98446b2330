use vstd::prelude::*;

verus! {

/// Why a byte sequence could not be decoded.
#[derive(Debug, Clone, Copy, PartialEq, Eq, Structural)]
pub enum DecodeError {
    /// The input ended before the value was complete.
    UnexpectedEnd,
    /// A boolean byte other than 0 or 1.
    InvalidBool,
    /// A string whose bytes are not UTF-8.
    InvalidUtf8,
    /// A map whose entries name the same key twice.
    DuplicateKey,
    /// An enum tag that names no variant.
    UnknownVariant,
}

} // verus!
