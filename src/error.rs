use vstd::prelude::*;

verus! {

/// Every way in which building a transaction from its textual parts can fail.
#[derive(Debug, Clone, Copy, PartialEq, Eq, Structural)]
pub enum TxError {
    /// Malformed type or literal syntax, or a literal that contradicts its declared type.
    ParseError,
    /// A numeric literal that does not fit in its width.
    OverflowError,
    /// The number of arguments disagrees with the function's parameter list.
    ArityMismatch { expected: usize, actual: usize },
    /// A malformed `<address>::<module>::<function>` string.
    InvalidIdentifier,
    /// Key or signature material of the wrong length.
    InvalidKey,
    /// Returned bytes that do not match the expected type layout.
    DecodeError,
}

} // verus!
