//! Errors reported by streams, readers and writers.
use vstd::prelude::*;

verus! {

/// Everything that can go wrong while reading or writing.
#[derive(Clone, Copy, Debug, PartialEq, Eq, Structural)]
pub enum BinaryError {
    /// The underlying medium failed to read, write, seek or flush.
    Io,
    /// Fewer bytes remain than the read requires.
    UnexpectedEndOfData,
    /// The bytes of a string are not UTF-8; `length` is how many were read.
    InvalidUtf8 { length: usize },
    /// A 32-bit value is not a Unicode scalar value.
    InvalidCharacter,
    /// A length exceeds the configured ceiling.
    BufferTooLarge { requested: usize, limit: usize },
    /// A write was attempted on a medium that can only be read.
    ReadOnly,
}

/// Result of an operation on a stream.
pub type BinaryResult<T> = Result<T, BinaryError>;

} // verus!
