//! Error taxonomy for the PIN-block computation.

use vstd::prelude::*;

verus! {

/// Result type used throughout the crate.
pub type CipherResult<R> = Result<R, CipherError>;

/// One variant per failure kind, each carrying a descriptive message.
#[derive(Debug)]
pub enum CipherError {
    /// The PIN holds a non-digit character or its length is outside [4, 12].
    InvalidPin(String),
    /// The PAN holds a non-digit character or its length is outside [16, 19].
    IncorrectPan(String),
    /// A key failed validation (reserved for key handling).
    InvalidKey(String),
    /// The padding helper was asked to shrink a string.
    ErrorProcessingString(String),
    /// The two half-blocks disagreed in length after construction.
    InternalError(String),
    /// A value failed a content check (reserved).
    InvalidContent(String),
    /// Hex decoding of a half-block failed.
    ParsingError(String),
}

} // verus!
