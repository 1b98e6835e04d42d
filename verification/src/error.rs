//! The ways in which a lyrics operation fails.

use vstd::prelude::*;

verus! {

/// Why a lyrics operation gave no result.
#[derive(Debug, Clone, Copy, PartialEq, Eq, Structural)]
pub enum LyricsError {
    /// The matcher refused the line pattern.
    Pattern,
    /// A numeric field of a line is not a decimal number that fits the field.
    Number,
    /// The operation needs a line that the lyrics do not have.
    OutOfRange,
}

} // verus!
