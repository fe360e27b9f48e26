//! Why a vocabulary file could not be read.

use vstd::prelude::*;

verus! {

/// The first fault found in a vocabulary file.
#[derive(Debug, Clone, Copy, PartialEq, Eq, Structural)]
pub enum VocabError {
    /// A line lacks the space between its two fields.
    MissingSeparator,
    /// A legacy merge line holds a code point that stands for no byte.
    UndecodableCodePoint,
    /// The first field of a compact line is not valid base64.
    InvalidBase64,
    /// The second field of a compact line is not a decimal rank.
    InvalidRankInteger,
}

} // verus!
