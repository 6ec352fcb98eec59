//! What can end a run.
use vstd::prelude::*;

verus! {

/// The failures of the library. Each one ends the run it comes from.
#[derive(Debug, Clone, Copy, PartialEq, Eq, Structural)]
pub enum Error {
    /// The program's brackets are not balanced and properly nested.
    UnpairedBrackets,
    /// A wide cell printed a value that is no Unicode scalar value.
    InvalidUnicode,
    /// A 16-bit cell printed a surrogate code point, which one cell
    /// cannot express alone.
    UnsupportedWidthForValue,
    /// A `<` was run with the tape cursor at the origin.
    CursorBeforeOrigin,
    /// A `>` was run with the tape cursor at the last address the machine
    /// can hold.
    TapeExhausted,
}

impl Error {
    /// A short description of the failure.
    pub fn message(&self) -> &'static str {
        match self {
            Error::UnpairedBrackets => "unpaired brackets",
            Error::InvalidUnicode => "cell value is not a Unicode scalar value",
            Error::UnsupportedWidthForValue => "a 16-bit cell cannot print a surrogate code point",
            Error::CursorBeforeOrigin => "tape cursor moved before the origin",
            Error::TapeExhausted => "tape cursor moved past the last address",
        }
    }
}

} // verus!
