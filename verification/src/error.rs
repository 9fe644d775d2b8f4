//! Error taxonomy of the message-processing core.

use vstd::prelude::*;

verus! {

/// A whole frame could not be decoded.
#[derive(Debug, Clone, Copy, PartialEq, Eq, Structural)]
pub enum DecodeError {
    /// The buffer is shorter than the 8-byte frame header.
    ShortFrame,
    /// A hex string had odd length or a non-hex digit (offline decode only).
    BadHex,
}

/// One schema fragment could not be decoded; the fragment is skipped and
/// the rest of the message is still processed.
#[derive(Debug, Clone, Copy, PartialEq, Eq, Structural)]
pub enum FragmentError {
    /// The fragment's slice lies outside the payload body, or a numeric
    /// fragment is wider than the four bytes it is assembled into.
    SliceOutOfRange,
    /// A date fragment held an out-of-range component.
    BadDate,
}

impl DecodeError {
    /// Stable label, used where the surrounding program logs the error.
    pub fn label(&self) -> (r: &'static str)
        ensures
            *self is ShortFrame ==> r@ == "SHORT_FRAME"@,
            *self is BadHex ==> r@ == "BAD_HEX"@,
    {
        match self {
            DecodeError::ShortFrame => "SHORT_FRAME",
            DecodeError::BadHex => "BAD_HEX",
        }
    }
}

impl FragmentError {
    /// Stable label, used where the surrounding program logs the error.
    pub fn label(&self) -> (r: &'static str)
        ensures
            *self is SliceOutOfRange ==> r@ == "SLICE_OUT_OF_RANGE"@,
            *self is BadDate ==> r@ == "BAD_DATE"@,
    {
        match self {
            FragmentError::SliceOutOfRange => "SLICE_OUT_OF_RANGE",
            FragmentError::BadDate => "BAD_DATE",
        }
    }
}

} // verus!
