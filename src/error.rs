//! The failures that decoding a field can report.
use vstd::prelude::*;

verus! {

/// Why a field could not be read back.
#[derive(Debug)]
pub enum ReprError {
    /// The text is not URL-safe base64; it carries the offending text.
    MalformedText(String),
    /// The decoded byte count `len` is not a multiple of the element width `width`.
    LengthMismatch { len: usize, width: usize },
    /// The decoded bytes are not UTF-8.
    InvalidUtf8,
}

} // verus!
