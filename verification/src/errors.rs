//! Error kinds reported when validating or interpreting a parameter value.

use vstd::prelude::*;

verus! {

/// Error validating a parameter value or interpreting it as a decimal.
#[derive(Clone, Copy, Debug, PartialEq, Eq, Structural)]
pub enum ParseError {
    /// The candidate text exceeds the maximum length; also reported when a
    /// decimal interpretation overflows the 32-bit unsigned range.
    TooLong,
    /// The candidate text for decimal interpretation is empty.
    Empty,
    /// The first character violating the rule in force, in scan order.
    InvalidChar(char),
}

/// Error decoding B64-encoded binary data.
#[derive(Clone, Copy, Debug, PartialEq, Eq, Structural)]
pub enum B64Error {
    /// The text is not valid B64: an invalid symbol or trailing bits.
    InvalidEncoding,
    /// The text's length is not a valid B64 length, or the output buffer is
    /// too small to hold the decoded bytes.
    InvalidLength,
}

} // verus!
