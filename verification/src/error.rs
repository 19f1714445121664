//! Errors surfaced to the driver of a command exchange. Every failure is
//! reported; nothing is retried or swallowed at this layer.

use vstd::prelude::*;

verus! {

/// The closed set of failure kinds this layer can report.
#[derive(Debug, PartialEq, Eq)]
pub enum ApduError {
    /// A reply was too short to carry the mandatory status word, or a
    /// decoded payload ended before a field it promised.
    UnexpectedEof,
    /// A decoded payload's length disagrees with the shape its instruction
    /// requires; carries the instruction code and the actual length.
    ResponseWrongLength(u8, usize),
    /// A reply carried payload bytes where none are expected.
    Unsupported,
    /// The device reported a non-success status word.
    ApduBadStatus(u16),
    /// The device handed back bytes that do not parse as a curve point.
    Secp(secp256k1::Error),
    /// The device handed back bytes that are not valid text.
    Utf8,
}

} // verus!
