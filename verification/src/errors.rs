//! Typed decode failures surfaced by the codec layer.
//!
//! Every failure is returned to the caller; nothing is logged and swallowed
//! inside this layer, and no unknown wire tag is ever coerced to a default
//! variant.

use vstd::prelude::*;

verus! {

/// The ways a decode can fail, with enough context for the boundary caller
/// to diagnose a node-format mismatch.
#[derive(Debug, Clone, Copy, PartialEq, Eq, Structural)]
pub enum DecodeError {
    /// A hex string held a character outside `[0-9a-fA-F]`, had an odd
    /// number of digits where bytes were expected, or encoded a magnitude
    /// that exceeds the target integer width.
    MalformedHex,
    /// A sum-type tag byte outside the type's declared discriminant table;
    /// the offending tag is carried verbatim.
    UnknownDiscriminant(u8),
    /// The input ran out of bytes in the middle of a decode, or a length
    /// prefix asked for more bytes than the input still holds.
    TruncatedInput,
    /// A fixed-size field had the wrong length: expected, then actual.
    InvalidFixedSize(u32, u32),
    /// A compact length prefix that is non-canonical or out of range for
    /// a 32-bit quantity.
    MalformedCompact,
}

} // verus!
