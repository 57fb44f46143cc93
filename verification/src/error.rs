use vstd::prelude::*;

verus! {

/// The ways an encode or decode operation can fail. Every failure is
/// reported to the immediate caller; no operation returns a partial value.
#[derive(Clone, Copy, Debug, PartialEq, Eq, Structural)]
pub enum CodecError {
    /// The input buffer is shorter than the encoding requires.
    InvalidLength,
    /// A tag byte is not one of the recognized values (a boolean byte other
    /// than 0 or 1, or an unrecognized compact-integer mode byte).
    InvalidTag,
    /// The decoded bytes are not valid UTF-8.
    InvalidEncoding,
    /// An address string is not ASCII, holds a non-hex digit, or holds more
    /// than 40 hex digits after an optional `0x`/`0X` prefix is stripped.
    InvalidAddressFormat,
    /// A value falls outside the range the encoding can represent.
    NumericOverflow,
}

} // verus!
