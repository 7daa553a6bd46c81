//! Error taxonomy of the codec. Decoding fails fast on the first malformed
//! byte; encoding can only fail on a structure that declares more fields
//! than the wire format can carry.

use vstd::prelude::*;
use crate::ll::marker::Marker;

verus! {

/// Everything that can go wrong while decoding.
#[derive(Debug, Clone, Copy, PartialEq, Eq, Structural)]
pub enum DecodeError {
    /// The input ended although more bytes were needed.
    UnexpectedEndOfStream,
    /// A string body was not valid UTF-8.
    InvalidUtf8,
    /// A marker was read correctly but does not fit what the context requires.
    UnexpectedMarker(Marker),
    /// A byte that matches no defined marker class.
    UnknownMarkerByte(u8),
    /// A size field whose value cannot be used as a size.
    CannotReadSizeInfo,
    /// A structure tag that matches no expected structure type.
    UnexpectedTagByte(u8),
    /// A structure whose declared field count differs from the expected one;
    /// carries the expected count first, the declared one second.
    UnexpectedNumberOfFields(usize, usize),
    /// A structure marker was met while structures are statically forbidden.
    TryingToDecodeNoStruct,
}

/// Everything that can go wrong while encoding.
#[derive(Debug, Clone, Copy, PartialEq, Eq, Structural)]
pub enum EncodeError {
    /// A structure declares more fields than the 4-bit field count can hold.
    TooManyStructFields(usize),
}

} // verus!
