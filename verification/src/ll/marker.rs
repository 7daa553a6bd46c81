//! The marker byte model. A `Marker` is the first byte (or, for structures,
//! byte pair) of every encoded value: it names the wire type and may embed a
//! small size or even the value itself.

use vstd::prelude::*;
use crate::error::DecodeError;
use crate::ll::bitops::{combine, get_tiny_size, high_nibble_equals};
use crate::ll::bounds::is_in_plus_tiny_int_bound;
use crate::stream::ByteReader;

verus! {

/// Every first-byte class of the wire format.
///
/// The tiny classes carry their size in the marker's low nibble; `Structure`
/// additionally carries the tag byte that follows the marker byte.
/// `PlusTinyInt` and `MinusTinyInt` carry the read byte itself, which *is*
/// the encoded value.
#[derive(Copy, Clone, Debug, PartialEq, Eq, Structural)]
pub enum Marker {
    TinyString(usize),
    TinyList(usize),
    TinyDictionary(usize),
    Structure(usize, u8),
    PlusTinyInt(u8),
    MinusTinyInt(u8),
    Float64,
    Int8,
    Int16,
    Int32,
    Int64,
    Null,
    True,
    False,
    String8,
    String16,
    String32,
    Bytes8,
    Bytes16,
    Bytes32,
    List8,
    List16,
    List32,
    Dictionary8,
    Dictionary16,
    Dictionary32,
}

/// The type discriminant of a marker without any embedded size or value.
#[derive(Copy, Clone, Debug, PartialEq, Eq, Structural)]
pub enum MarkerHighNibble {
    TinyString,
    TinyList,
    TinyDictionary,
    Structure,
    PlusTinyInt,
    MinusTinyInt,
    Float64,
    Int8,
    Int16,
    Int32,
    Int64,
    Null,
    True,
    False,
    String8,
    String16,
    String32,
    Bytes8,
    Bytes16,
    Bytes32,
    List8,
    List16,
    List32,
    Dictionary8,
    Dictionary16,
    Dictionary32,
}

/// The byte each discriminant stands for: for the nibble classes the high
/// nibble with a zero low nibble, for the fixed classes the full marker byte.
pub open spec fn spec_nibble_byte(n: MarkerHighNibble) -> u8 {
    match n {
        MarkerHighNibble::TinyString => 0x80,
        MarkerHighNibble::TinyList => 0x90,
        MarkerHighNibble::TinyDictionary => 0xA0,
        MarkerHighNibble::Structure => 0xB0,
        MarkerHighNibble::PlusTinyInt => 0x00,
        MarkerHighNibble::MinusTinyInt => 0xF0,
        MarkerHighNibble::Null => 0xC0,
        MarkerHighNibble::Float64 => 0xC1,
        MarkerHighNibble::True => 0xC2,
        MarkerHighNibble::False => 0xC3,
        MarkerHighNibble::Int8 => 0xC8,
        MarkerHighNibble::Int16 => 0xC9,
        MarkerHighNibble::Int32 => 0xCA,
        MarkerHighNibble::Int64 => 0xCB,
        MarkerHighNibble::Bytes8 => 0xCC,
        MarkerHighNibble::Bytes16 => 0xCD,
        MarkerHighNibble::Bytes32 => 0xCE,
        MarkerHighNibble::String8 => 0xD0,
        MarkerHighNibble::String16 => 0xD1,
        MarkerHighNibble::String32 => 0xD2,
        MarkerHighNibble::List8 => 0xD4,
        MarkerHighNibble::List16 => 0xD5,
        MarkerHighNibble::List32 => 0xD6,
        MarkerHighNibble::Dictionary8 => 0xD8,
        MarkerHighNibble::Dictionary16 => 0xD9,
        MarkerHighNibble::Dictionary32 => 0xDA,
    }
}

/// The discriminant of each marker.
pub open spec fn spec_high_nibble(m: Marker) -> MarkerHighNibble {
    match m {
        Marker::TinyString(_) => MarkerHighNibble::TinyString,
        Marker::TinyList(_) => MarkerHighNibble::TinyList,
        Marker::TinyDictionary(_) => MarkerHighNibble::TinyDictionary,
        Marker::Structure(_, _) => MarkerHighNibble::Structure,
        Marker::PlusTinyInt(_) => MarkerHighNibble::PlusTinyInt,
        Marker::MinusTinyInt(_) => MarkerHighNibble::MinusTinyInt,
        Marker::Float64 => MarkerHighNibble::Float64,
        Marker::Int8 => MarkerHighNibble::Int8,
        Marker::Int16 => MarkerHighNibble::Int16,
        Marker::Int32 => MarkerHighNibble::Int32,
        Marker::Int64 => MarkerHighNibble::Int64,
        Marker::Null => MarkerHighNibble::Null,
        Marker::True => MarkerHighNibble::True,
        Marker::False => MarkerHighNibble::False,
        Marker::String8 => MarkerHighNibble::String8,
        Marker::String16 => MarkerHighNibble::String16,
        Marker::String32 => MarkerHighNibble::String32,
        Marker::Bytes8 => MarkerHighNibble::Bytes8,
        Marker::Bytes16 => MarkerHighNibble::Bytes16,
        Marker::Bytes32 => MarkerHighNibble::Bytes32,
        Marker::List8 => MarkerHighNibble::List8,
        Marker::List16 => MarkerHighNibble::List16,
        Marker::List32 => MarkerHighNibble::List32,
        Marker::Dictionary8 => MarkerHighNibble::Dictionary8,
        Marker::Dictionary16 => MarkerHighNibble::Dictionary16,
        Marker::Dictionary32 => MarkerHighNibble::Dictionary32,
    }
}

/// The canonical byte form of a marker: one byte for every class but
/// `Structure`, which is the combined marker byte followed by the tag byte.
pub open spec fn spec_encode_marker(m: Marker) -> Seq<u8> {
    match m {
        Marker::TinyString(sz) => seq![(0x80u8 & 0xF0) | ((sz as u8) & 0x0F)],
        Marker::TinyList(sz) => seq![(0x90u8 & 0xF0) | ((sz as u8) & 0x0F)],
        Marker::TinyDictionary(sz) => seq![(0xA0u8 & 0xF0) | ((sz as u8) & 0x0F)],
        Marker::Structure(sz, tag) => seq![(0xB0u8 & 0xF0) | ((sz as u8) & 0x0F), tag],
        Marker::PlusTinyInt(v) => seq![v],
        Marker::MinusTinyInt(v) => seq![v],
        _ => seq![spec_nibble_byte(spec_high_nibble(m))],
    }
}

/// The markers whose embedded data is in range for their byte form:
/// tiny sizes and structure field counts fit a nibble, a positive tiny
/// integer fits seven bits, a negative tiny integer has the `0xF0` nibble.
pub open spec fn marker_wf(m: Marker) -> bool {
    match m {
        Marker::TinyString(sz) => sz <= 0x0F,
        Marker::TinyList(sz) => sz <= 0x0F,
        Marker::TinyDictionary(sz) => sz <= 0x0F,
        Marker::Structure(sz, _) => sz <= 0x0F,
        Marker::PlusTinyInt(v) => v <= 0x7F,
        Marker::MinusTinyInt(v) => (v & 0xF0) == 0xF0,
        _ => true,
    }
}

/// What reading a marker from the front of `s` yields: the marker and the
/// number of bytes it took, or nothing where `s` is empty, too short for a
/// structure marker, or starts with an undefined byte.
///
/// The tests run in this order on purpose: the two inline integer classes
/// occupy ranges that a pure nibble test would misclassify.
pub open spec fn spec_decode_marker(s: Seq<u8>) -> Option<(Marker, int)> {
    if s.len() == 0 {
        None
    } else {
        let b = s[0];
        if b <= 0x7F {
            Some((Marker::PlusTinyInt(b), 1))
        } else if (b & 0xF0) == 0xF0 {
            Some((Marker::MinusTinyInt(b), 1))
        } else if (b & 0xF0) == 0x80 {
            Some((Marker::TinyString((b & 0x0F) as usize), 1))
        } else if (b & 0xF0) == 0x90 {
            Some((Marker::TinyList((b & 0x0F) as usize), 1))
        } else if (b & 0xF0) == 0xA0 {
            Some((Marker::TinyDictionary((b & 0x0F) as usize), 1))
        } else if (b & 0xF0) == 0xB0 {
            if s.len() >= 2 {
                Some((Marker::Structure((b & 0x0F) as usize, s[1]), 2))
            } else {
                None
            }
        } else if b == 0xC0 {
            Some((Marker::Null, 1))
        } else if b == 0xC1 {
            Some((Marker::Float64, 1))
        } else if b == 0xC2 {
            Some((Marker::True, 1))
        } else if b == 0xC3 {
            Some((Marker::False, 1))
        } else if b == 0xC8 {
            Some((Marker::Int8, 1))
        } else if b == 0xC9 {
            Some((Marker::Int16, 1))
        } else if b == 0xCA {
            Some((Marker::Int32, 1))
        } else if b == 0xCB {
            Some((Marker::Int64, 1))
        } else if b == 0xCC {
            Some((Marker::Bytes8, 1))
        } else if b == 0xCD {
            Some((Marker::Bytes16, 1))
        } else if b == 0xCE {
            Some((Marker::Bytes32, 1))
        } else if b == 0xD0 {
            Some((Marker::String8, 1))
        } else if b == 0xD1 {
            Some((Marker::String16, 1))
        } else if b == 0xD2 {
            Some((Marker::String32, 1))
        } else if b == 0xD4 {
            Some((Marker::List8, 1))
        } else if b == 0xD5 {
            Some((Marker::List16, 1))
        } else if b == 0xD6 {
            Some((Marker::List32, 1))
        } else if b == 0xD8 {
            Some((Marker::Dictionary8, 1))
        } else if b == 0xD9 {
            Some((Marker::Dictionary16, 1))
        } else if b == 0xDA {
            Some((Marker::Dictionary32, 1))
        } else {
            None
        }
    }
}

/// The error a failed marker read reports: the end of the input where bytes
/// were missing, else the undefined byte itself.
pub open spec fn spec_marker_error(s: Seq<u8>) -> DecodeError {
    if s.len() == 0 {
        DecodeError::UnexpectedEndOfStream
    } else if (s[0] & 0xF0) == 0xB0 && s[0] > 0x7F {
        DecodeError::UnexpectedEndOfStream
    } else {
        DecodeError::UnknownMarkerByte(s[0])
    }
}

impl MarkerHighNibble {
    /// The byte value of this discriminant.
    pub fn byte(self) -> (r: u8)
        ensures
            r == spec_nibble_byte(self),
    {
        match self {
            MarkerHighNibble::TinyString => 0x80,
            MarkerHighNibble::TinyList => 0x90,
            MarkerHighNibble::TinyDictionary => 0xA0,
            MarkerHighNibble::Structure => 0xB0,
            MarkerHighNibble::PlusTinyInt => 0x00,
            MarkerHighNibble::MinusTinyInt => 0xF0,
            MarkerHighNibble::Null => 0xC0,
            MarkerHighNibble::Float64 => 0xC1,
            MarkerHighNibble::True => 0xC2,
            MarkerHighNibble::False => 0xC3,
            MarkerHighNibble::Int8 => 0xC8,
            MarkerHighNibble::Int16 => 0xC9,
            MarkerHighNibble::Int32 => 0xCA,
            MarkerHighNibble::Int64 => 0xCB,
            MarkerHighNibble::Bytes8 => 0xCC,
            MarkerHighNibble::Bytes16 => 0xCD,
            MarkerHighNibble::Bytes32 => 0xCE,
            MarkerHighNibble::String8 => 0xD0,
            MarkerHighNibble::String16 => 0xD1,
            MarkerHighNibble::String32 => 0xD2,
            MarkerHighNibble::List8 => 0xD4,
            MarkerHighNibble::List16 => 0xD5,
            MarkerHighNibble::List32 => 0xD6,
            MarkerHighNibble::Dictionary8 => 0xD8,
            MarkerHighNibble::Dictionary16 => 0xD9,
            MarkerHighNibble::Dictionary32 => 0xDA,
        }
    }

    /// Does `marker_byte` belong to this discriminant's high nibble?
    pub fn is_contained_in(self, marker_byte: u8) -> (r: bool)
        ensures
            r == ((spec_nibble_byte(self) & 0xF0) == (marker_byte & 0xF0)),
    {
        high_nibble_equals(self.byte(), marker_byte & 0xF0)
    }
}

impl Marker {
    /// The discriminant of this marker.
    pub fn high_nibble(&self) -> (r: MarkerHighNibble)
        ensures
            r == spec_high_nibble(*self),
    {
        match self {
            Marker::TinyString(_) => MarkerHighNibble::TinyString,
            Marker::TinyList(_) => MarkerHighNibble::TinyList,
            Marker::TinyDictionary(_) => MarkerHighNibble::TinyDictionary,
            Marker::Structure(_, _) => MarkerHighNibble::Structure,
            Marker::PlusTinyInt(_) => MarkerHighNibble::PlusTinyInt,
            Marker::MinusTinyInt(_) => MarkerHighNibble::MinusTinyInt,
            Marker::Float64 => MarkerHighNibble::Float64,
            Marker::Int8 => MarkerHighNibble::Int8,
            Marker::Int16 => MarkerHighNibble::Int16,
            Marker::Int32 => MarkerHighNibble::Int32,
            Marker::Int64 => MarkerHighNibble::Int64,
            Marker::Null => MarkerHighNibble::Null,
            Marker::True => MarkerHighNibble::True,
            Marker::False => MarkerHighNibble::False,
            Marker::String8 => MarkerHighNibble::String8,
            Marker::String16 => MarkerHighNibble::String16,
            Marker::String32 => MarkerHighNibble::String32,
            Marker::Bytes8 => MarkerHighNibble::Bytes8,
            Marker::Bytes16 => MarkerHighNibble::Bytes16,
            Marker::Bytes32 => MarkerHighNibble::Bytes32,
            Marker::List8 => MarkerHighNibble::List8,
            Marker::List16 => MarkerHighNibble::List16,
            Marker::List32 => MarkerHighNibble::List32,
            Marker::Dictionary8 => MarkerHighNibble::Dictionary8,
            Marker::Dictionary16 => MarkerHighNibble::Dictionary16,
            Marker::Dictionary32 => MarkerHighNibble::Dictionary32,
        }
    }

    /// Appends this marker's byte form to `into` and returns how many bytes
    /// that took: two for a structure marker, one for every other class.
    pub fn encode(self, into: &mut Vec<u8>) -> (r: Result<usize, crate::error::EncodeError>)
        ensures
            final(into)@ == old(into)@ + spec_encode_marker(self),
            r matches Ok(n) && n == spec_encode_marker(self).len(),
    {
        match self {
            Marker::TinyString(size) => {
                into.push(combine(MarkerHighNibble::TinyString.byte(), size as u8));
                Ok(1)
            },
            Marker::TinyList(size) => {
                into.push(combine(MarkerHighNibble::TinyList.byte(), size as u8));
                Ok(1)
            },
            Marker::TinyDictionary(size) => {
                into.push(combine(MarkerHighNibble::TinyDictionary.byte(), size as u8));
                Ok(1)
            },
            Marker::Structure(size, tag) => {
                into.push(combine(MarkerHighNibble::Structure.byte(), size as u8));
                into.push(tag);
                Ok(2)
            },
            Marker::PlusTinyInt(value) => {
                into.push(value);
                Ok(1)
            },
            Marker::MinusTinyInt(value) => {
                into.push(value);
                Ok(1)
            },
            _ => {
                into.push(self.high_nibble().byte());
                Ok(1)
            },
        }
    }

    /// Reads the next marker from `reader`. Fails with
    /// [`DecodeError::UnknownMarkerByte`] on a byte outside every class and
    /// with [`DecodeError::UnexpectedEndOfStream`] where input runs out.
    pub fn decode(reader: &mut ByteReader) -> (r: Result<Marker, DecodeError>)
        ensures
            final(reader).all_bytes() == old(reader).all_bytes(),
            final(reader).spec_position() >= old(reader).spec_position(),
            match r {
                Ok(m) => spec_decode_marker(old(reader).unread()) == Some(
                    (m, final(reader).spec_position() - old(reader).spec_position()),
                ),
                Err(e) => {
                    &&& spec_decode_marker(old(reader).unread()) is None
                    &&& e == spec_marker_error(old(reader).unread())
                    &&& final(reader).spec_position() <= old(reader).spec_position() + 1
                },
            },
    {
        proof {
            use_type_invariant(&*reader);
            lemma_nibble_masks();
        }
        let from = match reader.read_byte() {
            Some(b) => b,
            None => {
                return Err(DecodeError::UnexpectedEndOfStream);
            },
        };

        if is_in_plus_tiny_int_bound(from as i64) {
            Ok(Marker::PlusTinyInt(from))
        } else if MarkerHighNibble::MinusTinyInt.is_contained_in(from) {
            Ok(Marker::MinusTinyInt(from))
        } else if MarkerHighNibble::TinyString.is_contained_in(from) {
            Ok(Marker::TinyString(get_tiny_size(from)))
        } else if MarkerHighNibble::TinyList.is_contained_in(from) {
            Ok(Marker::TinyList(get_tiny_size(from)))
        } else if MarkerHighNibble::TinyDictionary.is_contained_in(from) {
            Ok(Marker::TinyDictionary(get_tiny_size(from)))
        } else if MarkerHighNibble::Structure.is_contained_in(from) {
            let tag = match reader.read_byte() {
                Some(b) => b,
                None => {
                    return Err(DecodeError::UnexpectedEndOfStream);
                },
            };
            proof {
                let all = old(reader).all_bytes();
                let p = old(reader).spec_position();
                assert(all.skip(p + 1).len() == all.len() - (p + 1));
                assert(all.skip(p + 1)[0] == all[p + 1]);
                assert(old(reader).unread()[1] == all.skip(p)[1]);
                assert(all.skip(p)[1] == all[p + 1]);
            }
            Ok(Marker::Structure(get_tiny_size(from), tag))
        } else {
            match from {
                0xC0 => Ok(Marker::Null),
                0xC1 => Ok(Marker::Float64),
                0xC2 => Ok(Marker::True),
                0xC3 => Ok(Marker::False),
                0xC8 => Ok(Marker::Int8),
                0xC9 => Ok(Marker::Int16),
                0xCA => Ok(Marker::Int32),
                0xCB => Ok(Marker::Int64),
                0xCC => Ok(Marker::Bytes8),
                0xCD => Ok(Marker::Bytes16),
                0xCE => Ok(Marker::Bytes32),
                0xD0 => Ok(Marker::String8),
                0xD1 => Ok(Marker::String16),
                0xD2 => Ok(Marker::String32),
                0xD4 => Ok(Marker::List8),
                0xD5 => Ok(Marker::List16),
                0xD6 => Ok(Marker::List32),
                0xD8 => Ok(Marker::Dictionary8),
                0xD9 => Ok(Marker::Dictionary16),
                0xDA => Ok(Marker::Dictionary32),
                _ => Err(DecodeError::UnknownMarkerByte(from)),
            }
        }
    }
}

/// The high-nibble constants keep their value under their own mask.
proof fn lemma_nibble_masks()
    ensures
        0xF0u8 & 0xF0 == 0xF0,
        0x80u8 & 0xF0 == 0x80,
        0x90u8 & 0xF0 == 0x90,
        0xA0u8 & 0xF0 == 0xA0,
        0xB0u8 & 0xF0 == 0xB0,
{
    assert(0xF0u8 & 0xF0 == 0xF0 && 0x80u8 & 0xF0 == 0x80 && 0x90u8 & 0xF0 == 0x90
        && 0xA0u8 & 0xF0 == 0xA0 && 0xB0u8 & 0xF0 == 0xB0) by (bit_vector);
}

/// The byte form of a well-formed marker reads back as that same marker,
/// whatever bytes follow it.
pub proof fn lemma_marker_round_trip(m: Marker, rest: Seq<u8>)
    requires
        marker_wf(m),
    ensures
        spec_decode_marker(spec_encode_marker(m) + rest) == Some(
            (m, spec_encode_marker(m).len() as int),
        ),
{
    let s = spec_encode_marker(m) + rest;
    lemma_nibble_masks();
    match m {
        Marker::TinyString(sz) => {
            let v = sz as u8;
            assert(v <= 0x0F);
            assert(((0x80u8 & 0xF0) | (v & 0x0F)) > 0x7F
                && (((0x80u8 & 0xF0) | (v & 0x0F)) & 0xF0) == 0x80
                && (v <= 0x0F ==> (((0x80u8 & 0xF0) | (v & 0x0F)) & 0x0F) == v)) by (bit_vector);
            assert((s[0] & 0x0F) as usize == sz);
        },
        Marker::TinyList(sz) => {
            let v = sz as u8;
            assert(((0x90u8 & 0xF0) | (v & 0x0F)) > 0x7F
                && (((0x90u8 & 0xF0) | (v & 0x0F)) & 0xF0) == 0x90
                && (v <= 0x0F ==> (((0x90u8 & 0xF0) | (v & 0x0F)) & 0x0F) == v)) by (bit_vector);
            assert((s[0] & 0x0F) as usize == sz);
        },
        Marker::TinyDictionary(sz) => {
            let v = sz as u8;
            assert(((0xA0u8 & 0xF0) | (v & 0x0F)) > 0x7F
                && (((0xA0u8 & 0xF0) | (v & 0x0F)) & 0xF0) == 0xA0
                && (v <= 0x0F ==> (((0xA0u8 & 0xF0) | (v & 0x0F)) & 0x0F) == v)) by (bit_vector);
            assert((s[0] & 0x0F) as usize == sz);
        },
        Marker::Structure(sz, tag) => {
            let v = sz as u8;
            assert(((0xB0u8 & 0xF0) | (v & 0x0F)) > 0x7F
                && (((0xB0u8 & 0xF0) | (v & 0x0F)) & 0xF0) == 0xB0
                && (v <= 0x0F ==> (((0xB0u8 & 0xF0) | (v & 0x0F)) & 0x0F) == v)) by (bit_vector);
            assert((s[0] & 0x0F) as usize == sz);
            assert(s[1] == tag);
        },
        Marker::MinusTinyInt(v) => {
            assert((v & 0xF0) == 0xF0 ==> v > 0x7F) by (bit_vector);
        },
        Marker::PlusTinyInt(_) => {
        },
        _ => {
            let b = spec_nibble_byte(spec_high_nibble(m));
            assert((0xC0u8 & 0xF0) == 0xC0 && (0xC1u8 & 0xF0) == 0xC0 && (0xC2u8 & 0xF0) == 0xC0
                && (0xC3u8 & 0xF0) == 0xC0 && (0xC8u8 & 0xF0) == 0xC0 && (0xC9u8 & 0xF0) == 0xC0
                && (0xCAu8 & 0xF0) == 0xC0 && (0xCBu8 & 0xF0) == 0xC0 && (0xCCu8 & 0xF0) == 0xC0
                && (0xCDu8 & 0xF0) == 0xC0 && (0xCEu8 & 0xF0) == 0xC0 && (0xD0u8 & 0xF0) == 0xD0
                && (0xD1u8 & 0xF0) == 0xD0 && (0xD2u8 & 0xF0) == 0xD0 && (0xD4u8 & 0xF0) == 0xD0
                && (0xD5u8 & 0xF0) == 0xD0 && (0xD6u8 & 0xF0) == 0xD0 && (0xD8u8 & 0xF0) == 0xD0
                && (0xD9u8 & 0xF0) == 0xD0 && (0xDAu8 & 0xF0) == 0xD0) by (bit_vector);
        },
    }
}

} // verus!
