//! The two capability traits of the codec and their implementations for the
//! base types.
//!
//! [`Pack`] writes a value in its canonical, most compact wire form, which
//! each implementation pins down exactly with the spec function
//! [`Pack::spec_enc`]. [`Unpack`] reads any valid wire form back; what it
//! accepts and returns is pinned down by [`Unpack::spec_dec`]. Decoding
//! accepts more byte forms than encoding produces — a `-1` may arrive as a
//! tiny inline byte or as any wider integer class — so decoding composed
//! with encoding is the identity, while the reverse composition need not be.

use vstd::prelude::*;
use crate::error::{DecodeError, EncodeError};
use crate::ll::bounds::{
    is_in_i16_bound, is_in_i32_bound, is_in_i8_bound, is_in_minus_tiny_int_bound,
    is_in_plus_tiny_int_bound,
};
use crate::ll::marker::{spec_decode_marker, Marker};
use crate::ll::types::fixed::{
    byte_to_minus_tiny_int, decode_body_i16, decode_body_i32, decode_body_i64, decode_body_i8,
    encode_i16, encode_i32, encode_i64, encode_i8, encode_minus_tiny_int, encode_plus_tiny_int,
    spec_be2, spec_be4, spec_be8, spec_u16_of_be, spec_u32_of_be, spec_u64_of_be,
};
use crate::ll::types::lengths::{
    read_list_size, read_size_16, read_size_32, read_size_8, read_string_size,
    spec_dict_header, spec_length_of_size, spec_list_header, spec_read_list_size, spec_read_string_size, spec_size16,
    spec_size32, spec_size8, write_size_16, write_size_32, write_size_8, Length,
};
use crate::ll::types::sized::{
    spec_elems_ok, spec_elems_req, spec_enc_elems, write_body_by_iter,
};
use crate::value::bytes::Bytes;
use crate::stream::ByteReader;
use vstd::utf8::{decode_utf8, encode_utf8, valid_utf8};

verus! {

/// Encoding capability: a value writes itself to a byte sink in its
/// canonical wire form.
///
/// `spec_enc` is that form; `encode` appends exactly those bytes. `enc_req`
/// holds the machine limits a value must meet before encoding is attempted
/// (every size fits the 32-bit ceiling); `enc_ok` tells on which of those
/// values encoding succeeds — it fails only on a structure that declares
/// more fields than the format carries.
pub trait Pack: Sized {
    /// The canonical bytes of this value.
    spec fn spec_enc(&self) -> Seq<u8>;

    /// The sizes in this value fit their wire size fields.
    spec fn enc_req(&self) -> bool;

    /// Encoding this value succeeds.
    spec fn enc_ok(&self) -> bool;

    /// Appends the canonical bytes of `self` to `writer` and returns how
    /// many were written.
    fn encode(&self, writer: &mut Vec<u8>) -> (r: Result<usize, EncodeError>)
        requires
            self.enc_req(),
        ensures
            old(writer)@.is_prefix_of(final(writer)@),
            (r is Ok) == self.enc_ok(),
            r matches Ok(n) ==> final(writer)@ == old(writer)@ + self.spec_enc() && n
                == self.spec_enc().len(),
    ;
}

/// Decoding capability: a value reads itself back from a byte source.
///
/// `spec_dec` says, for every byte sequence, whether a value of this type
/// starts there and how many bytes it covers; `decode` succeeds on exactly
/// those inputs. `spec_dec_body` is the same after the marker has already
/// been read.
pub trait Unpack: Sized {
    /// The mathematical value this type stands for: an integer is itself, a
    /// string is its characters, a collection is the sequence of its
    /// members' models. Decoded results are pinned down at this level.
    type Model;

    /// The model of this value.
    spec fn model(&self) -> Self::Model;

    /// What decoding from the front of `s` yields: the model of the decoded
    /// value and the bytes consumed, or nothing on every input this type
    /// rejects.
    spec fn spec_dec(s: Seq<u8>) -> Option<(Self::Model, int)>;

    /// What decoding yields once `m` has been read off the front of `s`.
    spec fn spec_dec_body(m: Marker, s: Seq<u8>) -> Option<(Self::Model, int)>;

    /// The error that a failed decode from the front of `s` reports.
    /// Meaningful exactly where `spec_dec` is `None`.
    spec fn spec_dec_err(s: Seq<u8>) -> DecodeError;

    /// The error that a failed body decode reports. Meaningful exactly
    /// where `spec_dec_body` is `None`.
    spec fn spec_dec_body_err(m: Marker, s: Seq<u8>) -> DecodeError;

    /// Decodes the body of a value whose marker is already known.
    fn decode_body(marker: Marker, reader: &mut ByteReader) -> (r: Result<Self, DecodeError>)
        ensures
            final(reader).all_bytes() == old(reader).all_bytes(),
            final(reader).spec_position() >= old(reader).spec_position(),
            match r {
                Ok(v) => Self::spec_dec_body(marker, old(reader).unread()) == Some(
                    (v.model(), final(reader).spec_position() - old(reader).spec_position()),
                ),
                Err(e) => {
                    &&& Self::spec_dec_body(marker, old(reader).unread()) is None
                    &&& e == Self::spec_dec_body_err(marker, old(reader).unread())
                },
            },
    ;

    /// Reads the marker, then the body.
    fn decode(reader: &mut ByteReader) -> (r: Result<Self, DecodeError>)
        ensures
            final(reader).all_bytes() == old(reader).all_bytes(),
            final(reader).spec_position() >= old(reader).spec_position(),
            match r {
                Ok(v) => Self::spec_dec(old(reader).unread()) == Some(
                    (v.model(), final(reader).spec_position() - old(reader).spec_position()),
                ),
                Err(e) => {
                    &&& Self::spec_dec(old(reader).unread()) is None
                    &&& e == Self::spec_dec_err(old(reader).unread())
                },
            },
    ;
}

/// The canonical encoding of a 64-bit integer: the smallest wire class that
/// losslessly holds the value, checked from the inline tiny forms up to the
/// full eight-byte form.
pub open spec fn spec_encode_int(v: i64) -> Seq<u8> {
    if 0 <= v <= 0x7F {
        seq![v as u8]
    } else if -16 <= v < 0 {
        seq![v as u8]
    } else if -0x80 <= v <= 0x7F {
        seq![0xC8u8, v as u8]
    } else if -0x8000 <= v <= 0x7FFF {
        seq![0xC9u8] + spec_be2(v as u16)
    } else if -0x80000000 <= v <= 0x7FFFFFFF {
        seq![0xCAu8] + spec_be4(v as u32)
    } else {
        seq![0xCBu8] + spec_be8(v as u64)
    }
}

/// What decoding an integer body yields for each marker: the inline classes
/// carry their value in the marker itself, the wider classes read their
/// big-endian bytes; any non-integer marker is rejected.
pub open spec fn spec_decode_int_body(m: Marker, s: Seq<u8>) -> Option<(i64, int)> {
    match m {
        Marker::PlusTinyInt(b) => Some((b as i64, 0)),
        Marker::MinusTinyInt(b) => Some(((b as i8) as i64, 0)),
        Marker::Int8 => if s.len() >= 1 {
            Some((((s[0] as i8)) as i64, 1))
        } else {
            None
        },
        Marker::Int16 => if s.len() >= 2 {
            Some(((spec_u16_of_be(s) as i16) as i64, 2))
        } else {
            None
        },
        Marker::Int32 => if s.len() >= 4 {
            Some(((spec_u32_of_be(s) as i32) as i64, 4))
        } else {
            None
        },
        Marker::Int64 => if s.len() >= 8 {
            Some(((spec_u64_of_be(s) as i64), 8))
        } else {
            None
        },
        _ => None,
    }
}

/// The error a failed integer body decode reports: a marker outside the
/// integer classes is unexpected; inside them only the input can run out.
pub open spec fn spec_decode_int_body_err(m: Marker, s: Seq<u8>) -> DecodeError {
    match m {
        Marker::PlusTinyInt(_) | Marker::MinusTinyInt(_) | Marker::Int8 | Marker::Int16
            | Marker::Int32 | Marker::Int64 => DecodeError::UnexpectedEndOfStream,
        _ => DecodeError::UnexpectedMarker(m),
    }
}

/// The error a failed 64-bit integer decode reports.
pub open spec fn spec_decode_int_err(s: Seq<u8>) -> DecodeError {
    match spec_decode_marker(s) {
        Some((m, k)) => spec_decode_int_body_err(m, s.skip(k)),
        None => crate::ll::marker::spec_marker_error(s),
    }
}

/// What decoding a 64-bit integer from the front of `s` yields: a marker of
/// any integer class, then its body.
pub open spec fn spec_decode_int(s: Seq<u8>) -> Option<(i64, int)> {
    match spec_decode_marker(s) {
        Some((m, k)) => match spec_decode_int_body(m, s.skip(k)) {
            Some((v, n)) => Some((v, k + n)),
            None => None,
        },
        None => None,
    }
}

/// Truncating a 64-bit integer to a narrow signed width and truncating it
/// to the unsigned width of the same size give the same bits.
proof fn lemma_i64_trunc(v: i64)
    ensures
        (v as i8) as u8 == v as u8,
        (v as i16) as u16 == v as u16,
        (v as i32) as u32 == v as u32,
{
    assert((v as i8) as u8 == v as u8 && (v as i16) as u16 == v as u16 && (v as i32) as u32 == v
        as u32) by (bit_vector);
}

impl Pack for i64 {
    open spec fn spec_enc(&self) -> Seq<u8> {
        spec_encode_int(*self)
    }

    open spec fn enc_req(&self) -> bool {
        true
    }

    open spec fn enc_ok(&self) -> bool {
        true
    }

    #[verifier::spinoff_prover]
    fn encode(&self, writer: &mut Vec<u8>) -> (r: Result<usize, EncodeError>)
    {
        proof {
            lemma_i64_trunc(*self);
            assert(self.enc_ok());
        }
        if is_in_plus_tiny_int_bound(*self) {
            let r = encode_plus_tiny_int(*self as u8, writer);
            proof {
                assert((*self as u8) <= 0x7F) by (bit_vector)
                    requires 0 <= *self <= 0x7F;
                assert(writer@ == old(writer)@ + self.spec_enc());
                assert(r is Ok);
                assert(r matches Ok(n) ==> n == self.spec_enc().len());
            }
            r
        } else if is_in_minus_tiny_int_bound(*self) {
            let r = encode_minus_tiny_int(*self as i8, writer);
            proof {
                assert(writer@ == old(writer)@ + self.spec_enc());
                assert(r is Ok);
                assert(r matches Ok(n) ==> n == self.spec_enc().len());
            }
            r
        } else if is_in_i8_bound(*self) {
            let r = encode_i8(*self as i8, writer);
            proof {
                assert(writer@ == old(writer)@ + self.spec_enc());
                assert(r is Ok);
                assert(r matches Ok(n) ==> n == self.spec_enc().len());
            }
            r
        } else if is_in_i16_bound(*self) {
            let r = encode_i16(*self as i16, writer);
            proof {
                assert(writer@ == old(writer)@ + self.spec_enc());
                assert(r is Ok);
                assert(r matches Ok(n) ==> n == self.spec_enc().len());
            }
            r
        } else if is_in_i32_bound(*self) {
            let r = encode_i32(*self as i32, writer);
            proof {
                assert(writer@ == old(writer)@ + self.spec_enc());
                assert(r is Ok);
                assert(r matches Ok(n) ==> n == self.spec_enc().len());
            }
            r
        } else {
            let r = encode_i64(*self, writer);
            proof {
                assert(writer@ == old(writer)@ + self.spec_enc());
                assert(r is Ok);
                assert(r matches Ok(n) ==> n == self.spec_enc().len());
            }
            r
        }
    }
}

impl Unpack for i64 {
    type Model = i64;

    open spec fn model(&self) -> i64 {
        *self
    }

    open spec fn spec_dec(s: Seq<u8>) -> Option<(i64, int)> {
        spec_decode_int(s)
    }

    open spec fn spec_dec_body(m: Marker, s: Seq<u8>) -> Option<(i64, int)> {
        spec_decode_int_body(m, s)
    }

    open spec fn spec_dec_err(s: Seq<u8>) -> DecodeError {
        spec_decode_int_err(s)
    }

    open spec fn spec_dec_body_err(m: Marker, s: Seq<u8>) -> DecodeError {
        spec_decode_int_body_err(m, s)
    }

    fn decode_body(marker: Marker, reader: &mut ByteReader) -> (r: Result<Self, DecodeError>)
    {
        match marker {
            Marker::PlusTinyInt(value) => Ok(value as i64),
            Marker::MinusTinyInt(value) => Ok(byte_to_minus_tiny_int(value) as i64),
            Marker::Int8 => match decode_body_i8(reader) {
                Ok(v) => Ok(v as i64),
                Err(e) => Err(e),
            },
            Marker::Int16 => match decode_body_i16(reader) {
                Ok(v) => Ok(v as i64),
                Err(e) => Err(e),
            },
            Marker::Int32 => match decode_body_i32(reader) {
                Ok(v) => Ok(v as i64),
                Err(e) => Err(e),
            },
            Marker::Int64 => match decode_body_i64(reader) {
                Ok(v) => Ok(v),
                Err(e) => Err(e),
            },
            _ => Err(DecodeError::UnexpectedMarker(marker)),
        }
    }

    fn decode(reader: &mut ByteReader) -> (r: Result<Self, DecodeError>)
    {
        proof {
            use_type_invariant(&*reader);
        }
        let marker = match Marker::decode(reader) {
            Ok(m) => m,
            Err(e) => {
                return Err(e);
            },
        };
        proof {
            assert(reader.unread() =~= old(reader).unread().skip(
                reader.spec_position() - old(reader).spec_position(),
            ));
        }
        let r = Self::decode_body(marker, reader);
        r
    }
}

impl Pack for i32 {
    open spec fn spec_enc(&self) -> Seq<u8> {
        spec_encode_int(*self as i64)
    }

    open spec fn enc_req(&self) -> bool {
        true
    }

    open spec fn enc_ok(&self) -> bool {
        true
    }

    fn encode(&self, writer: &mut Vec<u8>) -> (r: Result<usize, EncodeError>)
    {
        proof {
            lemma_i64_trunc(*self as i64);
            assert((*self as i64) as u8 == *self as u8 && (*self as i64) as i8 == *self as i8
                && (*self as i64) as i16 == *self as i16 && (*self as i64) as i32 == *self
                as i32) by (bit_vector);
        }
        let wide = *self as i64;
        if is_in_plus_tiny_int_bound(wide) {
            let r = encode_plus_tiny_int(*self as u8, writer);
            proof {
                assert((*self as u8) <= 0x7F) by (bit_vector)
                    requires 0 <= *self <= 0x7F;
            }
            r
        } else if is_in_minus_tiny_int_bound(wide) {
            encode_minus_tiny_int(*self as i8, writer)
        } else if is_in_i8_bound(wide) {
            encode_i8(*self as i8, writer)
        } else if is_in_i16_bound(wide) {
            encode_i16(*self as i16, writer)
        } else {
            encode_i32(*self, writer)
        }
    }
}

/// What decoding a 32-bit integer body yields: as for the 64-bit form, but
/// without the eight-byte class, which does not fit the target type.
pub open spec fn spec_decode_int32_body(m: Marker, s: Seq<u8>) -> Option<(i32, int)> {
    match m {
        Marker::PlusTinyInt(b) => Some((b as i32, 0)),
        Marker::MinusTinyInt(b) => Some(((b as i8) as i32, 0)),
        Marker::Int8 => if s.len() >= 1 {
            Some((((s[0] as i8)) as i32, 1))
        } else {
            None
        },
        Marker::Int16 => if s.len() >= 2 {
            Some(((spec_u16_of_be(s) as i16) as i32, 2))
        } else {
            None
        },
        Marker::Int32 => if s.len() >= 4 {
            Some(((spec_u32_of_be(s) as i32), 4))
        } else {
            None
        },
        _ => None,
    }
}

/// The error a failed 32-bit integer body decode reports: as for the
/// 64-bit form, with the eight-byte class also unexpected.
pub open spec fn spec_decode_int32_body_err(m: Marker, s: Seq<u8>) -> DecodeError {
    match m {
        Marker::PlusTinyInt(_) | Marker::MinusTinyInt(_) | Marker::Int8 | Marker::Int16
            | Marker::Int32 => DecodeError::UnexpectedEndOfStream,
        _ => DecodeError::UnexpectedMarker(m),
    }
}

/// The error a failed 32-bit integer decode reports.
pub open spec fn spec_decode_int32_err(s: Seq<u8>) -> DecodeError {
    match spec_decode_marker(s) {
        Some((m, k)) => spec_decode_int32_body_err(m, s.skip(k)),
        None => crate::ll::marker::spec_marker_error(s),
    }
}

/// What decoding a 32-bit integer from the front of `s` yields.
pub open spec fn spec_decode_int32(s: Seq<u8>) -> Option<(i32, int)> {
    match spec_decode_marker(s) {
        Some((m, k)) => match spec_decode_int32_body(m, s.skip(k)) {
            Some((v, n)) => Some((v, k + n)),
            None => None,
        },
        None => None,
    }
}

impl Unpack for i32 {
    type Model = i32;

    open spec fn model(&self) -> i32 {
        *self
    }

    open spec fn spec_dec(s: Seq<u8>) -> Option<(i32, int)> {
        spec_decode_int32(s)
    }

    open spec fn spec_dec_body(m: Marker, s: Seq<u8>) -> Option<(i32, int)> {
        spec_decode_int32_body(m, s)
    }

    open spec fn spec_dec_err(s: Seq<u8>) -> DecodeError {
        spec_decode_int32_err(s)
    }

    open spec fn spec_dec_body_err(m: Marker, s: Seq<u8>) -> DecodeError {
        spec_decode_int32_body_err(m, s)
    }

    fn decode_body(marker: Marker, reader: &mut ByteReader) -> (r: Result<Self, DecodeError>)
    {
        match marker {
            Marker::PlusTinyInt(value) => Ok(value as i32),
            Marker::MinusTinyInt(value) => Ok(byte_to_minus_tiny_int(value) as i32),
            Marker::Int8 => match decode_body_i8(reader) {
                Ok(v) => Ok(v as i32),
                Err(e) => Err(e),
            },
            Marker::Int16 => match decode_body_i16(reader) {
                Ok(v) => Ok(v as i32),
                Err(e) => Err(e),
            },
            Marker::Int32 => match decode_body_i32(reader) {
                Ok(v) => Ok(v),
                Err(e) => Err(e),
            },
            _ => Err(DecodeError::UnexpectedMarker(marker)),
        }
    }

    fn decode(reader: &mut ByteReader) -> (r: Result<Self, DecodeError>)
    {
        proof {
            use_type_invariant(&*reader);
        }
        let marker = match Marker::decode(reader) {
            Ok(m) => m,
            Err(e) => {
                return Err(e);
            },
        };
        proof {
            assert(reader.unread() =~= old(reader).unread().skip(
                reader.spec_position() - old(reader).spec_position(),
            ));
        }
        let r = Self::decode_body(marker, reader);
        r
    }
}

impl Pack for bool {
    open spec fn spec_enc(&self) -> Seq<u8> {
        if *self {
            seq![0xC2u8]
        } else {
            seq![0xC3u8]
        }
    }

    open spec fn enc_req(&self) -> bool {
        true
    }

    open spec fn enc_ok(&self) -> bool {
        true
    }

    fn encode(&self, writer: &mut Vec<u8>) -> (r: Result<usize, EncodeError>)
    {
        if *self {
            let _r = Marker::True.encode(writer);
            Ok(1)
        } else {
            let _r = Marker::False.encode(writer);
            Ok(1)
        }
    }
}

impl Unpack for bool {
    type Model = bool;

    open spec fn model(&self) -> bool {
        *self
    }

    open spec fn spec_dec(s: Seq<u8>) -> Option<(bool, int)> {
        match spec_decode_marker(s) {
            Some((m, k)) => match m {
                Marker::True => Some((true, k)),
                Marker::False => Some((false, k)),
                _ => None,
            },
            None => None,
        }
    }

    open spec fn spec_dec_body(m: Marker, s: Seq<u8>) -> Option<(bool, int)> {
        match m {
            Marker::True => Some((true, 0)),
            Marker::False => Some((false, 0)),
            _ => None,
        }
    }

    open spec fn spec_dec_err(s: Seq<u8>) -> DecodeError {
        match spec_decode_marker(s) {
            Some((m, k)) => DecodeError::UnexpectedMarker(m),
            None => crate::ll::marker::spec_marker_error(s),
        }
    }

    open spec fn spec_dec_body_err(m: Marker, s: Seq<u8>) -> DecodeError {
        DecodeError::UnexpectedMarker(m)
    }

    fn decode_body(marker: Marker, reader: &mut ByteReader) -> (r: Result<Self, DecodeError>)
    {
        match marker {
            Marker::True => Ok(true),
            Marker::False => Ok(false),
            _ => Err(DecodeError::UnexpectedMarker(marker)),
        }
    }

    fn decode(reader: &mut ByteReader) -> (r: Result<Self, DecodeError>)
    {
        proof {
            use_type_invariant(&*reader);
        }
        let marker = match Marker::decode(reader) {
            Ok(m) => m,
            Err(e) => {
                return Err(e);
            },
        };
        let r = Self::decode_body(marker, reader);
        r
    }
}

/// Every canonically encoded 64-bit integer decodes back to itself,
/// whatever bytes follow: decoding composed with encoding is the identity.
pub proof fn lemma_int_round_trip(v: i64, rest: Seq<u8>)
    ensures
        spec_decode_int(spec_encode_int(v) + rest) == Some(
            (v, spec_encode_int(v).len() as int),
        ),
{
    let s = spec_encode_int(v) + rest;
    if 0 <= v <= 0x7F {
        assert(v as u8 <= 0x7F && (v as u8) as i64 == v) by (bit_vector)
            requires 0 <= v <= 0x7F;
        crate::ll::marker::lemma_marker_round_trip(Marker::PlusTinyInt(v as u8), rest);
        assert(s =~= crate::ll::marker::spec_encode_marker(Marker::PlusTinyInt(v as u8)) + rest);
    } else if -16 <= v < 0 {
        assert(v as u8 > 0x7F && ((v as u8) & 0xF0) == 0xF0 && ((v as u8) as i8) as i64 == v)
            by (bit_vector)
            requires -16 <= v < 0;
        crate::ll::marker::lemma_marker_round_trip(Marker::MinusTinyInt(v as u8), rest);
        assert(s =~= crate::ll::marker::spec_encode_marker(Marker::MinusTinyInt(v as u8)) + rest);
    } else if -0x80 <= v <= 0x7F {
        assert(((v as u8) as i8) as i64 == v) by (bit_vector)
            requires -0x80 <= v <= 0x7F;
        crate::ll::marker::lemma_marker_round_trip(Marker::Int8, seq![v as u8] + rest);
        assert(s =~= crate::ll::marker::spec_encode_marker(Marker::Int8) + (seq![v as u8] + rest));
        assert(s.skip(1) =~= seq![v as u8] + rest);
        assert(s.skip(1)[0] == v as u8);
    } else if -0x8000 <= v <= 0x7FFF {
        crate::ll::marker::lemma_marker_round_trip(Marker::Int16, spec_be2(v as u16) + rest);
        assert(s =~= crate::ll::marker::spec_encode_marker(Marker::Int16) + (spec_be2(v as u16)
            + rest));
        assert(s.skip(1) =~= spec_be2(v as u16) + rest);
        let body = s.skip(1);
        assert(body[0] == ((v as u16) >> 8) as u8 && body[1] == (v as u16) as u8);
        assert(spec_u16_of_be(body) == ((((v as u16) >> 8) as u8 as u16) << 8) | ((v as u16) as u8
            as u16));
        assert(((((((v as u16) >> 8) as u8 as u16) << 8) | ((v as u16) as u8 as u16)) as i16)
            as i64 == v) by (bit_vector)
            requires -0x8000 <= v <= 0x7FFF;
    } else if -0x80000000 <= v <= 0x7FFFFFFF {
        crate::ll::marker::lemma_marker_round_trip(Marker::Int32, spec_be4(v as u32) + rest);
        assert(s =~= crate::ll::marker::spec_encode_marker(Marker::Int32) + (spec_be4(v as u32)
            + rest));
        assert(s.skip(1) =~= spec_be4(v as u32) + rest);
        let body = s.skip(1);
        let w = v as u32;
        assert(body[0] == (w >> 24) as u8 && body[1] == (w >> 16) as u8 && body[2] == (w >> 8)
            as u8 && body[3] == w as u8);
        assert((((((w >> 24) as u8 as u32) << 24) | (((w >> 16) as u8 as u32) << 16) | (((w >> 8)
            as u8 as u32) << 8) | ((w as u8) as u32)) as i32) as i64 == v) by (bit_vector)
            requires -0x80000000 <= v <= 0x7FFFFFFF, w == v as u32;
    } else {
        crate::ll::marker::lemma_marker_round_trip(Marker::Int64, spec_be8(v as u64) + rest);
        assert(s =~= crate::ll::marker::spec_encode_marker(Marker::Int64) + (spec_be8(v as u64)
            + rest));
        assert(s.skip(1) =~= spec_be8(v as u64) + rest);
        let body = s.skip(1);
        let w = v as u64;
        assert(body[0] == (w >> 56) as u8 && body[1] == (w >> 48) as u8 && body[2] == (w >> 40)
            as u8 && body[3] == (w >> 32) as u8 && body[4] == (w >> 24) as u8 && body[5] == (w
            >> 16) as u8 && body[6] == (w >> 8) as u8 && body[7] == w as u8);
        assert(((((w >> 56) as u8 as u64) << 56) | (((w >> 48) as u8 as u64) << 48) | (((w >> 40)
            as u8 as u64) << 40) | (((w >> 32) as u8 as u64) << 32) | (((w >> 24) as u8 as u64)
            << 24) | (((w >> 16) as u8 as u64) << 16) | (((w >> 8) as u8 as u64) << 8) | ((w
            as u8) as u64)) as i64 == v) by (bit_vector)
            requires w == v as u64;
    }
}

/// The canonical encoding is minimal: no valid integer byte form is shorter
/// than the canonical form of the value it decodes to. Together with
/// [`lemma_int_round_trip`] this pins the encoder's class selection: it
/// never over-selects a wider class.
pub proof fn lemma_int_encode_minimal(s: Seq<u8>, v: i64, n: int)
    requires
        spec_decode_int(s) == Some((v, n)),
    ensures
        spec_encode_int(v).len() <= n,
{
    let (m, k) = spec_decode_marker(s).unwrap();
    match m {
        Marker::PlusTinyInt(b) => {
            assert(0 <= (b as i64) <= 0x7F) by (bit_vector)
                requires b <= 0x7F;
        },
        Marker::MinusTinyInt(b) => {
            assert(-16 <= ((b as i8) as i64) < 0) by (bit_vector)
                requires (b & 0xF0) == 0xF0;
        },
        Marker::Int8 => {
            let b = s.skip(k)[0];
            assert(-0x80 <= ((b as i8) as i64) <= 0x7F) by (bit_vector);
        },
        Marker::Int16 => {
            let w = spec_u16_of_be(s.skip(k));
            assert(-0x8000 <= ((w as i16) as i64) <= 0x7FFF) by (bit_vector);
        },
        Marker::Int32 => {
            let w = spec_u32_of_be(s.skip(k));
            assert(-0x80000000 <= ((w as i32) as i64) <= 0x7FFFFFFF) by (bit_vector);
        },
        _ => {
        },
    }
}


/// The header of a string: its marker, then the size bytes of the smallest
/// class that holds the byte length. Meaningful for lengths up to the
/// 32-bit ceiling.
pub open spec fn spec_string_header(n: int) -> Seq<u8> {
    match spec_length_of_size(n) {
        Some(l) => match l {
            Length::Tiny(u) => crate::ll::marker::spec_encode_marker(
                Marker::TinyString(u as usize),
            ),
            Length::Bit8(u) => seq![0xD0u8, u],
            Length::Bit16(u) => seq![0xD1u8] + spec_be2(u),
            Length::Bit32(i) => seq![0xD2u8] + spec_be4(i as u32),
        },
        None => Seq::empty(),
    }
}

/// The canonical bytes of a string: header, then its UTF-8 bytes.
pub open spec fn spec_string_enc(bytes: Seq<u8>) -> Seq<u8> {
    spec_string_header(bytes.len() as int) + bytes
}

/// Relies on `String::from_utf8`: it succeeds exactly on valid UTF-8 input
/// and the returned string holds those bytes' characters.
#[verifier::external_body]
fn string_from_utf8(v: Vec<u8>) -> (r: Option<String>)
    ensures
        (r is Some) == valid_utf8(v@),
        r matches Some(st) ==> st@ == decode_utf8(v@),
{
    String::from_utf8(v).ok()
}

impl Pack for String {
    open spec fn spec_enc(&self) -> Seq<u8> {
        spec_string_enc(encode_utf8(self@))
    }

    open spec fn enc_req(&self) -> bool {
        encode_utf8(self@).len() <= 0x7FFFFFFF
    }

    open spec fn enc_ok(&self) -> bool {
        true
    }

    fn encode(&self, writer: &mut Vec<u8>) -> (r: Result<usize, EncodeError>)
    {
        let bytes = self.as_str().as_bytes();
        let len = bytes.len();
        let header_len: usize = match Length::from_usize(len) {
            Some(l) => {
                match l {
                    Length::Tiny(t) => {
                        let _r = Marker::TinyString(t as usize).encode(writer);
                        1
                    },
                    Length::Bit8(u) => {
                        let _r = Marker::String8.encode(writer);
                        let _s = write_size_8(u, writer);
                        2
                    },
                    Length::Bit16(u) => {
                        let _r = Marker::String16.encode(writer);
                        let _s = write_size_16(u, writer);
                        3
                    },
                    Length::Bit32(i) => {
                        let _r = Marker::String32.encode(writer);
                        let _s = write_size_32(i, writer);
                        5
                    },
                }
            },
            None => {
                proof {
                    assert(false);
                }
                0
            },
        };
        writer.extend_from_slice(bytes);
        proof {
            assert(writer@ =~= old(writer)@ + self.spec_enc());
        }
        Ok(header_len + len)
    }
}

/// What decoding a string body yields once its marker is known: the size,
/// then that many bytes, which must be valid UTF-8.
pub open spec fn spec_decode_string_body(m: Marker, s: Seq<u8>) -> Option<(Seq<char>, int)> {
    match spec_read_string_size(m, s) {
        Some((n, k)) => {
            let bytes = s.skip(k).take(n as int);
            if s.skip(k).len() >= n && valid_utf8(bytes) {
                Some((decode_utf8(bytes), k + n))
            } else {
                None
            }
        },
        None => None,
    }
}

/// What decoding a string from the front of `s` yields.
pub open spec fn spec_decode_string(s: Seq<u8>) -> Option<(Seq<char>, int)> {
    match spec_decode_marker(s) {
        Some((m, k)) => match spec_decode_string_body(m, s.skip(k)) {
            Some((v, n)) => Some((v, k + n)),
            None => None,
        },
        None => None,
    }
}

/// The error a failed string body decode reports: a marker outside the
/// string family is unexpected, a missing size or body is the end of the
/// stream, and a complete body can only fail UTF-8 validation.
pub open spec fn spec_decode_string_body_err(m: Marker, s: Seq<u8>) -> DecodeError {
    match spec_read_string_size(m, s) {
        Some((n, k)) => if s.skip(k).len() < n {
            DecodeError::UnexpectedEndOfStream
        } else {
            DecodeError::InvalidUtf8
        },
        None => crate::ll::types::lengths::spec_size_error(
            m matches Marker::String8 || m matches Marker::String16 || m matches Marker::String32,
            m matches Marker::String32,
            m,
            s,
        ),
    }
}

impl Unpack for String {
    type Model = Seq<char>;

    open spec fn model(&self) -> Seq<char> {
        self@
    }

    open spec fn spec_dec(s: Seq<u8>) -> Option<(Seq<char>, int)> {
        spec_decode_string(s)
    }

    open spec fn spec_dec_body(m: Marker, s: Seq<u8>) -> Option<(Seq<char>, int)> {
        spec_decode_string_body(m, s)
    }

    open spec fn spec_dec_err(s: Seq<u8>) -> DecodeError {
        match spec_decode_marker(s) {
            Some((m, k)) => spec_decode_string_body_err(m, s.skip(k)),
            None => crate::ll::marker::spec_marker_error(s),
        }
    }

    open spec fn spec_dec_body_err(m: Marker, s: Seq<u8>) -> DecodeError {
        spec_decode_string_body_err(m, s)
    }

    fn decode_body(marker: Marker, reader: &mut ByteReader) -> (r: Result<Self, DecodeError>)
    {
        proof {
            use_type_invariant(&*reader);
        }
        let len = match read_string_size(marker, reader) {
            Ok(n) => n,
            Err(e) => {
                return Err(e);
            },
        };
        proof {
            assert(reader.unread() =~= old(reader).unread().skip(
                reader.spec_position() - old(reader).spec_position(),
            ));
        }
        let bytes = match reader.read_bytes(len) {
            Some(b) => b,
            None => {
                return Err(DecodeError::UnexpectedEndOfStream);
            },
        };
        match string_from_utf8(bytes) {
            Some(st) => Ok(st),
            None => Err(DecodeError::InvalidUtf8),
        }
    }

    fn decode(reader: &mut ByteReader) -> (r: Result<Self, DecodeError>)
    {
        proof {
            use_type_invariant(&*reader);
        }
        let marker = match Marker::decode(reader) {
            Ok(m) => m,
            Err(e) => {
                return Err(e);
            },
        };
        proof {
            assert(reader.unread() =~= old(reader).unread().skip(
                reader.spec_position() - old(reader).spec_position(),
            ));
        }
        let r = Self::decode_body(marker, reader);
        r
    }
}


/// The header of a byte blob: there is no tiny byte class, so small sizes
/// use the one-byte-size class.
pub open spec fn spec_bytes_header(n: int) -> Seq<u8> {
    if n <= 0xFF {
        seq![0xCCu8, n as u8]
    } else if n <= 0xFFFF {
        seq![0xCDu8] + spec_be2(n as u16)
    } else if n <= 0x7FFFFFFF {
        seq![0xCEu8] + spec_be4(n as u32)
    } else {
        Seq::empty()
    }
}

impl Pack for Bytes {
    open spec fn spec_enc(&self) -> Seq<u8> {
        spec_bytes_header(self.0@.len() as int) + self.0@
    }

    open spec fn enc_req(&self) -> bool {
        self.0@.len() <= 0x7FFFFFFF
    }

    open spec fn enc_ok(&self) -> bool {
        true
    }

    fn encode(&self, writer: &mut Vec<u8>) -> (r: Result<usize, EncodeError>)
    {
        let len = self.0.len();
        let header_len: usize = match Length::from_usize(len) {
            Some(l) => {
                match l {
                    Length::Tiny(u) => {
                        let _r = Marker::Bytes8.encode(writer);
                        let _s = Length::Bit8(u).encode(writer);
                        2
                    },
                    Length::Bit8(u) => {
                        let _r = Marker::Bytes8.encode(writer);
                        let _s = write_size_8(u, writer);
                        2
                    },
                    Length::Bit16(u) => {
                        let _r = Marker::Bytes16.encode(writer);
                        let _s = write_size_16(u, writer);
                        3
                    },
                    Length::Bit32(i) => {
                        let _r = Marker::Bytes32.encode(writer);
                        let _s = write_size_32(i, writer);
                        5
                    },
                }
            },
            None => {
                proof {
                    assert(false);
                }
                0
            },
        };
        writer.extend_from_slice(self.0.as_slice());
        proof {
            assert(writer@ =~= old(writer)@ + self.spec_enc());
        }
        Ok(header_len + len)
    }
}

/// What decoding a byte blob body yields once its marker is known: the
/// size, then that many raw bytes.
pub open spec fn spec_decode_bytes_body(m: Marker, s: Seq<u8>) -> Option<(Seq<u8>, int)> {
    let size = match m {
        Marker::Bytes8 => spec_size8(s),
        Marker::Bytes16 => spec_size16(s),
        Marker::Bytes32 => spec_size32(s),
        _ => None,
    };
    match size {
        Some((n, k)) => if s.skip(k).len() >= n {
            Some((s.skip(k).take(n as int), k + n))
        } else {
            None
        },
        None => None,
    }
}

/// What decoding a byte blob from the front of `s` yields.
pub open spec fn spec_decode_bytes(s: Seq<u8>) -> Option<(Seq<u8>, int)> {
    match spec_decode_marker(s) {
        Some((m, k)) => match spec_decode_bytes_body(m, s.skip(k)) {
            Some((v, n)) => Some((v, k + n)),
            None => None,
        },
        None => None,
    }
}

/// The error a failed byte-blob body decode reports.
pub open spec fn spec_decode_bytes_body_err(m: Marker, s: Seq<u8>) -> DecodeError {
    let size = match m {
        Marker::Bytes8 => spec_size8(s),
        Marker::Bytes16 => spec_size16(s),
        Marker::Bytes32 => spec_size32(s),
        _ => None,
    };
    match size {
        Some((n, k)) => DecodeError::UnexpectedEndOfStream,
        None => crate::ll::types::lengths::spec_size_error(
            m matches Marker::Bytes8 || m matches Marker::Bytes16 || m matches Marker::Bytes32,
            m matches Marker::Bytes32,
            m,
            s,
        ),
    }
}

impl Unpack for Bytes {
    type Model = Seq<u8>;

    open spec fn model(&self) -> Seq<u8> {
        self.0@
    }

    open spec fn spec_dec(s: Seq<u8>) -> Option<(Seq<u8>, int)> {
        spec_decode_bytes(s)
    }

    open spec fn spec_dec_body(m: Marker, s: Seq<u8>) -> Option<(Seq<u8>, int)> {
        spec_decode_bytes_body(m, s)
    }

    open spec fn spec_dec_err(s: Seq<u8>) -> DecodeError {
        match spec_decode_marker(s) {
            Some((m, k)) => spec_decode_bytes_body_err(m, s.skip(k)),
            None => crate::ll::marker::spec_marker_error(s),
        }
    }

    open spec fn spec_dec_body_err(m: Marker, s: Seq<u8>) -> DecodeError {
        spec_decode_bytes_body_err(m, s)
    }

    fn decode_body(marker: Marker, reader: &mut ByteReader) -> (r: Result<Self, DecodeError>)
    {
        proof {
            use_type_invariant(&*reader);
        }
        let len = match marker {
            Marker::Bytes8 => read_size_8(reader),
            Marker::Bytes16 => read_size_16(reader),
            Marker::Bytes32 => read_size_32(reader),
            _ => Err(DecodeError::UnexpectedMarker(marker)),
        };
        let len = match len {
            Ok(n) => n,
            Err(e) => {
                return Err(e);
            },
        };
        proof {
            assert(reader.unread() =~= old(reader).unread().skip(
                reader.spec_position() - old(reader).spec_position(),
            ));
        }
        match reader.read_bytes(len) {
            Some(b) => Ok(Bytes(b)),
            None => Err(DecodeError::UnexpectedEndOfStream),
        }
    }

    fn decode(reader: &mut ByteReader) -> (r: Result<Self, DecodeError>)
    {
        proof {
            use_type_invariant(&*reader);
        }
        let marker = match Marker::decode(reader) {
            Ok(m) => m,
            Err(e) => {
                return Err(e);
            },
        };
        proof {
            assert(reader.unread() =~= old(reader).unread().skip(
                reader.spec_position() - old(reader).spec_position(),
            ));
        }
        let r = Self::decode_body(marker, reader);
        r
    }
}

/// The full list header for a size, marker and size bytes together;
/// meaningful up to the 32-bit ceiling.
pub open spec fn spec_list_header_of(n: int) -> Seq<u8> {
    match spec_length_of_size(n) {
        Some(l) => spec_list_header(l),
        None => Seq::empty(),
    }
}

/// The full dictionary header for a size, marker and size bytes together;
/// meaningful up to the 32-bit ceiling.
pub open spec fn spec_dict_header_of(n: int) -> Seq<u8> {
    match spec_length_of_size(n) {
        Some(l) => spec_dict_header(l),
        None => Seq::empty(),
    }
}

/// The models of a sequence of values, in order.
pub open spec fn models_elems<P: Unpack>(l: Seq<P>) -> Seq<P::Model>
    decreases l,
{
    if l.len() == 0 {
        Seq::empty()
    } else {
        seq![l[0].model()] + models_elems(l.skip(1))
    }
}

/// Appending one value appends its model.
pub proof fn lemma_models_elems_push<P: Unpack>(l: Seq<P>, x: P)
    ensures
        models_elems(l.push(x)) == models_elems(l) + seq![x.model()],
    decreases l,
{
    if l.len() == 0 {
        assert(l.push(x).skip(1) =~= Seq::<P>::empty());
        assert(models_elems(l.push(x).skip(1)) == Seq::<P::Model>::empty());
        assert(l.push(x)[0] == x);
        assert(models_elems(l.push(x)) == seq![x.model()] + Seq::<P::Model>::empty());
        assert(models_elems(l) == Seq::<P::Model>::empty());
        assert((seq![x.model()] + Seq::<P::Model>::empty()) =~= (Seq::<P::Model>::empty()
            + seq![x.model()]));
    } else {
        lemma_models_elems_push(l.skip(1), x);
        assert(l.push(x).skip(1) =~= l.skip(1).push(x));
        assert(l.push(x)[0] == l[0]);
        assert(models_elems(l.push(x)) == seq![l[0].model()] + (models_elems(l.skip(1))
            + seq![x.model()]));
        assert((seq![l[0].model()] + (models_elems(l.skip(1)) + seq![x.model()])) =~= ((seq![l[0].model()]
            + models_elems(l.skip(1))) + seq![x.model()]));
        assert(models_elems(l) == seq![l[0].model()] + models_elems(l.skip(1)));
    }
}

impl<P: Pack> Pack for Vec<P> {
    open spec fn spec_enc(&self) -> Seq<u8> {
        spec_list_header_of(self@.len() as int) + spec_enc_elems(self@)
    }

    open spec fn enc_req(&self) -> bool {
        self@.len() <= 0x7FFFFFFF && spec_elems_req(self@)
    }

    open spec fn enc_ok(&self) -> bool {
        spec_elems_ok(self@)
    }

    fn encode(&self, writer: &mut Vec<u8>) -> (r: Result<usize, EncodeError>)
    {
        let len = self.len();
        let start = writer.len();
        let header = match Length::from_usize(len) {
            Some(l) => l,
            None => {
                proof {
                    assert(false);
                }
                Length::Tiny(0)
            },
        };
        let _h = header.encode_as_list_size(writer);
        match write_body_by_iter(self, writer) {
            Ok(_) => {
                proof {
                    assert(writer@ =~= old(writer)@ + self.spec_enc());
                }
                let end = writer.len();
                Ok(end - start)
            },
            Err(e) => Err(e),
        }
    }
}

/// What decoding `n` consecutive values yields: their models in order and
/// the bytes they cover together, or nothing as soon as one of them fails.
pub open spec fn spec_dec_elems<P: Unpack>(s: Seq<u8>, n: int) -> Option<(Seq<P::Model>, int)>
    decreases s.len(), 1int, n,
{
    if n <= 0 {
        Some((Seq::empty(), 0))
    } else {
        match P::spec_dec(s) {
            Some((m, used)) => if 0 <= used <= s.len() {
                match spec_dec_elems::<P>(s.skip(used), n - 1) {
                    Some((ms, u2)) => Some((seq![m] + ms, used + u2)),
                    None => None,
                }
            } else {
                None
            },
            None => None,
        }
    }
}

/// The error a failed element-sequence decode reports: the first failing
/// element's own error, unchanged. Meaningful exactly where
/// [`spec_dec_elems`] is `None`; the never-failing cases fall back to an
/// inert value.
#[verifier::opaque]
pub open spec fn spec_dec_elems_err<P: Unpack>(s: Seq<u8>, n: int) -> DecodeError
    decreases s.len(), 1int, n,
{
    if n <= 0 {
        DecodeError::UnexpectedEndOfStream
    } else {
        match P::spec_dec(s) {
            Some((m, used)) => if 0 <= used <= s.len() {
                spec_dec_elems_err::<P>(s.skip(used), n - 1)
            } else {
                DecodeError::UnexpectedEndOfStream
            },
            None => P::spec_dec_err(s),
        }
    }
}

impl<P: Unpack> Unpack for Vec<P> {
    type Model = Seq<P::Model>;

    open spec fn model(&self) -> Seq<P::Model> {
        models_elems(self@)
    }

    open spec fn spec_dec(s: Seq<u8>) -> Option<(Seq<P::Model>, int)> {
        match spec_decode_marker(s) {
            Some((m, k)) => match Self::spec_dec_body(m, s.skip(k)) {
                Some((v, n)) => Some((v, k + n)),
                None => None,
            },
            None => None,
        }
    }

    open spec fn spec_dec_body(m: Marker, s: Seq<u8>) -> Option<(Seq<P::Model>, int)> {
        match spec_read_list_size(m, s) {
            Some((n, k)) => match spec_dec_elems::<P>(s.skip(k), n as int) {
                Some((ms, u)) => Some((ms, k + u)),
                None => None,
            },
            None => None,
        }
    }

    open spec fn spec_dec_err(s: Seq<u8>) -> DecodeError {
        match spec_decode_marker(s) {
            Some((m, k)) => Self::spec_dec_body_err(m, s.skip(k)),
            None => crate::ll::marker::spec_marker_error(s),
        }
    }

    open spec fn spec_dec_body_err(m: Marker, s: Seq<u8>) -> DecodeError {
        match spec_read_list_size(m, s) {
            Some((n, k)) => spec_dec_elems_err::<P>(s.skip(k), n as int),
            None => crate::ll::types::lengths::spec_size_error(
                m matches Marker::List8 || m matches Marker::List16 || m matches Marker::List32,
                m matches Marker::List32,
                m,
                s,
            ),
        }
    }

    fn decode_body(marker: Marker, reader: &mut ByteReader) -> (r: Result<Self, DecodeError>)
    {
        proof {
            use_type_invariant(&*reader);
        }
        let len = match read_list_size(marker, reader) {
            Ok(n) => n,
            Err(e) => {
                return Err(e);
            },
        };
        proof {
            assert(reader.unread() =~= old(reader).unread().skip(
                reader.spec_position() - old(reader).spec_position(),
            ));
        }
        let r = decode_elements::<P>(len, reader);
        match r {
            Ok(v) => Ok(v),
            Err(e) => Err(e),
        }
    }

    fn decode(reader: &mut ByteReader) -> (r: Result<Self, DecodeError>)
    {
        proof {
            use_type_invariant(&*reader);
        }
        let marker = match Marker::decode(reader) {
            Ok(m) => m,
            Err(e) => {
                return Err(e);
            },
        };
        proof {
            assert(reader.unread() =~= old(reader).unread().skip(
                reader.spec_position() - old(reader).spec_position(),
            ));
        }
        let r = Self::decode_body(marker, reader);
        r
    }
}

/// Reads `len` consecutive values, failing as soon as one of them does.
pub(crate) fn decode_elements<P: Unpack>(len: usize, reader: &mut ByteReader) -> (r: Result<
    Vec<P>,
    DecodeError,
>)
    ensures
        final(reader).all_bytes() == old(reader).all_bytes(),
        final(reader).spec_position() >= old(reader).spec_position(),
        match r {
            Ok(v) => spec_dec_elems::<P>(old(reader).unread(), len as int) == Some(
                (
                    models_elems(v@),
                    final(reader).spec_position() - old(reader).spec_position(),
                ),
            ),
            Err(e) => {
                &&& spec_dec_elems::<P>(old(reader).unread(), len as int) is None
                &&& e == spec_dec_elems_err::<P>(old(reader).unread(), len as int)
            },
        },
{
    proof {
        use_type_invariant(&*reader);
    }
    let mut result: Vec<P> = Vec::with_capacity(len);
    let mut i: usize = 0;
    while i < len
        invariant
            0 <= i <= len,
            reader.all_bytes() == old(reader).all_bytes(),
            0 <= old(reader).spec_position(),
            old(reader).spec_position() <= reader.spec_position() <= reader.all_bytes().len(),
            result@.len() == i as int,
            match spec_dec_elems::<P>(reader.unread(), (len - i) as int) {
                Some((ms, u)) => spec_dec_elems::<P>(old(reader).unread(), len as int) == Some(
                    (
                        models_elems(result@) + ms,
                        reader.spec_position() - old(reader).spec_position() + u,
                    ),
                ),
                None => spec_dec_elems::<P>(old(reader).unread(), len as int) is None
                    && spec_dec_elems_err::<P>(old(reader).unread(), len as int)
                    == spec_dec_elems_err::<P>(reader.unread(), (len - i) as int),
            },
        decreases len - i,
    {
        proof {
            reveal_with_fuel(spec_dec_elems_err, 2);
        }
        let ghost pre = *reader;
        let ghost old_result = result@;
        match P::decode(reader) {
            Ok(v) => {
                proof {
                    use_type_invariant(&*reader);
                    assert(reader.unread() =~= pre.unread().skip(
                        reader.spec_position() - pre.spec_position(),
                    ));
                }
                let ghost prev_models = models_elems(result@);
                result.push(v);
                proof {
                    lemma_models_elems_push(old_result, v);
                    assert forall|ms: Seq<P::Model>|
                        prev_models + (seq![v.model()] + ms) =~= (prev_models + seq![v.model()])
                            + ms by {}
                }
                i = i + 1;
            },
            Err(e) => {
                return Err(e);
            },
        }
    }
    Ok(result)
}

/// A successful element decode yields exactly as many models as it was
/// asked for.
pub proof fn lemma_dec_elems_len<P: Unpack>(s: Seq<u8>, n: int)
    ensures
        spec_dec_elems::<P>(s, n) matches Some((ms, u)) ==> ms.len() == (if n >= 0 {
            n
        } else {
            0
        }),
    decreases s.len(), 1int, n,
{
    if n <= 0 {
    } else {
        match P::spec_dec(s) {
            Some((m, used)) => {
                if 0 <= used <= s.len() {
                    lemma_dec_elems_len::<P>(s.skip(used), n - 1);
                }
            },
            None => {},
        }
    }
}

impl<P: Pack> Pack for Option<P> {
    open spec fn spec_enc(&self) -> Seq<u8> {
        match self {
            Some(p) => p.spec_enc(),
            None => seq![0xC0u8],
        }
    }

    open spec fn enc_req(&self) -> bool {
        match self {
            Some(p) => p.enc_req(),
            None => true,
        }
    }

    open spec fn enc_ok(&self) -> bool {
        match self {
            Some(p) => p.enc_ok(),
            None => true,
        }
    }

    fn encode(&self, writer: &mut Vec<u8>) -> (r: Result<usize, EncodeError>)
    {
        match self {
            Some(p) => p.encode(writer),
            None => {
                let _r = Marker::Null.encode(writer);
                Ok(1)
            },
        }
    }
}

impl<P: Unpack> Unpack for Option<P> {
    type Model = Option<P::Model>;

    open spec fn model(&self) -> Option<P::Model> {
        match self {
            Some(p) => Some(p.model()),
            None => None,
        }
    }

    open spec fn spec_dec(s: Seq<u8>) -> Option<(Option<P::Model>, int)> {
        match spec_decode_marker(s) {
            Some((m, k)) => match Self::spec_dec_body(m, s.skip(k)) {
                Some((v, n)) => Some((v, k + n)),
                None => None,
            },
            None => None,
        }
    }

    open spec fn spec_dec_body(m: Marker, s: Seq<u8>) -> Option<(Option<P::Model>, int)> {
        match m {
            Marker::Null => Some((None, 0)),
            _ => match P::spec_dec_body(m, s) {
                Some((v, n)) => Some((Some(v), n)),
                None => None,
            },
        }
    }

    open spec fn spec_dec_err(s: Seq<u8>) -> DecodeError {
        match spec_decode_marker(s) {
            Some((m, k)) => Self::spec_dec_body_err(m, s.skip(k)),
            None => crate::ll::marker::spec_marker_error(s),
        }
    }

    open spec fn spec_dec_body_err(m: Marker, s: Seq<u8>) -> DecodeError {
        P::spec_dec_body_err(m, s)
    }

    fn decode_body(marker: Marker, reader: &mut ByteReader) -> (r: Result<Self, DecodeError>)
    {
        match marker {
            Marker::Null => Ok(None),
            _ => match P::decode_body(marker, reader) {
                Ok(v) => Ok(Some(v)),
                Err(e) => Err(e),
            },
        }
    }

    fn decode(reader: &mut ByteReader) -> (r: Result<Self, DecodeError>)
    {
        proof {
            use_type_invariant(&*reader);
        }
        let marker = match Marker::decode(reader) {
            Ok(m) => m,
            Err(e) => {
                return Err(e);
            },
        };
        proof {
            assert(reader.unread() =~= old(reader).unread().skip(
                reader.spec_position() - old(reader).spec_position(),
            ));
        }
        let r = Self::decode_body(marker, reader);
        r
    }
}

} // verus!
