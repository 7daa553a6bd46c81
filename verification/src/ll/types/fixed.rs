//! Codecs for the fixed-width wire classes: the two inline tiny integer
//! forms, the 8/16/32/64-bit big-endian integers and the 64-bit float body.
//!
//! Floating-point values travel as their IEEE-754 bit pattern; this module
//! moves those eight bytes and takes the pattern as a plain `u64`, so that
//! no float arithmetic happens anywhere in the codec.

use vstd::prelude::*;
use crate::error::{DecodeError, EncodeError};
use crate::ll::marker::Marker;
use crate::stream::ByteReader;

verus! {

/// The two big-endian bytes of a 16-bit value.
pub open spec fn spec_be2(v: u16) -> Seq<u8> {
    seq![(v >> 8) as u8, v as u8]
}

/// The four big-endian bytes of a 32-bit value.
pub open spec fn spec_be4(v: u32) -> Seq<u8> {
    seq![(v >> 24) as u8, (v >> 16) as u8, (v >> 8) as u8, v as u8]
}

/// The eight big-endian bytes of a 64-bit value.
pub open spec fn spec_be8(v: u64) -> Seq<u8> {
    seq![
        (v >> 56) as u8,
        (v >> 48) as u8,
        (v >> 40) as u8,
        (v >> 32) as u8,
        (v >> 24) as u8,
        (v >> 16) as u8,
        (v >> 8) as u8,
        v as u8,
    ]
}

/// The 16-bit value read big-endian from the first two bytes of `s`.
pub open spec fn spec_u16_of_be(s: Seq<u8>) -> u16
    recommends
        s.len() >= 2,
{
    ((s[0] as u16) << 8) | (s[1] as u16)
}

/// The 32-bit value read big-endian from the first four bytes of `s`.
pub open spec fn spec_u32_of_be(s: Seq<u8>) -> u32
    recommends
        s.len() >= 4,
{
    ((s[0] as u32) << 24) | ((s[1] as u32) << 16) | ((s[2] as u32) << 8) | (s[3] as u32)
}

/// The 64-bit value read big-endian from the first eight bytes of `s`.
pub open spec fn spec_u64_of_be(s: Seq<u8>) -> u64
    recommends
        s.len() >= 8,
{
    ((s[0] as u64) << 56) | ((s[1] as u64) << 48) | ((s[2] as u64) << 40) | ((s[3] as u64) << 32)
        | ((s[4] as u64) << 24) | ((s[5] as u64) << 16) | ((s[6] as u64) << 8) | (s[7] as u64)
}

/// Reads one byte and reinterprets it as the value of a negative tiny
/// integer.
pub fn decode_minus_tiny_int(reader: &mut ByteReader) -> (r: Result<i8, DecodeError>)
    ensures
        final(reader).all_bytes() == old(reader).all_bytes(),
        match r {
            Ok(v) => {
                &&& old(reader).unread().len() >= 1
                &&& v == old(reader).unread()[0] as i8
                &&& final(reader).spec_position() == old(reader).spec_position() + 1
            },
            Err(e) => {
                &&& old(reader).unread().len() == 0
                &&& e == DecodeError::UnexpectedEndOfStream
                &&& final(reader).spec_position() == old(reader).spec_position()
            },
        },
{
    match reader.read_byte() {
        Some(b) => Ok(byte_to_minus_tiny_int(b)),
        None => Err(DecodeError::UnexpectedEndOfStream),
    }
}

/// The value of a negative tiny integer is its byte read as a signed 8-bit
/// two's-complement value; no offset arithmetic is involved. This does not
/// check that the byte lies in the `0xF0..=0xFF` class.
pub fn byte_to_minus_tiny_int(value: u8) -> (r: i8)
    ensures
        r == value as i8,
{
    value as i8
}

/// The reverse of [`byte_to_minus_tiny_int`]; meaningful for values in
/// `-16..=-1`, whose two's-complement bytes are exactly `0xF0..=0xFF`.
pub fn minus_tiny_int_to_byte(value: i8) -> (r: u8)
    ensures
        r == value as u8,
{
    value as u8
}

/// Writes a negative tiny integer as its single two's-complement byte.
pub fn encode_minus_tiny_int(from: i8, into: &mut Vec<u8>) -> (r: Result<usize, EncodeError>)
    ensures
        final(into)@ == old(into)@ + seq![from as u8],
        r matches Ok(n) && n == 1,
{
    let b = minus_tiny_int_to_byte(from);
    into.push(b);
    Ok(1)
}

/// Writes a positive tiny integer, whose single byte is the value itself.
pub fn encode_plus_tiny_int(from: u8, into: &mut Vec<u8>) -> (r: Result<usize, EncodeError>)
    ensures
        final(into)@ == old(into)@ + seq![from],
        r matches Ok(n) && n == 1,
{
    into.push(from);
    Ok(1)
}

/// Reads the single byte of a positive tiny integer.
pub fn decode_plus_tiny_int(from: &mut ByteReader) -> (r: Result<u8, DecodeError>)
    ensures
        final(from).all_bytes() == old(from).all_bytes(),
        match r {
            Ok(v) => {
                &&& old(from).unread().len() >= 1
                &&& v == old(from).unread()[0]
                &&& final(from).spec_position() == old(from).spec_position() + 1
            },
            Err(e) => {
                &&& old(from).unread().len() == 0
                &&& e == DecodeError::UnexpectedEndOfStream
                &&& final(from).spec_position() == old(from).spec_position()
            },
        },
{
    match from.read_byte() {
        Some(b) => Ok(b),
        None => Err(DecodeError::UnexpectedEndOfStream),
    }
}

/// Writes an 8-bit integer: the `Int8` marker, then one two's-complement
/// byte.
pub fn encode_i8(from: i8, into: &mut Vec<u8>) -> (r: Result<usize, EncodeError>)
    ensures
        final(into)@ == old(into)@ + seq![0xC8u8, from as u8],
        r matches Ok(n) && n == 2,
{
    let _res = Marker::Int8.encode(into);
    into.push(from as u8);
    Ok(2)
}

/// Reads the one-byte body of an 8-bit integer.
pub fn decode_body_i8(from: &mut ByteReader) -> (r: Result<i8, DecodeError>)
    ensures
        final(from).all_bytes() == old(from).all_bytes(),
        match r {
            Ok(v) => {
                &&& old(from).unread().len() >= 1
                &&& v == old(from).unread()[0] as i8
                &&& final(from).spec_position() == old(from).spec_position() + 1
            },
            Err(e) => {
                &&& old(from).unread().len() == 0
                &&& e == DecodeError::UnexpectedEndOfStream
                &&& final(from).spec_position() == old(from).spec_position()
            },
        },
{
    match from.read_byte() {
        Some(b) => Ok(b as i8),
        None => Err(DecodeError::UnexpectedEndOfStream),
    }
}

/// Writes a 16-bit integer: the `Int16` marker, then two big-endian bytes.
pub fn encode_i16(from: i16, into: &mut Vec<u8>) -> (r: Result<usize, EncodeError>)
    ensures
        final(into)@ == old(into)@ + seq![0xC9u8] + spec_be2(from as u16),
        r matches Ok(n) && n == 3,
{
    let _res = Marker::Int16.encode(into);
    let v = from as u16;
    into.push((v >> 8) as u8);
    into.push(v as u8);
    proof {
        assert(into@ =~= old(into)@ + seq![0xC9u8] + spec_be2(from as u16));
    }
    Ok(3)
}

/// Reads the two-byte big-endian body of a 16-bit integer.
pub fn decode_body_i16(from: &mut ByteReader) -> (r: Result<i16, DecodeError>)
    ensures
        final(from).all_bytes() == old(from).all_bytes(),
        match r {
            Ok(v) => {
                &&& old(from).unread().len() >= 2
                &&& v == spec_u16_of_be(old(from).unread()) as i16
                &&& final(from).spec_position() == old(from).spec_position() + 2
            },
            Err(e) => {
                &&& old(from).unread().len() < 2
                &&& e == DecodeError::UnexpectedEndOfStream
                &&& final(from).spec_position() == old(from).spec_position()
            },
        },
{
    proof {
        use_type_invariant(&*from);
    }
    match from.read_bytes(2) {
        Some(b) => {
            let v = ((b[0] as u16) << 8u16) | (b[1] as u16);
            Ok(v as i16)
        },
        None => Err(DecodeError::UnexpectedEndOfStream),
    }
}

/// Writes a 32-bit integer: the `Int32` marker, then four big-endian bytes.
pub fn encode_i32(from: i32, into: &mut Vec<u8>) -> (r: Result<usize, EncodeError>)
    ensures
        final(into)@ == old(into)@ + seq![0xCAu8] + spec_be4(from as u32),
        r matches Ok(n) && n == 5,
{
    let _res = Marker::Int32.encode(into);
    let v = from as u32;
    into.push((v >> 24) as u8);
    into.push((v >> 16) as u8);
    into.push((v >> 8) as u8);
    into.push(v as u8);
    proof {
        assert(into@ =~= old(into)@ + seq![0xCAu8] + spec_be4(from as u32));
    }
    Ok(5)
}

/// Reads the four-byte big-endian body of a 32-bit integer.
pub fn decode_body_i32(from: &mut ByteReader) -> (r: Result<i32, DecodeError>)
    ensures
        final(from).all_bytes() == old(from).all_bytes(),
        match r {
            Ok(v) => {
                &&& old(from).unread().len() >= 4
                &&& v == spec_u32_of_be(old(from).unread()) as i32
                &&& final(from).spec_position() == old(from).spec_position() + 4
            },
            Err(e) => {
                &&& old(from).unread().len() < 4
                &&& e == DecodeError::UnexpectedEndOfStream
                &&& final(from).spec_position() == old(from).spec_position()
            },
        },
{
    proof {
        use_type_invariant(&*from);
    }
    match from.read_bytes(4) {
        Some(b) => {
            let v = ((b[0] as u32) << 24u32) | ((b[1] as u32) << 16u32) | ((b[2] as u32) << 8u32)
                | (b[3] as u32);
            Ok(v as i32)
        },
        None => Err(DecodeError::UnexpectedEndOfStream),
    }
}

/// Writes a 64-bit integer: the `Int64` marker, then eight big-endian
/// bytes.
pub fn encode_i64(from: i64, into: &mut Vec<u8>) -> (r: Result<usize, EncodeError>)
    ensures
        final(into)@ == old(into)@ + seq![0xCBu8] + spec_be8(from as u64),
        r matches Ok(n) && n == 9,
{
    let _res = Marker::Int64.encode(into);
    push_be8(from as u64, into);
    proof {
        assert(into@ =~= old(into)@ + seq![0xCBu8] + spec_be8(from as u64));
    }
    Ok(9)
}

/// Reads the eight-byte big-endian body of a 64-bit integer.
pub fn decode_body_i64(from: &mut ByteReader) -> (r: Result<i64, DecodeError>)
    ensures
        final(from).all_bytes() == old(from).all_bytes(),
        match r {
            Ok(v) => {
                &&& old(from).unread().len() >= 8
                &&& v == spec_u64_of_be(old(from).unread()) as i64
                &&& final(from).spec_position() == old(from).spec_position() + 8
            },
            Err(e) => {
                &&& old(from).unread().len() < 8
                &&& e == DecodeError::UnexpectedEndOfStream
                &&& final(from).spec_position() == old(from).spec_position()
            },
        },
{
    proof {
        use_type_invariant(&*from);
    }
    match read_be8(from) {
        Some(v) => Ok(v as i64),
        None => Err(DecodeError::UnexpectedEndOfStream),
    }
}

/// Writes a 64-bit float: the `Float64` marker, then the eight big-endian
/// bytes of the IEEE-754 bit pattern given in `bits`.
pub fn encode_f64(bits: u64, into: &mut Vec<u8>) -> (r: Result<usize, EncodeError>)
    ensures
        final(into)@ == old(into)@ + seq![0xC1u8] + spec_be8(bits),
        r matches Ok(n) && n == 9,
{
    let _res = Marker::Float64.encode(into);
    push_be8(bits, into);
    proof {
        assert(into@ =~= old(into)@ + seq![0xC1u8] + spec_be8(bits));
    }
    Ok(9)
}

/// Reads the eight-byte body of a 64-bit float and returns its IEEE-754
/// bit pattern.
pub fn decode_body_f64(from: &mut ByteReader) -> (r: Result<u64, DecodeError>)
    ensures
        final(from).all_bytes() == old(from).all_bytes(),
        match r {
            Ok(v) => {
                &&& old(from).unread().len() >= 8
                &&& v == spec_u64_of_be(old(from).unread())
                &&& final(from).spec_position() == old(from).spec_position() + 8
            },
            Err(e) => {
                &&& old(from).unread().len() < 8
                &&& e == DecodeError::UnexpectedEndOfStream
                &&& final(from).spec_position() == old(from).spec_position()
            },
        },
{
    proof {
        use_type_invariant(&*from);
    }
    match read_be8(from) {
        Some(v) => Ok(v),
        None => Err(DecodeError::UnexpectedEndOfStream),
    }
}

/// Appends the eight big-endian bytes of `v`.
fn push_be8(v: u64, into: &mut Vec<u8>) -> (r: usize)
    ensures
        final(into)@ == old(into)@ + spec_be8(v),
        r == 8,
{
    into.push((v >> 56) as u8);
    into.push((v >> 48) as u8);
    into.push((v >> 40) as u8);
    into.push((v >> 32) as u8);
    into.push((v >> 24) as u8);
    into.push((v >> 16) as u8);
    into.push((v >> 8) as u8);
    into.push(v as u8);
    proof {
        assert(into@ =~= old(into)@ + spec_be8(v));
    }
    8
}

/// Reads eight bytes and assembles them big-endian.
fn read_be8(from: &mut ByteReader) -> (r: Option<u64>)
    ensures
        final(from).all_bytes() == old(from).all_bytes(),
        match r {
            Some(v) => {
                &&& old(from).unread().len() >= 8
                &&& v == spec_u64_of_be(old(from).unread())
                &&& final(from).spec_position() == old(from).spec_position() + 8
            },
            None => {
                &&& old(from).unread().len() < 8
                &&& final(from).spec_position() == old(from).spec_position()
            },
        },
{
    proof {
        use_type_invariant(&*from);
    }
    match from.read_bytes(8) {
        Some(b) => {
            let v = ((b[0] as u64) << 56u64) | ((b[1] as u64) << 48u64) | ((b[2] as u64) << 40u64)
                | ((b[3] as u64) << 32u64) | ((b[4] as u64) << 24u64) | ((b[5] as u64) << 16u64)
                | ((b[6] as u64) << 8u64) | (b[7] as u64);
            Some(v)
        },
        None => None,
    }
}

} // verus!
