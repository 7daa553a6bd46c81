//! The variable-width size fields that follow size-class markers, and the
//! `Length` type that picks the smallest width a size fits in.

use vstd::prelude::*;
use crate::error::{DecodeError, EncodeError};
use crate::ll::marker::Marker;
use crate::ll::types::fixed::{
    decode_body_i32, spec_be2, spec_be4, spec_u16_of_be, spec_u32_of_be,
};
use crate::stream::ByteReader;

verus! {

/// The four width classes a size can be encoded in. `Tiny` sizes live in
/// the marker's low nibble and take no extra bytes; the other classes take
/// 1, 2 or 4 big-endian bytes after the marker. The 32-bit class is signed,
/// which caps every size at `i32::MAX`.
#[derive(Debug, Copy, Clone, PartialEq, Eq, Structural)]
pub enum Length {
    Tiny(u8),
    Bit8(u8),
    Bit16(u16),
    Bit32(i32),
}

/// The size a `Length` stands for.
pub open spec fn spec_length_value(l: Length) -> int {
    match l {
        Length::Tiny(u) => u as int,
        Length::Bit8(u) => u as int,
        Length::Bit16(u) => u as int,
        Length::Bit32(i) => i as int,
    }
}

/// The canonical width class for a size: the smallest one that holds it,
/// or nothing above the 32-bit ceiling.
pub open spec fn spec_length_of_size(n: int) -> Option<Length> {
    if n <= 0x0F {
        Some(Length::Tiny(n as u8))
    } else if n <= 0xFF {
        Some(Length::Bit8(n as u8))
    } else if n <= 0xFFFF {
        Some(Length::Bit16(n as u16))
    } else if n <= 0x7FFFFFFF {
        Some(Length::Bit32(n as i32))
    } else {
        None
    }
}

/// The bytes a `Length` writes: none for `Tiny`, else the size in 1, 2 or
/// 4 big-endian bytes.
pub open spec fn spec_encode_length(l: Length) -> Seq<u8> {
    match l {
        Length::Tiny(_) => Seq::empty(),
        Length::Bit8(u) => seq![u],
        Length::Bit16(u) => spec_be2(u),
        Length::Bit32(i) => spec_be4(i as u32),
    }
}

/// What reading a one-byte size from the front of `s` yields.
pub open spec fn spec_size8(s: Seq<u8>) -> Option<(usize, int)> {
    if s.len() >= 1 {
        Some((s[0] as usize, 1))
    } else {
        None
    }
}

/// What reading a two-byte big-endian size from the front of `s` yields.
pub open spec fn spec_size16(s: Seq<u8>) -> Option<(usize, int)> {
    if s.len() >= 2 {
        Some((spec_u16_of_be(s) as usize, 2))
    } else {
        None
    }
}

/// What reading a four-byte big-endian size from the front of `s` yields:
/// nothing if the bytes are missing or the signed 32-bit value is negative.
pub open spec fn spec_size32(s: Seq<u8>) -> Option<(usize, int)> {
    if s.len() >= 4 {
        if spec_u32_of_be(s) <= 0x7FFFFFFF {
            Some((spec_u32_of_be(s) as usize, 4))
        } else {
            None
        }
    } else {
        None
    }
}

/// Reads a one-byte size field.
pub fn read_size_8(reader: &mut ByteReader) -> (r: Result<usize, DecodeError>)
    ensures
        final(reader).all_bytes() == old(reader).all_bytes(),
        match r {
            Ok(v) => spec_size8(old(reader).unread()) == Some(
                (v, final(reader).spec_position() - old(reader).spec_position()),
            ),
            Err(e) => {
                &&& spec_size8(old(reader).unread()) is None
                &&& e == DecodeError::UnexpectedEndOfStream
                &&& final(reader).spec_position() == old(reader).spec_position()
            },
        },
{
    match reader.read_byte() {
        Some(b) => Ok(b as usize),
        None => Err(DecodeError::UnexpectedEndOfStream),
    }
}

/// Writes a one-byte size field.
pub fn write_size_8(size: u8, writer: &mut Vec<u8>) -> (r: Result<usize, EncodeError>)
    ensures
        final(writer)@ == old(writer)@ + seq![size],
        r matches Ok(n) && n == 1,
{
    writer.push(size);
    Ok(1)
}

/// Reads a two-byte big-endian size field.
pub fn read_size_16(reader: &mut ByteReader) -> (r: Result<usize, DecodeError>)
    ensures
        final(reader).all_bytes() == old(reader).all_bytes(),
        match r {
            Ok(v) => spec_size16(old(reader).unread()) == Some(
                (v, final(reader).spec_position() - old(reader).spec_position()),
            ),
            Err(e) => {
                &&& spec_size16(old(reader).unread()) is None
                &&& e == DecodeError::UnexpectedEndOfStream
                &&& final(reader).spec_position() == old(reader).spec_position()
            },
        },
{
    proof {
        use_type_invariant(&*reader);
    }
    match reader.read_bytes(2) {
        Some(b) => {
            let v = ((b[0] as u16) << 8u16) | (b[1] as u16);
            Ok(v as usize)
        },
        None => Err(DecodeError::UnexpectedEndOfStream),
    }
}

/// Writes a two-byte big-endian size field.
pub fn write_size_16(size: u16, writer: &mut Vec<u8>) -> (r: Result<usize, EncodeError>)
    ensures
        final(writer)@ == old(writer)@ + spec_be2(size),
        r matches Ok(n) && n == 2,
{
    writer.push((size >> 8u16) as u8);
    writer.push(size as u8);
    proof {
        assert(writer@ =~= old(writer)@ + spec_be2(size));
    }
    Ok(2)
}

/// Reads a four-byte size field, which the wire format keeps as a signed
/// 32-bit value; a negative value is no size and fails with
/// [`DecodeError::CannotReadSizeInfo`].
pub fn read_size_32(reader: &mut ByteReader) -> (r: Result<usize, DecodeError>)
    ensures
        final(reader).all_bytes() == old(reader).all_bytes(),
        match r {
            Ok(v) => spec_size32(old(reader).unread()) == Some(
                (v, final(reader).spec_position() - old(reader).spec_position()),
            ),
            Err(e) => {
                &&& spec_size32(old(reader).unread()) is None
                &&& e == (if old(reader).unread().len() < 4 {
                    DecodeError::UnexpectedEndOfStream
                } else {
                    DecodeError::CannotReadSizeInfo
                })
                &&& final(reader).spec_position() == (if old(reader).unread().len() < 4 {
                    old(reader).spec_position()
                } else {
                    old(reader).spec_position() + 4
                })
            },
        },
{
    proof {
        let w = spec_u32_of_be(old(reader).unread());
        assert((w as i32) >= 0 <==> w <= 0x7FFFFFFF) by (bit_vector);
        assert(w <= 0x7FFFFFFF ==> (w as i32) as usize == w as usize) by (bit_vector);
    }
    let u = match decode_body_i32(reader) {
        Ok(u) => u,
        Err(e) => {
            return Err(e);
        },
    };
    if u >= 0 {
        Ok(u as usize)
    } else {
        Err(DecodeError::CannotReadSizeInfo)
    }
}

/// Writes a four-byte big-endian size field from a signed 32-bit value.
pub fn write_size_32(size: i32, writer: &mut Vec<u8>) -> (r: Result<usize, EncodeError>)
    ensures
        final(writer)@ == old(writer)@ + spec_be4(size as u32),
        r matches Ok(n) && n == 4,
{
    let v = size as u32;
    writer.push((v >> 24u32) as u8);
    writer.push((v >> 16u32) as u8);
    writer.push((v >> 8u32) as u8);
    writer.push(v as u8);
    proof {
        assert(writer@ =~= old(writer)@ + spec_be4(size as u32));
    }
    Ok(4)
}

/// What reading a dictionary size yields, given the already-read marker:
/// the embedded nibble for the tiny class, else the following size field.
pub open spec fn spec_read_dict_size(m: Marker, s: Seq<u8>) -> Option<(usize, int)> {
    match m {
        Marker::TinyDictionary(u) => Some((u, 0)),
        Marker::Dictionary8 => spec_size8(s),
        Marker::Dictionary16 => spec_size16(s),
        Marker::Dictionary32 => spec_size32(s),
        _ => None,
    }
}

/// What reading a list size yields, given the already-read marker.
pub open spec fn spec_read_list_size(m: Marker, s: Seq<u8>) -> Option<(usize, int)> {
    match m {
        Marker::TinyList(u) => Some((u, 0)),
        Marker::List8 => spec_size8(s),
        Marker::List16 => spec_size16(s),
        Marker::List32 => spec_size32(s),
        _ => None,
    }
}

/// What reading a string size yields, given the already-read marker.
pub open spec fn spec_read_string_size(m: Marker, s: Seq<u8>) -> Option<(usize, int)> {
    match m {
        Marker::TinyString(u) => Some((u, 0)),
        Marker::String8 => spec_size8(s),
        Marker::String16 => spec_size16(s),
        Marker::String32 => spec_size32(s),
        _ => None,
    }
}

/// The error a failed size read reports, shared by the three size families:
/// a marker outside the family is `UnexpectedMarker`, missing bytes are the
/// end of the stream, and a negative 32-bit size cannot be read.
pub open spec fn spec_size_error(in_family: bool, wide: bool, m: Marker, s: Seq<u8>) -> DecodeError {
    if !in_family {
        DecodeError::UnexpectedMarker(m)
    } else if s.len() < 4 && wide {
        DecodeError::UnexpectedEndOfStream
    } else if !wide {
        DecodeError::UnexpectedEndOfStream
    } else {
        DecodeError::CannotReadSizeInfo
    }
}

/// Reads the size of a dictionary as denoted by `marker`; fails with
/// [`DecodeError::UnexpectedMarker`] on markers of any other class.
pub fn read_dict_size(marker: Marker, reader: &mut ByteReader) -> (r: Result<usize, DecodeError>)
    ensures
        final(reader).all_bytes() == old(reader).all_bytes(),
        final(reader).spec_position() >= old(reader).spec_position(),
        match r {
            Ok(v) => spec_read_dict_size(marker, old(reader).unread()) == Some(
                (v, final(reader).spec_position() - old(reader).spec_position()),
            ),
            Err(e) => {
                &&& spec_read_dict_size(marker, old(reader).unread()) is None
                &&& e == spec_size_error(
                    marker matches Marker::Dictionary8 || marker matches Marker::Dictionary16
                        || marker matches Marker::Dictionary32,
                    marker matches Marker::Dictionary32,
                    marker,
                    old(reader).unread(),
                )
            },
        },
{
    match marker {
        Marker::TinyDictionary(u) => {
            proof {
                assert(reader.spec_position() == old(reader).spec_position());
            }
            Ok(u)
        },
        Marker::Dictionary8 => {
            let r = read_size_8(reader);
            r
        },
        Marker::Dictionary16 => {
            let r = read_size_16(reader);
            r
        },
        Marker::Dictionary32 => {
            let r = read_size_32(reader);
            r
        },
        _ => Err(DecodeError::UnexpectedMarker(marker)),
    }
}

/// Reads the size of a list as denoted by `marker`; the exact analogue of
/// [`read_dict_size`].
pub fn read_list_size(marker: Marker, reader: &mut ByteReader) -> (r: Result<usize, DecodeError>)
    ensures
        final(reader).all_bytes() == old(reader).all_bytes(),
        final(reader).spec_position() >= old(reader).spec_position(),
        match r {
            Ok(v) => spec_read_list_size(marker, old(reader).unread()) == Some(
                (v, final(reader).spec_position() - old(reader).spec_position()),
            ),
            Err(e) => {
                &&& spec_read_list_size(marker, old(reader).unread()) is None
                &&& e == spec_size_error(
                    marker matches Marker::List8 || marker matches Marker::List16
                        || marker matches Marker::List32,
                    marker matches Marker::List32,
                    marker,
                    old(reader).unread(),
                )
            },
        },
{
    match marker {
        Marker::TinyList(u) => Ok(u),
        Marker::List8 => {
            let r = read_size_8(reader);
            r
        },
        Marker::List16 => {
            let r = read_size_16(reader);
            r
        },
        Marker::List32 => {
            let r = read_size_32(reader);
            r
        },
        _ => Err(DecodeError::UnexpectedMarker(marker)),
    }
}

/// Reads the size of a string as denoted by `marker`; the exact analogue of
/// [`read_dict_size`].
pub fn read_string_size(marker: Marker, reader: &mut ByteReader) -> (r: Result<usize, DecodeError>)
    ensures
        final(reader).all_bytes() == old(reader).all_bytes(),
        final(reader).spec_position() >= old(reader).spec_position(),
        match r {
            Ok(v) => spec_read_string_size(marker, old(reader).unread()) == Some(
                (v, final(reader).spec_position() - old(reader).spec_position()),
            ),
            Err(e) => {
                &&& spec_read_string_size(marker, old(reader).unread()) is None
                &&& e == spec_size_error(
                    marker matches Marker::String8 || marker matches Marker::String16
                        || marker matches Marker::String32,
                    marker matches Marker::String32,
                    marker,
                    old(reader).unread(),
                )
            },
        },
{
    match marker {
        Marker::TinyString(u) => Ok(u),
        Marker::String8 => {
            let r = read_size_8(reader);
            r
        },
        Marker::String16 => {
            let r = read_size_16(reader);
            r
        },
        Marker::String32 => {
            let r = read_size_32(reader);
            r
        },
        _ => Err(DecodeError::UnexpectedMarker(marker)),
    }
}

impl Length {
    /// Picks the marker for the family this size class belongs to: the given
    /// tiny constructor for `Tiny`, else the matching wide marker.
    pub fn marker<F: Fn(usize) -> Marker>(
        self,
        tiny_marker: F,
        marker8: Marker,
        marker16: Marker,
        marker32: Marker,
    ) -> (r: Marker)
        requires
            self matches Length::Tiny(u) ==> call_requires(tiny_marker, (u as usize,)),
        ensures
            self matches Length::Tiny(u) ==> call_ensures(tiny_marker, (u as usize,), r),
            self matches Length::Bit8(_) ==> r == marker8,
            self matches Length::Bit16(_) ==> r == marker16,
            self matches Length::Bit32(_) ==> r == marker32,
    {
        match self {
            Length::Tiny(u) => tiny_marker(u as usize),
            Length::Bit8(_) => marker8,
            Length::Bit16(_) => marker16,
            Length::Bit32(_) => marker32,
        }
    }

    /// Converts a size to its canonical, smallest width class; `None` above
    /// the 32-bit ceiling. The selection is exact: each class begins right
    /// where the previous one ends.
    pub fn from_usize(size: usize) -> (r: Option<Length>)
        ensures
            r == spec_length_of_size(size as int),
    {
        if size <= 0x0F {
            Some(Length::Tiny(size as u8))
        } else if size <= 0xFF {
            Some(Length::Bit8(size as u8))
        } else if size <= 0xFFFF {
            Some(Length::Bit16(size as u16))
        } else if size <= 0x7FFFFFFF {
            Some(Length::Bit32(size as i32))
        } else {
            None
        }
    }

    /// The size this `Length` stands for. A negative 32-bit value is no
    /// size and is left out by the precondition.
    pub fn into_usize(self) -> (r: usize)
        requires
            spec_length_value(self) >= 0,
        ensures
            r == spec_length_value(self),
    {
        match self {
            Length::Tiny(u) => u as usize,
            Length::Bit8(u) => u as usize,
            Length::Bit16(u) => u as usize,
            Length::Bit32(i) => i as usize,
        }
    }

    /// Writes the size bytes alone: nothing for `Tiny`, else the size in
    /// this class's width.
    pub fn encode(self, writer: &mut Vec<u8>) -> (r: Result<usize, EncodeError>)
        ensures
            final(writer)@ == old(writer)@ + spec_encode_length(self),
            r matches Ok(n) && n == spec_encode_length(self).len(),
    {
        match self {
            Length::Tiny(_) => {
                proof {
                    assert(writer@ =~= old(writer)@ + spec_encode_length(self));
                }
                Ok(0)
            },
            Length::Bit8(size) => write_size_8(size, writer),
            Length::Bit16(size) => write_size_16(size, writer),
            Length::Bit32(size) => write_size_32(size, writer),
        }
    }

    /// Writes this size as a full list header: marker byte, then size bytes.
    pub fn encode_as_list_size(self, writer: &mut Vec<u8>) -> (r: Result<usize, EncodeError>)
        ensures
            final(writer)@ == old(writer)@ + spec_list_header(self),
            r matches Ok(n) && n == spec_list_header(self).len(),
    {
        match self {
            Length::Tiny(u) => {
                let _res = Marker::TinyList(u as usize).encode(writer)?;
                Ok(1)
            },
            Length::Bit8(u) => {
                let _res = Marker::List8.encode(writer)?;
                writer.push(u);
                proof {
                    assert(writer@ =~= old(writer)@ + spec_list_header(self));
                }
                Ok(2)
            },
            Length::Bit16(u) => {
                let _a = Marker::List16.encode(writer)?;
                let _b = write_size_16(u, writer)?;
                proof {
                    assert(writer@ =~= old(writer)@ + spec_list_header(self));
                }
                Ok(3)
            },
            Length::Bit32(i) => {
                let _a = Marker::List32.encode(writer)?;
                let _b = write_size_32(i, writer)?;
                proof {
                    assert(writer@ =~= old(writer)@ + spec_list_header(self));
                }
                Ok(5)
            },
        }
    }

    /// Writes this size as a full dictionary header: marker byte, then size
    /// bytes.
    pub fn encode_as_dict_size(self, writer: &mut Vec<u8>) -> (r: Result<usize, EncodeError>)
        ensures
            final(writer)@ == old(writer)@ + spec_dict_header(self),
            r matches Ok(n) && n == spec_dict_header(self).len(),
    {
        match self {
            Length::Tiny(u) => {
                let _res = Marker::TinyDictionary(u as usize).encode(writer)?;
                Ok(1)
            },
            Length::Bit8(u) => {
                let _res = Marker::Dictionary8.encode(writer)?;
                writer.push(u);
                proof {
                    assert(writer@ =~= old(writer)@ + spec_dict_header(self));
                }
                Ok(2)
            },
            Length::Bit16(u) => {
                let _a = Marker::Dictionary16.encode(writer)?;
                let _b = write_size_16(u, writer)?;
                proof {
                    assert(writer@ =~= old(writer)@ + spec_dict_header(self));
                }
                Ok(3)
            },
            Length::Bit32(i) => {
                let _a = Marker::Dictionary32.encode(writer)?;
                let _b = write_size_32(i, writer)?;
                proof {
                    assert(writer@ =~= old(writer)@ + spec_dict_header(self));
                }
                Ok(5)
            },
        }
    }
}

/// The full list header bytes for a size class: marker, then size bytes.
pub open spec fn spec_list_header(l: Length) -> Seq<u8> {
    match l {
        Length::Tiny(u) => crate::ll::marker::spec_encode_marker(Marker::TinyList(u as usize)),
        Length::Bit8(u) => seq![0xD4u8, u],
        Length::Bit16(u) => seq![0xD5u8] + spec_be2(u),
        Length::Bit32(i) => seq![0xD6u8] + spec_be4(i as u32),
    }
}

/// The full dictionary header bytes for a size class: marker, then size
/// bytes.
pub open spec fn spec_dict_header(l: Length) -> Seq<u8> {
    match l {
        Length::Tiny(u) => crate::ll::marker::spec_encode_marker(
            Marker::TinyDictionary(u as usize),
        ),
        Length::Bit8(u) => seq![0xD8u8, u],
        Length::Bit16(u) => seq![0xD9u8] + spec_be2(u),
        Length::Bit32(i) => seq![0xDAu8] + spec_be4(i as u32),
    }
}

} // verus!
