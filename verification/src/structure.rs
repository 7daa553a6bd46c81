//! The structure extension point: fixed-shape record types that take part
//! in the wire format with a tag byte of their own, and the open sums that
//! share one tag-keyed decode dispatch.

use vstd::prelude::*;
use crate::error::{DecodeError, EncodeError};
use crate::ll::marker::{spec_decode_marker, spec_encode_marker, Marker};
use crate::packable::{Pack, Unpack};
use crate::stream::ByteReader;

pub mod generic_struct;
pub mod packable_struct;
pub mod struct_sum;
pub mod tags;

pub use generic_struct::GenericStruct;
pub use packable_struct::PackableStruct;
pub use tags::Tags;
pub use struct_sum::PackableStructSum;

verus! {

/// A placeholder structure set with no reachable values: the inner field
/// is private and nothing in this crate ever builds one. Using it as the
/// structure parameter statically forbids structure values; decoding a
/// structure marker against it fails with
/// [`DecodeError::TryingToDecodeNoStruct`], and encoding one can never be
/// reached, since no instance exists.
#[derive(Debug, Clone, PartialEq)]
pub struct NoStruct(bool);

impl Pack for NoStruct {
    open spec fn spec_enc(&self) -> Seq<u8> {
        Seq::empty()
    }

    open spec fn enc_req(&self) -> bool {
        true
    }

    open spec fn enc_ok(&self) -> bool {
        true
    }

    fn encode(&self, writer: &mut Vec<u8>) -> (r: Result<usize, EncodeError>)
    {
        Ok(0)
    }
}

impl Unpack for NoStruct {
    type Model = ();

    open spec fn model(&self) -> () {
        ()
    }

    open spec fn spec_dec(s: Seq<u8>) -> Option<((), int)> {
        None
    }

    open spec fn spec_dec_body(m: Marker, s: Seq<u8>) -> Option<((), int)> {
        None
    }

    open spec fn spec_dec_err(s: Seq<u8>) -> DecodeError {
        match spec_decode_marker(s) {
            Some((m, k)) => Self::spec_dec_body_err(m, s.skip(k)),
            None => crate::ll::marker::spec_marker_error(s),
        }
    }

    /// A structure marker fails with the dedicated error; every other
    /// marker is simply not a structure.
    open spec fn spec_dec_body_err(m: Marker, s: Seq<u8>) -> DecodeError {
        if m is Structure {
            DecodeError::TryingToDecodeNoStruct
        } else {
            DecodeError::UnexpectedMarker(m)
        }
    }

    fn decode_body(marker: Marker, reader: &mut ByteReader) -> (r: Result<Self, DecodeError>)
    {
        match marker {
            Marker::Structure(_, _) => Err(DecodeError::TryingToDecodeNoStruct),
            _ => Err(DecodeError::UnexpectedMarker(marker)),
        }
    }

    fn decode(reader: &mut ByteReader) -> (r: Result<Self, DecodeError>)
    {
        let marker = match Marker::decode(reader) {
            Ok(m) => m,
            Err(e) => {
                return Err(e);
            },
        };
        match marker {
            Marker::Structure(_, _) => Err(DecodeError::TryingToDecodeNoStruct),
            _ => Err(DecodeError::UnexpectedMarker(marker)),
        }
    }
}

impl PackableStructSum for NoStruct {
    type Model = ();

    open spec fn model(&self) -> () {
        ()
    }

    open spec fn spec_read_body(size: int, tag_byte: u8, s: Seq<u8>) -> Option<((), int)> {
        None
    }

    open spec fn spec_read_body_err(size: int, tag_byte: u8, s: Seq<u8>) -> DecodeError {
        DecodeError::TryingToDecodeNoStruct
    }

    open spec fn spec_write_body(&self) -> Seq<u8> {
        Seq::empty()
    }

    open spec fn write_body_req(&self) -> bool {
        true
    }

    open spec fn write_body_ok(&self) -> bool {
        true
    }

    open spec fn spec_fields_len(&self) -> int {
        0
    }

    open spec fn spec_tag_byte(&self) -> u8 {
        0x00
    }

    fn read_struct_body(size: usize, tag_byte: u8, reader: &mut ByteReader) -> (r: Result<
        Self,
        DecodeError,
    >)
    {
        Err(DecodeError::TryingToDecodeNoStruct)
    }

    fn write_struct_body(&self, writer: &mut Vec<u8>) -> (r: Result<usize, EncodeError>)
    {
        Ok(0)
    }

    fn fields_len(&self) -> (r: usize)
    {
        0
    }

    fn tag_byte(&self) -> (r: u8)
    {
        0x00
    }
}

/// What decoding a structure body of type `T` yields once its marker is
/// known: the marker must be a structure marker declaring exactly
/// `T::FIELDS` fields and carrying `tag`, and the body must parse.
pub open spec fn spec_decode_struct_body<T: PackableStruct>(
    tag: u8,
    m: Marker,
    s: Seq<u8>,
) -> Option<(T::Model, int)> {
    match m {
        Marker::Structure(count, t) => if count == T::FIELDS && t == tag {
            T::spec_body_dec(s)
        } else {
            None
        },
        _ => None,
    }
}

/// What decoding a full structure of type `T` yields.
pub open spec fn spec_decode_struct<T: PackableStruct>(tag: u8, s: Seq<u8>) -> Option<
    (T::Model, int),
> {
    match spec_decode_marker(s) {
        Some((m, k)) => if 1 <= k <= s.len() {
            match spec_decode_struct_body::<T>(tag, m, s.skip(k)) {
                Some((v, n)) => Some((v, k + n)),
                None => None,
            }
        } else {
            None
        },
        None => None,
    }
}

/// The error a failed structure body decode reports: a non-structure
/// marker is unexpected; a wrong declared field count is reported before a
/// wrong tag; with both checks passed, the body's own error comes back
/// unchanged.
pub open spec fn spec_decode_struct_body_err<T: PackableStruct>(
    tag: u8,
    m: Marker,
    s: Seq<u8>,
) -> DecodeError {
    match m {
        Marker::Structure(count, t) => if count != T::FIELDS {
            DecodeError::UnexpectedNumberOfFields(T::FIELDS, count)
        } else if t != tag {
            DecodeError::UnexpectedTagByte(t)
        } else {
            T::spec_body_dec_err(s)
        },
        _ => DecodeError::UnexpectedMarker(m),
    }
}

/// The error a failed full-structure decode reports.
pub open spec fn spec_decode_struct_err<T: PackableStruct>(tag: u8, s: Seq<u8>) -> DecodeError {
    match spec_decode_marker(s) {
        Some((m, k)) => spec_decode_struct_body_err::<T>(tag, m, s.skip(k)),
        None => crate::ll::marker::spec_marker_error(s),
    }
}

/// The canonical bytes of a full structure of type `T`: the structure
/// marker declaring `T::FIELDS` fields with `tag`, then the body.
pub open spec fn spec_encode_struct<T: PackableStruct>(tag: u8, value: &T) -> Seq<u8> {
    spec_encode_marker(Marker::Structure(T::FIELDS, tag)) + value.spec_body_enc()
}

/// Encodes a full structure: the structure marker with its field count and
/// `tag`, then the body. Fails fast with
/// [`EncodeError::TooManyStructFields`] on a type declaring more fields
/// than the 4-bit field count can carry.
pub fn encode_struct<T: PackableStruct>(tag: u8, value: &T, writer: &mut Vec<u8>) -> (r: Result<
    usize,
    EncodeError,
>)
    requires
        value.body_enc_req(),
    ensures
        old(writer)@.is_prefix_of(final(writer)@),
        (r is Ok) == (T::FIELDS <= 0x0F && value.body_enc_ok()),
        r matches Ok(n) ==> final(writer)@ == old(writer)@ + spec_encode_struct(tag, value) && n
            == spec_encode_struct(tag, value).len(),
        r matches Err(e) ==> (T::FIELDS > 0x0F ==> e == EncodeError::TooManyStructFields(
            T::FIELDS,
        )),
{
    let fields = T::fields();
    if fields > 0x0F {
        return Err(EncodeError::TooManyStructFields(fields));
    }
    let start = writer.len();
    let _m = Marker::Structure(fields, tag).encode(writer);
    match value.write_structure_body(writer) {
        Ok(_) => {
            proof {
                assert(writer@ =~= old(writer)@ + spec_encode_struct(tag, value));
            }
            let end = writer.len();
            Ok(end - start)
        },
        Err(e) => Err(e),
    }
}

/// Decodes the body of a structure whose marker is already read: the
/// declared field count must be exactly `T::FIELDS`, else
/// [`DecodeError::UnexpectedNumberOfFields`]; the tag must be exactly
/// `tag`, else [`DecodeError::UnexpectedTagByte`]. Both checks guard
/// against reading one structure type as another.
pub fn decode_struct_body<T: PackableStruct>(
    tag: u8,
    marker: Marker,
    reader: &mut ByteReader,
) -> (r: Result<T, DecodeError>)
    ensures
        final(reader).all_bytes() == old(reader).all_bytes(),
        final(reader).spec_position() >= old(reader).spec_position(),
        match r {
            Ok(v) => spec_decode_struct_body::<T>(tag, marker, old(reader).unread()) == Some(
                (v.model(), final(reader).spec_position() - old(reader).spec_position()),
            ),
            Err(e) => {
                &&& spec_decode_struct_body::<T>(tag, marker, old(reader).unread()) is None
                &&& e == spec_decode_struct_body_err::<T>(tag, marker, old(reader).unread())
            },
        },
{
    match marker {
        Marker::Structure(count, t) => {
            let fields = T::fields();
            if count != fields {
                return Err(DecodeError::UnexpectedNumberOfFields(fields, count));
            }
            if t != tag {
                return Err(DecodeError::UnexpectedTagByte(t));
            }
            T::read_structure_body(reader)
        },
        _ => Err(DecodeError::UnexpectedMarker(marker)),
    }
}

/// Decodes a full structure: reads the marker, verifies the field count
/// and `tag` as [`decode_struct_body`] does, then reads the body.
pub fn decode_struct<T: PackableStruct>(tag: u8, reader: &mut ByteReader) -> (r: Result<
    T,
    DecodeError,
>)
    ensures
        final(reader).all_bytes() == old(reader).all_bytes(),
        final(reader).spec_position() >= old(reader).spec_position(),
        match r {
            Ok(v) => spec_decode_struct::<T>(tag, old(reader).unread()) == Some(
                (v.model(), final(reader).spec_position() - old(reader).spec_position()),
            ),
            Err(e) => {
                &&& spec_decode_struct::<T>(tag, old(reader).unread()) is None
                &&& e == spec_decode_struct_err::<T>(tag, old(reader).unread())
            },
        },
{
    proof {
        use_type_invariant(&*reader);
    }
    let marker = match Marker::decode(reader) {
        Ok(m) => m,
        Err(e) => {
            return Err(e);
        },
    };
    proof {
        use_type_invariant(&*reader);
        let s = old(reader).unread();
        assert(match spec_decode_marker(s) {
            Some((m2, k2)) => 1 <= k2 <= s.len(),
            None => true,
        });
        assert(reader.unread() =~= old(reader).unread().skip(
            reader.spec_position() - old(reader).spec_position(),
        ));
    }
    let r = decode_struct_body::<T>(tag, marker, reader);
    r
}

} // verus!
