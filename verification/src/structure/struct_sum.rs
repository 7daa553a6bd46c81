//! The contract for open enumerations of structure types that share one
//! decode dispatch keyed by the tag byte. New record types join the wire
//! format by joining such a sum; the core dispatch never changes.

use vstd::prelude::*;
use crate::error::{DecodeError, EncodeError};
use crate::stream::ByteReader;

verus! {

/// A sum of the structure types one decoder accepts: given a declared
/// field count and tag byte it reads the matching variant's body, and a
/// value of the sum reports its own field count and tag byte and writes
/// its body. Tag bytes across the variants of one sum must be pairwise
/// distinct.
pub trait PackableStructSum: Sized {
    /// The mathematical value this sum stands for.
    type Model;

    /// The model of this value.
    spec fn model(&self) -> Self::Model;

    /// What decoding a body with the given declared field count and tag
    /// from the front of `s` yields.
    spec fn spec_read_body(size: int, tag_byte: u8, s: Seq<u8>) -> Option<(Self::Model, int)>;

    /// The error a failed body decode reports. Meaningful exactly where
    /// `spec_read_body` is `None`.
    spec fn spec_read_body_err(size: int, tag_byte: u8, s: Seq<u8>) -> DecodeError;

    /// The canonical bytes of this value's body.
    spec fn spec_write_body(&self) -> Seq<u8>;

    /// The fields meet their encoding preconditions.
    spec fn write_body_req(&self) -> bool;

    /// Writing the body succeeds.
    spec fn write_body_ok(&self) -> bool;

    /// The field count this value declares.
    spec fn spec_fields_len(&self) -> int;

    /// The tag byte this value carries.
    spec fn spec_tag_byte(&self) -> u8;

    /// Reads the body of the variant whose tag is `tag_byte`, verifying
    /// the declared field count against that variant's own; an unknown tag
    /// fails with [`DecodeError::UnexpectedTagByte`].
    fn read_struct_body(size: usize, tag_byte: u8, reader: &mut ByteReader) -> (r: Result<
        Self,
        DecodeError,
    >)
        ensures
            final(reader).all_bytes() == old(reader).all_bytes(),
            final(reader).spec_position() >= old(reader).spec_position(),
            match r {
                Ok(v) => Self::spec_read_body(size as int, tag_byte, old(reader).unread())
                    == Some(
                    (v.model(), final(reader).spec_position() - old(reader).spec_position()),
                ),
                Err(e) => {
                    &&& Self::spec_read_body(size as int, tag_byte, old(reader).unread())
                        is None
                    &&& e == Self::spec_read_body_err(size as int, tag_byte, old(reader).unread())
                },
            },
    ;

    /// Writes this value's body, field after field.
    fn write_struct_body(&self, writer: &mut Vec<u8>) -> (r: Result<usize, EncodeError>)
        requires
            self.write_body_req(),
        ensures
            old(writer)@.is_prefix_of(final(writer)@),
            (r is Ok) == self.write_body_ok(),
            r matches Ok(n) ==> final(writer)@ == old(writer)@ + self.spec_write_body() && n
                == self.spec_write_body().len(),
    ;

    /// The field count this value declares.
    fn fields_len(&self) -> (r: usize)
        ensures
            r == self.spec_fields_len(),
    ;

    /// The tag byte this value carries.
    fn tag_byte(&self) -> (r: u8)
        ensures
            r == self.spec_tag_byte(),
    ;
}

} // verus!
