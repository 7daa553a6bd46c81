//! The contract for fixed-shape record types: a declared field count and a
//! pair of operations over just the body, with the marker and tag handled
//! by [`encode_struct`](crate::structure::encode_struct) and
//! [`decode_struct`](crate::structure::decode_struct).

use vstd::prelude::*;
use crate::error::{DecodeError, EncodeError};
use crate::stream::ByteReader;

verus! {

/// A record type with a fixed number of fields that can read and write its
/// body, field after field, without any marker or tag.
///
/// For a valid wire encoding the field count must not exceed 15; a larger
/// declaration is rejected by
/// [`encode_struct`](crate::structure::encode_struct) at run time.
pub trait PackableStruct: Sized {
    /// The number of fields this record writes and reads.
    const FIELDS: usize;

    /// The mathematical value this record stands for.
    type Model;

    /// The model of this record.
    spec fn model(&self) -> Self::Model;

    /// The canonical bytes of the body: each field in order.
    spec fn spec_body_enc(&self) -> Seq<u8>;

    /// The fields meet their encoding preconditions.
    spec fn body_enc_req(&self) -> bool;

    /// Writing the body succeeds.
    spec fn body_enc_ok(&self) -> bool;

    /// What decoding the body from the front of `s` yields.
    spec fn spec_body_dec(s: Seq<u8>) -> Option<(Self::Model, int)>;

    /// The error a failed body decode reports. Meaningful exactly where
    /// `spec_body_dec` is `None`.
    spec fn spec_body_dec_err(s: Seq<u8>) -> DecodeError;

    /// The declared field count as a run-time value.
    fn fields() -> (r: usize)
        ensures
            r == Self::FIELDS,
    ;

    /// Reads the body: each field in order, nothing else.
    fn read_structure_body(reader: &mut ByteReader) -> (r: Result<Self, DecodeError>)
        ensures
            final(reader).all_bytes() == old(reader).all_bytes(),
            final(reader).spec_position() >= old(reader).spec_position(),
            match r {
                Ok(v) => Self::spec_body_dec(old(reader).unread()) == Some(
                    (v.model(), final(reader).spec_position() - old(reader).spec_position()),
                ),
                Err(e) => {
                    &&& Self::spec_body_dec(old(reader).unread()) is None
                    &&& e == Self::spec_body_dec_err(old(reader).unread())
                },
            },
    ;

    /// Writes the body: each field in order, nothing else.
    fn write_structure_body(&self, writer: &mut Vec<u8>) -> (r: Result<usize, EncodeError>)
        requires
            self.body_enc_req(),
        ensures
            old(writer)@.is_prefix_of(final(writer)@),
            (r is Ok) == self.body_enc_ok(),
            r matches Ok(n) ==> final(writer)@ == old(writer)@ + self.spec_body_enc() && n
                == self.spec_body_enc().len(),
    ;
}

} // verus!
