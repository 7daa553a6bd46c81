//! A time of day without a timezone.

use vstd::prelude::*;
use crate::error::{DecodeError, EncodeError};
use crate::ll::marker::Marker;
use crate::packable::{decode_elements, lemma_dec_elems_len, spec_dec_elems, spec_dec_elems_err, spec_encode_int, Pack, Unpack};
use crate::stream::ByteReader;
use crate::std_structs::lemma_int_models;
use crate::structure::{
    decode_struct, decode_struct_body, encode_struct, spec_decode_struct, spec_decode_struct_body,
    spec_decode_struct_body_err, spec_decode_struct_err, spec_encode_struct, PackableStruct,
};

verus! {

/// A time of day without a timezone.
#[derive(Debug, Clone, PartialEq, Eq, Structural)]
pub struct LocalTime {
    /// Holds the nanoseconds since midnight.
    pub nanoseconds: i64,
}

impl PackableStruct for LocalTime {
    const FIELDS: usize = 1;

    type Model = LocalTime;

    open spec fn model(&self) -> LocalTime {
        *self
    }

    open spec fn spec_body_enc(&self) -> Seq<u8> {
        spec_encode_int(self.nanoseconds)
    }

    open spec fn body_enc_req(&self) -> bool {
        true
    }

    open spec fn body_enc_ok(&self) -> bool {
        true
    }

    open spec fn spec_body_dec(s: Seq<u8>) -> Option<(LocalTime, int)> {
        match spec_dec_elems::<i64>(s, 1) {
            Some((ms, u)) => if ms.len() == 1 {
                Some((LocalTime { nanoseconds: ms[0] }, u))
            } else {
                None
            },
            None => None,
        }
    }

    open spec fn spec_body_dec_err(s: Seq<u8>) -> DecodeError {
        spec_dec_elems_err::<i64>(s, 1)
    }

    fn fields() -> usize {
        1
    }

    fn read_structure_body(reader: &mut ByteReader) -> (r: Result<Self, DecodeError>)
    {
        match decode_elements::<i64>(1, reader) {
            Ok(v) => {
                proof {
                    lemma_dec_elems_len::<i64>(old(reader).unread(), 1 as int);
                    lemma_int_models(v@);
                }
                Ok(LocalTime { nanoseconds: v[0] })
            },
            Err(e) => Err(e),
        }
    }

    fn write_structure_body(&self, writer: &mut Vec<u8>) -> (r: Result<usize, EncodeError>)
    {
        let start = writer.len();
        let _w0 = self.nanoseconds.encode(writer);
        proof {
            assert(writer@ =~= old(writer)@ + self.spec_body_enc());
        }
        let end = writer.len();
        Ok(end - start)
    }
}

impl Pack for LocalTime {
    open spec fn spec_enc(&self) -> Seq<u8> {
        spec_encode_struct(0x74, self)
    }

    open spec fn enc_req(&self) -> bool {
        true
    }

    open spec fn enc_ok(&self) -> bool {
        true
    }

    fn encode(&self, writer: &mut Vec<u8>) -> (r: Result<usize, EncodeError>)
    {
        let r = encode_struct(0x74, self, writer);
        r
    }
}

impl Unpack for LocalTime {
    type Model = LocalTime;

    open spec fn model(&self) -> LocalTime {
        *self
    }

    open spec fn spec_dec(s: Seq<u8>) -> Option<(LocalTime, int)> {
        spec_decode_struct::<LocalTime>(0x74, s)
    }

    open spec fn spec_dec_body(m: Marker, s: Seq<u8>) -> Option<(LocalTime, int)> {
        spec_decode_struct_body::<LocalTime>(0x74, m, s)
    }

    open spec fn spec_dec_err(s: Seq<u8>) -> DecodeError {
        spec_decode_struct_err::<LocalTime>(0x74, s)
    }

    open spec fn spec_dec_body_err(m: Marker, s: Seq<u8>) -> DecodeError {
        spec_decode_struct_body_err::<LocalTime>(0x74, m, s)
    }

    fn decode_body(marker: Marker, reader: &mut ByteReader) -> (r: Result<Self, DecodeError>)
    {
        let r = decode_struct_body::<LocalTime>(0x74, marker, reader);
        r
    }

    fn decode(reader: &mut ByteReader) -> (r: Result<Self, DecodeError>)
    {
        let r = decode_struct::<LocalTime>(0x74, reader);
        r
    }
}

} // verus!
