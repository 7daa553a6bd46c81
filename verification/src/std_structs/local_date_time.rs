//! A point in time without a timezone.

use vstd::prelude::*;
use crate::error::{DecodeError, EncodeError};
use crate::ll::marker::Marker;
use crate::packable::{decode_elements, lemma_dec_elems_len, spec_dec_elems, spec_dec_elems_err, spec_encode_int, Pack, Unpack};
use crate::stream::ByteReader;
use crate::std_structs::lemma_int_models;
use crate::structure::{
    decode_struct, decode_struct_body, encode_struct, spec_decode_struct, spec_decode_struct_body,
    spec_decode_struct_body_err, spec_decode_struct_err, spec_encode_struct, PackableStruct,
};

verus! {

/// A point in time without a timezone.
#[derive(Debug, Clone, PartialEq, Eq, Structural)]
pub struct LocalDateTime {
    /// Holds the seconds since the epoch.
    pub seconds: i64,
    /// Holds the nanoseconds within the second.
    pub nanoseconds: i64,
}

impl PackableStruct for LocalDateTime {
    const FIELDS: usize = 2;

    type Model = LocalDateTime;

    open spec fn model(&self) -> LocalDateTime {
        *self
    }

    open spec fn spec_body_enc(&self) -> Seq<u8> {
        spec_encode_int(self.seconds) + spec_encode_int(self.nanoseconds)
    }

    open spec fn body_enc_req(&self) -> bool {
        true
    }

    open spec fn body_enc_ok(&self) -> bool {
        true
    }

    open spec fn spec_body_dec(s: Seq<u8>) -> Option<(LocalDateTime, int)> {
        match spec_dec_elems::<i64>(s, 2) {
            Some((ms, u)) => if ms.len() == 2 {
                Some((LocalDateTime { seconds: ms[0], nanoseconds: ms[1] }, u))
            } else {
                None
            },
            None => None,
        }
    }

    open spec fn spec_body_dec_err(s: Seq<u8>) -> DecodeError {
        spec_dec_elems_err::<i64>(s, 2)
    }

    fn fields() -> usize {
        2
    }

    fn read_structure_body(reader: &mut ByteReader) -> (r: Result<Self, DecodeError>)
    {
        match decode_elements::<i64>(2, reader) {
            Ok(v) => {
                proof {
                    lemma_dec_elems_len::<i64>(old(reader).unread(), 2 as int);
                    lemma_int_models(v@);
                }
                Ok(LocalDateTime { seconds: v[0], nanoseconds: v[1] })
            },
            Err(e) => Err(e),
        }
    }

    fn write_structure_body(&self, writer: &mut Vec<u8>) -> (r: Result<usize, EncodeError>)
    {
        let start = writer.len();
        let _w0 = self.seconds.encode(writer);
        let _w1 = self.nanoseconds.encode(writer);
        proof {
            assert(writer@ =~= old(writer)@ + self.spec_body_enc());
        }
        let end = writer.len();
        Ok(end - start)
    }
}

impl Pack for LocalDateTime {
    open spec fn spec_enc(&self) -> Seq<u8> {
        spec_encode_struct(0x64, self)
    }

    open spec fn enc_req(&self) -> bool {
        true
    }

    open spec fn enc_ok(&self) -> bool {
        true
    }

    fn encode(&self, writer: &mut Vec<u8>) -> (r: Result<usize, EncodeError>)
    {
        let r = encode_struct(0x64, self, writer);
        r
    }
}

impl Unpack for LocalDateTime {
    type Model = LocalDateTime;

    open spec fn model(&self) -> LocalDateTime {
        *self
    }

    open spec fn spec_dec(s: Seq<u8>) -> Option<(LocalDateTime, int)> {
        spec_decode_struct::<LocalDateTime>(0x64, s)
    }

    open spec fn spec_dec_body(m: Marker, s: Seq<u8>) -> Option<(LocalDateTime, int)> {
        spec_decode_struct_body::<LocalDateTime>(0x64, m, s)
    }

    open spec fn spec_dec_err(s: Seq<u8>) -> DecodeError {
        spec_decode_struct_err::<LocalDateTime>(0x64, s)
    }

    open spec fn spec_dec_body_err(m: Marker, s: Seq<u8>) -> DecodeError {
        spec_decode_struct_body_err::<LocalDateTime>(0x64, m, s)
    }

    fn decode_body(marker: Marker, reader: &mut ByteReader) -> (r: Result<Self, DecodeError>)
    {
        let r = decode_struct_body::<LocalDateTime>(0x64, marker, reader);
        r
    }

    fn decode(reader: &mut ByteReader) -> (r: Result<Self, DecodeError>)
    {
        let r = decode_struct::<LocalDateTime>(0x64, reader);
        r
    }
}

} // verus!
