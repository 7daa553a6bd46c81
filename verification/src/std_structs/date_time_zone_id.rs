//! A point in time with a timezone identifier.

use vstd::prelude::*;
use crate::error::{DecodeError, EncodeError};
use crate::ll::marker::Marker;
use crate::packable::{decode_elements, lemma_dec_elems_len, spec_dec_elems, spec_dec_elems_err, spec_encode_int, Pack, Unpack};
use crate::stream::ByteReader;
use crate::std_structs::lemma_int_models;
use crate::structure::{
    decode_struct, decode_struct_body, encode_struct, spec_decode_struct, spec_decode_struct_body,
    spec_decode_struct_body_err, spec_decode_struct_err, spec_encode_struct, PackableStruct,
};

verus! {

/// A point in time with a timezone identifier.
#[derive(Debug, Clone, PartialEq, Eq, Structural)]
pub struct DateTimeZoneId {
    /// Holds the seconds since the epoch.
    pub seconds: i64,
    /// Holds the nanoseconds within the second.
    pub nanoseconds: i64,
    /// Holds the timezone identifier.
    pub tz_id: i64,
}

impl PackableStruct for DateTimeZoneId {
    const FIELDS: usize = 3;

    type Model = DateTimeZoneId;

    open spec fn model(&self) -> DateTimeZoneId {
        *self
    }

    open spec fn spec_body_enc(&self) -> Seq<u8> {
        spec_encode_int(self.seconds) + spec_encode_int(self.nanoseconds) + spec_encode_int(self.tz_id)
    }

    open spec fn body_enc_req(&self) -> bool {
        true
    }

    open spec fn body_enc_ok(&self) -> bool {
        true
    }

    open spec fn spec_body_dec(s: Seq<u8>) -> Option<(DateTimeZoneId, int)> {
        match spec_dec_elems::<i64>(s, 3) {
            Some((ms, u)) => if ms.len() == 3 {
                Some((DateTimeZoneId { seconds: ms[0], nanoseconds: ms[1], tz_id: ms[2] }, u))
            } else {
                None
            },
            None => None,
        }
    }

    open spec fn spec_body_dec_err(s: Seq<u8>) -> DecodeError {
        spec_dec_elems_err::<i64>(s, 3)
    }

    fn fields() -> usize {
        3
    }

    fn read_structure_body(reader: &mut ByteReader) -> (r: Result<Self, DecodeError>)
    {
        match decode_elements::<i64>(3, reader) {
            Ok(v) => {
                proof {
                    lemma_dec_elems_len::<i64>(old(reader).unread(), 3 as int);
                    lemma_int_models(v@);
                }
                Ok(DateTimeZoneId { seconds: v[0], nanoseconds: v[1], tz_id: v[2] })
            },
            Err(e) => Err(e),
        }
    }

    fn write_structure_body(&self, writer: &mut Vec<u8>) -> (r: Result<usize, EncodeError>)
    {
        let start = writer.len();
        let _w0 = self.seconds.encode(writer);
        let _w1 = self.nanoseconds.encode(writer);
        let _w2 = self.tz_id.encode(writer);
        proof {
            assert(writer@ =~= old(writer)@ + self.spec_body_enc());
        }
        let end = writer.len();
        Ok(end - start)
    }
}

impl Pack for DateTimeZoneId {
    open spec fn spec_enc(&self) -> Seq<u8> {
        spec_encode_struct(0x66, self)
    }

    open spec fn enc_req(&self) -> bool {
        true
    }

    open spec fn enc_ok(&self) -> bool {
        true
    }

    fn encode(&self, writer: &mut Vec<u8>) -> (r: Result<usize, EncodeError>)
    {
        let r = encode_struct(0x66, self, writer);
        r
    }
}

impl Unpack for DateTimeZoneId {
    type Model = DateTimeZoneId;

    open spec fn model(&self) -> DateTimeZoneId {
        *self
    }

    open spec fn spec_dec(s: Seq<u8>) -> Option<(DateTimeZoneId, int)> {
        spec_decode_struct::<DateTimeZoneId>(0x66, s)
    }

    open spec fn spec_dec_body(m: Marker, s: Seq<u8>) -> Option<(DateTimeZoneId, int)> {
        spec_decode_struct_body::<DateTimeZoneId>(0x66, m, s)
    }

    open spec fn spec_dec_err(s: Seq<u8>) -> DecodeError {
        spec_decode_struct_err::<DateTimeZoneId>(0x66, s)
    }

    open spec fn spec_dec_body_err(m: Marker, s: Seq<u8>) -> DecodeError {
        spec_decode_struct_body_err::<DateTimeZoneId>(0x66, m, s)
    }

    fn decode_body(marker: Marker, reader: &mut ByteReader) -> (r: Result<Self, DecodeError>)
    {
        let r = decode_struct_body::<DateTimeZoneId>(0x66, marker, reader);
        r
    }

    fn decode(reader: &mut ByteReader) -> (r: Result<Self, DecodeError>)
    {
        let r = decode_struct::<DateTimeZoneId>(0x66, reader);
        r
    }
}

} // verus!
