//! A time of day with a timezone offset.

use vstd::prelude::*;
use crate::error::{DecodeError, EncodeError};
use crate::ll::marker::Marker;
use crate::packable::{decode_elements, lemma_dec_elems_len, spec_dec_elems, spec_dec_elems_err, spec_encode_int, Pack, Unpack};
use crate::stream::ByteReader;
use crate::std_structs::lemma_int_models;
use crate::structure::{
    decode_struct, decode_struct_body, encode_struct, spec_decode_struct, spec_decode_struct_body,
    spec_decode_struct_body_err, spec_decode_struct_err, spec_encode_struct, PackableStruct,
};

verus! {

/// A time of day with a timezone offset.
#[derive(Debug, Clone, PartialEq, Eq, Structural)]
pub struct Time {
    /// Holds the nanoseconds since midnight.
    pub nanoseconds: i64,
    /// Holds the timezone offset in seconds.
    pub tz_offset_seconds: i64,
}

impl PackableStruct for Time {
    const FIELDS: usize = 2;

    type Model = Time;

    open spec fn model(&self) -> Time {
        *self
    }

    open spec fn spec_body_enc(&self) -> Seq<u8> {
        spec_encode_int(self.nanoseconds) + spec_encode_int(self.tz_offset_seconds)
    }

    open spec fn body_enc_req(&self) -> bool {
        true
    }

    open spec fn body_enc_ok(&self) -> bool {
        true
    }

    open spec fn spec_body_dec(s: Seq<u8>) -> Option<(Time, int)> {
        match spec_dec_elems::<i64>(s, 2) {
            Some((ms, u)) => if ms.len() == 2 {
                Some((Time { nanoseconds: ms[0], tz_offset_seconds: ms[1] }, u))
            } else {
                None
            },
            None => None,
        }
    }

    open spec fn spec_body_dec_err(s: Seq<u8>) -> DecodeError {
        spec_dec_elems_err::<i64>(s, 2)
    }

    fn fields() -> usize {
        2
    }

    fn read_structure_body(reader: &mut ByteReader) -> (r: Result<Self, DecodeError>)
    {
        match decode_elements::<i64>(2, reader) {
            Ok(v) => {
                proof {
                    lemma_dec_elems_len::<i64>(old(reader).unread(), 2 as int);
                    lemma_int_models(v@);
                }
                Ok(Time { nanoseconds: v[0], tz_offset_seconds: v[1] })
            },
            Err(e) => Err(e),
        }
    }

    fn write_structure_body(&self, writer: &mut Vec<u8>) -> (r: Result<usize, EncodeError>)
    {
        let start = writer.len();
        let _w0 = self.nanoseconds.encode(writer);
        let _w1 = self.tz_offset_seconds.encode(writer);
        proof {
            assert(writer@ =~= old(writer)@ + self.spec_body_enc());
        }
        let end = writer.len();
        Ok(end - start)
    }
}

impl Pack for Time {
    open spec fn spec_enc(&self) -> Seq<u8> {
        spec_encode_struct(0x54, self)
    }

    open spec fn enc_req(&self) -> bool {
        true
    }

    open spec fn enc_ok(&self) -> bool {
        true
    }

    fn encode(&self, writer: &mut Vec<u8>) -> (r: Result<usize, EncodeError>)
    {
        let r = encode_struct(0x54, self, writer);
        r
    }
}

impl Unpack for Time {
    type Model = Time;

    open spec fn model(&self) -> Time {
        *self
    }

    open spec fn spec_dec(s: Seq<u8>) -> Option<(Time, int)> {
        spec_decode_struct::<Time>(0x54, s)
    }

    open spec fn spec_dec_body(m: Marker, s: Seq<u8>) -> Option<(Time, int)> {
        spec_decode_struct_body::<Time>(0x54, m, s)
    }

    open spec fn spec_dec_err(s: Seq<u8>) -> DecodeError {
        spec_decode_struct_err::<Time>(0x54, s)
    }

    open spec fn spec_dec_body_err(m: Marker, s: Seq<u8>) -> DecodeError {
        spec_decode_struct_body_err::<Time>(0x54, m, s)
    }

    fn decode_body(marker: Marker, reader: &mut ByteReader) -> (r: Result<Self, DecodeError>)
    {
        let r = decode_struct_body::<Time>(0x54, marker, reader);
        r
    }

    fn decode(reader: &mut ByteReader) -> (r: Result<Self, DecodeError>)
    {
        let r = decode_struct::<Time>(0x54, reader);
        r
    }
}

impl Time {
    /// The instant normalized to UTC, in nanoseconds since midnight.
    pub fn utc_nanoseconds(&self) -> (r: i64)
        requires
            i64::MIN <= self.tz_offset_seconds * 1000000000 <= i64::MAX,
            i64::MIN <= self.nanoseconds - self.tz_offset_seconds * 1000000000 <= i64::MAX,
        ensures
            r == self.nanoseconds - self.tz_offset_seconds * 1000000000,
    {
        self.nanoseconds - (self.tz_offset_seconds * 1000000000)
    }
}

} // verus!
