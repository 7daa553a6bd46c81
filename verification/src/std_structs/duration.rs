//! A temporal amount split into calendar and clock parts.

use vstd::prelude::*;
use crate::error::{DecodeError, EncodeError};
use crate::ll::marker::Marker;
use crate::packable::{decode_elements, lemma_dec_elems_len, spec_dec_elems, spec_dec_elems_err, spec_encode_int, Pack, Unpack};
use crate::stream::ByteReader;
use crate::std_structs::lemma_int_models;
use crate::structure::{
    decode_struct, decode_struct_body, encode_struct, spec_decode_struct, spec_decode_struct_body,
    spec_decode_struct_body_err, spec_decode_struct_err, spec_encode_struct, PackableStruct,
};

verus! {

/// A temporal amount split into calendar and clock parts.
#[derive(Debug, Clone, PartialEq, Eq, Structural)]
pub struct Duration {
    /// Holds the months part.
    pub months: i64,
    /// Holds the days part.
    pub days: i64,
    /// Holds the seconds part.
    pub seconds: i64,
    /// Holds the nanoseconds part.
    pub nanoseconds: i64,
}

impl PackableStruct for Duration {
    const FIELDS: usize = 4;

    type Model = Duration;

    open spec fn model(&self) -> Duration {
        *self
    }

    open spec fn spec_body_enc(&self) -> Seq<u8> {
        spec_encode_int(self.months) + spec_encode_int(self.days) + spec_encode_int(self.seconds) + spec_encode_int(self.nanoseconds)
    }

    open spec fn body_enc_req(&self) -> bool {
        true
    }

    open spec fn body_enc_ok(&self) -> bool {
        true
    }

    open spec fn spec_body_dec(s: Seq<u8>) -> Option<(Duration, int)> {
        match spec_dec_elems::<i64>(s, 4) {
            Some((ms, u)) => if ms.len() == 4 {
                Some((Duration { months: ms[0], days: ms[1], seconds: ms[2], nanoseconds: ms[3] }, u))
            } else {
                None
            },
            None => None,
        }
    }

    open spec fn spec_body_dec_err(s: Seq<u8>) -> DecodeError {
        spec_dec_elems_err::<i64>(s, 4)
    }

    fn fields() -> usize {
        4
    }

    fn read_structure_body(reader: &mut ByteReader) -> (r: Result<Self, DecodeError>)
    {
        match decode_elements::<i64>(4, reader) {
            Ok(v) => {
                proof {
                    lemma_dec_elems_len::<i64>(old(reader).unread(), 4 as int);
                    lemma_int_models(v@);
                }
                Ok(Duration { months: v[0], days: v[1], seconds: v[2], nanoseconds: v[3] })
            },
            Err(e) => Err(e),
        }
    }

    fn write_structure_body(&self, writer: &mut Vec<u8>) -> (r: Result<usize, EncodeError>)
    {
        let start = writer.len();
        let _w0 = self.months.encode(writer);
        let _w1 = self.days.encode(writer);
        let _w2 = self.seconds.encode(writer);
        let _w3 = self.nanoseconds.encode(writer);
        proof {
            assert(writer@ =~= old(writer)@ + self.spec_body_enc());
        }
        let end = writer.len();
        Ok(end - start)
    }
}

impl Pack for Duration {
    open spec fn spec_enc(&self) -> Seq<u8> {
        spec_encode_struct(0x45, self)
    }

    open spec fn enc_req(&self) -> bool {
        true
    }

    open spec fn enc_ok(&self) -> bool {
        true
    }

    fn encode(&self, writer: &mut Vec<u8>) -> (r: Result<usize, EncodeError>)
    {
        let r = encode_struct(0x45, self, writer);
        r
    }
}

impl Unpack for Duration {
    type Model = Duration;

    open spec fn model(&self) -> Duration {
        *self
    }

    open spec fn spec_dec(s: Seq<u8>) -> Option<(Duration, int)> {
        spec_decode_struct::<Duration>(0x45, s)
    }

    open spec fn spec_dec_body(m: Marker, s: Seq<u8>) -> Option<(Duration, int)> {
        spec_decode_struct_body::<Duration>(0x45, m, s)
    }

    open spec fn spec_dec_err(s: Seq<u8>) -> DecodeError {
        spec_decode_struct_err::<Duration>(0x45, s)
    }

    open spec fn spec_dec_body_err(m: Marker, s: Seq<u8>) -> DecodeError {
        spec_decode_struct_body_err::<Duration>(0x45, m, s)
    }

    fn decode_body(marker: Marker, reader: &mut ByteReader) -> (r: Result<Self, DecodeError>)
    {
        let r = decode_struct_body::<Duration>(0x45, marker, reader);
        r
    }

    fn decode(reader: &mut ByteReader) -> (r: Result<Self, DecodeError>)
    {
        let r = decode_struct::<Duration>(0x45, reader);
        r
    }
}

} // verus!
