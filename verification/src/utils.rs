//! Flat helpers for single key-value properties, outside any dictionary.

use vstd::prelude::*;
use vstd::utf8::encode_utf8;
use crate::error::{DecodeError, EncodeError};
use crate::packable::{spec_decode_string, spec_string_enc, Pack, Unpack};
use crate::stream::ByteReader;

verus! {

/// What decoding one property from the front of `s` yields: a string key,
/// then a value.
pub open spec fn spec_decode_property<V: Unpack>(s: Seq<u8>) -> Option<
    ((Seq<char>, V::Model), int),
> {
    match spec_decode_string(s) {
        Some((key, ku)) => if 0 <= ku <= s.len() {
            match V::spec_dec(s.skip(ku)) {
                Some((vm, vu)) => Some(((key, vm), ku + vu)),
                None => None,
            }
        } else {
            None
        },
        None => None,
    }
}

/// Encodes one key-value pair as a dictionary would: the key as a string,
/// then the value.
pub fn encode_property<V: Pack>(key: &str, value: &V, writer: &mut Vec<u8>) -> (r: Result<
    usize,
    EncodeError,
>)
    requires
        encode_utf8(key@).len() <= 0x7FFFFFFF,
        value.enc_req(),
    ensures
        old(writer)@.is_prefix_of(final(writer)@),
        (r is Ok) == value.enc_ok(),
        r matches Ok(n) ==> final(writer)@ == old(writer)@ + spec_string_enc(encode_utf8(key@))
            + value.spec_enc() && n == spec_string_enc(encode_utf8(key@)).len()
            + value.spec_enc().len(),
{
    let owned = key.to_owned();
    let start = writer.len();
    let _k = owned.encode(writer);
    match value.encode(writer) {
        Ok(_) => {
            let end = writer.len();
            Ok(end - start)
        },
        Err(e) => Err(e),
    }
}

/// Decodes one key-value pair as found inside a dictionary: the key as a
/// string, then a value of type `V`.
pub fn decode_property<V: Unpack>(reader: &mut ByteReader) -> (r: Result<(String, V), DecodeError>)
    ensures
        final(reader).all_bytes() == old(reader).all_bytes(),
        final(reader).spec_position() >= old(reader).spec_position(),
        match r {
            Ok(kv) => spec_decode_property::<V>(old(reader).unread()) == Some(
                (
                    (kv.0@, kv.1.model()),
                    final(reader).spec_position() - old(reader).spec_position(),
                ),
            ),
            Err(_) => spec_decode_property::<V>(old(reader).unread()) is None,
        },
{
    proof {
        use_type_invariant(&*reader);
    }
    let key = match String::decode(reader) {
        Ok(k) => k,
        Err(e) => {
            return Err(e);
        },
    };
    proof {
        use_type_invariant(&*reader);
        assert(reader.unread() =~= old(reader).unread().skip(
            reader.spec_position() - old(reader).spec_position(),
        ));
    }
    let value = match V::decode(reader) {
        Ok(v) => v,
        Err(e) => {
            return Err(e);
        },
    };
    Ok((key, value))
}

} // verus!
