//! The anonymous, generic structure: it accepts any tag byte and stores its
//! fields as plain values in the order they were read. It is the universal
//! fallback that parses any validly encoded structure losslessly when the
//! concrete record catalog is unknown to the decoder.

use vstd::prelude::*;
use crate::error::{DecodeError, EncodeError};
use crate::ll::marker::{spec_decode_marker, spec_encode_marker, Marker};
use crate::ll::types::fixed::{decode_body_f64, encode_f64, spec_be8, spec_u64_of_be};
use crate::ll::types::lengths::{
    read_dict_size, read_list_size, spec_read_dict_size, spec_read_list_size, Length,
};
use crate::packable::{
    spec_decode_bytes_body, spec_decode_int_body, spec_decode_string, spec_decode_string_body,
    spec_dict_header_of, spec_list_header_of, Pack, Unpack,
};
use crate::stream::ByteReader;
use crate::value::bytes::Bytes;
use crate::value::dictionary::{lemma_dictionary_pairs, spec_insert_pair, Dictionary};
use crate::value::{spec_pairs_insert, Value, ValueModel};

verus! {

/// An anonymous structure value: a tag byte and its fields as plain
/// values, read and written in order.
#[derive(Debug, PartialEq)]
pub struct GenericStruct {
    pub tag_byte: u8,
    pub fields: Vec<Value<GenericStruct>>,
}

/// The mathematical shape of a generic structure: its tag and the models
/// of its fields.
pub struct GenericStructModel {
    pub tag_byte: u8,
    pub fields: Seq<ValueModel<GenericStructModel>>,
}

impl Clone for GenericStruct {
    /// A deep copy of the structure.
    fn clone(&self) -> Self {
        let mut fields: Vec<Value<GenericStruct>> = Vec::with_capacity(self.fields.len());
        let mut i: usize = 0;
        while i < self.fields.len()
            decreases self.fields@.len() - i,
        {
            proof {
                assert(decreases_to!(*self => self.fields));
                assert(decreases_to!(self.fields => self.fields@[i as int]));
            }
            let c = clone_gval(&self.fields[i]);
            fields.push(c);
            i = i + 1;
        }
        GenericStruct { tag_byte: self.tag_byte, fields }
    }
}

/// Copies a generic-structure value tree member by member.
fn clone_gval(v: &Value<GenericStruct>) -> (r: Value<GenericStruct>)
    decreases v,
{
    match v {
        Value::Null => Value::Null,
        Value::Boolean(b) => Value::Boolean(*b),
        Value::Integer(i) => Value::Integer(*i),
        Value::Float(bits) => Value::Float(*bits),
        Value::Bytes(b) => Value::Bytes(b.clone()),
        Value::String(st) => Value::String(st.clone()),
        Value::List(l) => {
            let mut out: Vec<Value<GenericStruct>> = Vec::with_capacity(l.len());
            let mut i: usize = 0;
            while i < l.len()
                invariant
                    *v == Value::List(*l),
                    0 <= i <= l@.len(),
                decreases l@.len() - i,
            {
                proof {
                    assert(*l == v->List_0);
                    assert(decreases_to!(*v => v->List_0));
                    assert(decreases_to!(v->List_0 => v->List_0@[i as int]));
                    assert(l@[i as int] == v->List_0@[i as int]);
                }
                let c = clone_gval(&l[i]);
                out.push(c);
                i = i + 1;
            }
            Value::List(out)
        },
        Value::Dictionary(d) => {
            proof {
                use_type_invariant(d);
                lemma_dictionary_pairs(d);
            }
            let mut out: Vec<(String, Value<GenericStruct>)> = Vec::with_capacity(d.0.len());
            let mut i: usize = 0;
            while i < d.0.len()
                invariant
                    *v == Value::Dictionary(*d),
                    0 <= i <= d.0@.len(),
                    crate::value::dictionary::spec_keys_unique(d.0@),
                    out@.len() == i as int,
                    forall|j: int| 0 <= j < i ==> (#[trigger] out@[j]).0@ == d.0@[j].0@,
                decreases d.0@.len() - i,
            {
                proof {
                    assert(*d == v->Dictionary_0);
                    assert(decreases_to!(*v => v->Dictionary_0));
                    assert(decreases_to!(v->Dictionary_0 => v->Dictionary_0.0));
                    assert(decreases_to!(v->Dictionary_0.0 => v->Dictionary_0.0@[i as int]));
                    assert(d.0@[i as int] == v->Dictionary_0.0@[i as int]);
                }
                let key = d.0[i].0.clone();
                let val = clone_gval(&d.0[i].1);
                out.push((key, val));
                i = i + 1;
            }
            proof {
                assert forall|a: int, b: int| 0 <= a < b < out@.len() implies (
                #[trigger] out@[a]).0@ != (#[trigger] out@[b]).0@ by {
                    assert(out@[a].0@ == d.0@[a].0@);
                    assert(out@[b].0@ == d.0@[b].0@);
                    assert(d.0@[a].0@ != d.0@[b].0@);
                }
            }
            Value::Dictionary(Dictionary::from_vec(out))
        },
        Value::Structure(g) => {
            proof {
                assert(decreases_to!(*v => v->Structure_0));
            }
            let gs: &GenericStruct = g;
            Value::Structure(clone_gstruct(gs))
        },
    }
}

/// Copies a generic structure, field by field.
fn clone_gstruct(g: &GenericStruct) -> (r: GenericStruct)
    decreases g,
{
    let mut fields: Vec<Value<GenericStruct>> = Vec::with_capacity(g.fields.len());
    let mut i: usize = 0;
    while i < g.fields.len()
        invariant
            0 <= i <= g.fields@.len(),
        decreases g.fields@.len() - i,
    {
        proof {
            assert(decreases_to!(*g => g.fields));
            assert(decreases_to!(g.fields => g.fields@[i as int]));
        }
        let c = clone_gval(&g.fields[i]);
        fields.push(c);
        i = i + 1;
    }
    GenericStruct { tag_byte: g.tag_byte, fields }
}

/// The model of a generic-structure value tree.
pub(crate) open spec fn gval_model(v: Value<GenericStruct>) -> ValueModel<GenericStructModel>
    decreases v,
{
    match v {
        Value::Null => ValueModel::Null,
        Value::Boolean(b) => ValueModel::Boolean(b),
        Value::Integer(i) => ValueModel::Integer(i),
        Value::Float(bits) => ValueModel::Float(bits),
        Value::Bytes(b) => ValueModel::Bytes(b.0@),
        Value::String(s) => ValueModel::String(s@),
        Value::List(l) => ValueModel::List(gvals_model(l@)),
        Value::Dictionary(d) => ValueModel::Dictionary(gpairs_model(d.0@)),
        Value::Structure(g) => ValueModel::Structure(gstruct_model(g)),
    }
}

/// The models of a field sequence, in order.
pub(crate) open spec fn gvals_model(l: Seq<Value<GenericStruct>>) -> Seq<ValueModel<GenericStructModel>>
    decreases l,
{
    if l.len() == 0 {
        Seq::empty()
    } else {
        seq![gval_model(l[0])] + gvals_model(l.skip(1))
    }
}

/// The models of a pair sequence, in order.
pub(crate) open spec fn gpairs_model(l: Seq<(String, Value<GenericStruct>)>) -> Seq<
    (Seq<char>, ValueModel<GenericStructModel>),
>
    decreases l,
{
    if l.len() == 0 {
        Seq::empty()
    } else {
        seq![(l[0].0@, gval_model(l[0].1))] + gpairs_model(l.skip(1))
    }
}

/// The model of a generic structure.
pub(crate) open spec fn gstruct_model(g: GenericStruct) -> GenericStructModel
    decreases g,
{
    GenericStructModel { tag_byte: g.tag_byte, fields: gvals_model(g.fields@) }
}

/// The canonical bytes of a generic-structure value tree.
pub(crate) open spec fn gval_enc(v: Value<GenericStruct>) -> Seq<u8>
    decreases v,
{
    match v {
        Value::Null => seq![0xC0u8],
        Value::Boolean(b) => if b {
            seq![0xC2u8]
        } else {
            seq![0xC3u8]
        },
        Value::Integer(i) => crate::packable::spec_encode_int(i),
        Value::Float(bits) => seq![0xC1u8] + spec_be8(bits),
        Value::Bytes(b) => crate::packable::spec_bytes_header(b.0@.len() as int) + b.0@,
        Value::String(s) => crate::packable::spec_string_enc(vstd::utf8::encode_utf8(s@)),
        Value::List(l) => spec_list_header_of(l@.len() as int) + gvals_enc(l@),
        Value::Dictionary(d) => spec_dict_header_of(d.0@.len() as int) + gpairs_enc(d.0@),
        Value::Structure(g) => gstruct_enc(g),
    }
}

/// The concatenated canonical bytes of a field sequence.
pub(crate) open spec fn gvals_enc(l: Seq<Value<GenericStruct>>) -> Seq<u8>
    decreases l,
{
    if l.len() == 0 {
        Seq::empty()
    } else {
        gval_enc(l[0]) + gvals_enc(l.skip(1))
    }
}

/// The concatenated canonical bytes of a pair sequence.
pub(crate) open spec fn gpairs_enc(l: Seq<(String, Value<GenericStruct>)>) -> Seq<u8>
    decreases l,
{
    if l.len() == 0 {
        Seq::empty()
    } else {
        l[0].0.spec_enc() + gval_enc(l[0].1) + gpairs_enc(l.skip(1))
    }
}

/// The canonical bytes of a generic structure: its marker and tag, then
/// its fields.
pub(crate) open spec fn gstruct_enc(g: GenericStruct) -> Seq<u8>
    decreases g,
{
    spec_encode_marker(Marker::Structure(g.fields@.len() as usize, g.tag_byte)) + gvals_enc(
        g.fields@,
    )
}

/// The sizes in a value tree fit their wire size fields.
pub(crate) open spec fn gval_req(v: Value<GenericStruct>) -> bool
    decreases v,
{
    match v {
        Value::Bytes(b) => b.0@.len() <= 0x7FFFFFFF,
        Value::String(s) => vstd::utf8::encode_utf8(s@).len() <= 0x7FFFFFFF,
        Value::List(l) => l@.len() <= 0x7FFFFFFF && gvals_req(l@),
        Value::Dictionary(d) => d.0@.len() <= 0x7FFFFFFF && gpairs_req(d.0@),
        Value::Structure(g) => gvals_req(g.fields@),
        _ => true,
    }
}

/// Every field of the sequence meets its precondition.
pub(crate) open spec fn gvals_req(l: Seq<Value<GenericStruct>>) -> bool
    decreases l,
{
    if l.len() == 0 {
        true
    } else {
        gval_req(l[0]) && gvals_req(l.skip(1))
    }
}

/// Every pair of the sequence meets its precondition.
pub(crate) open spec fn gpairs_req(l: Seq<(String, Value<GenericStruct>)>) -> bool
    decreases l,
{
    if l.len() == 0 {
        true
    } else {
        l[0].0.enc_req() && gval_req(l[0].1) && gpairs_req(l.skip(1))
    }
}

/// Encoding a value tree succeeds: every structure in it declares at most
/// 15 fields.
pub(crate) open spec fn gval_ok(v: Value<GenericStruct>) -> bool
    decreases v,
{
    match v {
        Value::List(l) => gvals_ok(l@),
        Value::Dictionary(d) => gpairs_ok(d.0@),
        Value::Structure(g) => g.fields@.len() <= 0x0F && gvals_ok(g.fields@),
        _ => true,
    }
}

/// Every field of the sequence encodes successfully.
pub(crate) open spec fn gvals_ok(l: Seq<Value<GenericStruct>>) -> bool
    decreases l,
{
    if l.len() == 0 {
        true
    } else {
        gval_ok(l[0]) && gvals_ok(l.skip(1))
    }
}

/// Every pair of the sequence encodes successfully.
pub(crate) open spec fn gpairs_ok(l: Seq<(String, Value<GenericStruct>)>) -> bool
    decreases l,
{
    if l.len() == 0 {
        true
    } else {
        gval_ok(l[0].1) && gpairs_ok(l.skip(1))
    }
}

/// Appending one field appends its bytes, its model, and its conditions.
proof fn lemma_gvals_push(l: Seq<Value<GenericStruct>>, x: Value<GenericStruct>)
    ensures
        gvals_enc(l.push(x)) == gvals_enc(l) + gval_enc(x),
        gvals_model(l.push(x)) == gvals_model(l) + seq![gval_model(x)],
        gvals_ok(l.push(x)) == (gvals_ok(l) && gval_ok(x)),
    decreases l,
{
    if l.len() == 0 {
        assert(l.push(x).skip(1) =~= Seq::<Value<GenericStruct>>::empty());
        assert(l.push(x)[0] == x);
        assert(gvals_enc(l.push(x).skip(1)) == Seq::<u8>::empty());
        assert(gvals_enc(l.push(x)) == gval_enc(x) + Seq::<u8>::empty());
        assert(gvals_enc(l) == Seq::<u8>::empty());
        assert(gvals_model(l.push(x).skip(1)) == Seq::<ValueModel<GenericStructModel>>::empty());
        assert(gvals_model(l.push(x)) == seq![gval_model(x)] + Seq::<
            ValueModel<GenericStructModel>,
        >::empty());
        assert(gvals_model(l) == Seq::<ValueModel<GenericStructModel>>::empty());
        assert((gval_enc(x) + Seq::<u8>::empty()) =~= (Seq::<u8>::empty() + gval_enc(x)));
        assert((seq![gval_model(x)] + Seq::<ValueModel<GenericStructModel>>::empty()) =~= (Seq::<
            ValueModel<GenericStructModel>,
        >::empty() + seq![gval_model(x)]));
        assert(gvals_ok(l.push(x).skip(1)));
        assert(gvals_ok(l.push(x)) == gval_ok(x));
    } else {
        lemma_gvals_push(l.skip(1), x);
        assert(l.push(x).skip(1) =~= l.skip(1).push(x));
        assert(l.push(x)[0] == l[0]);
        assert((gval_enc(l[0]) + (gvals_enc(l.skip(1)) + gval_enc(x))) =~= ((gval_enc(l[0])
            + gvals_enc(l.skip(1))) + gval_enc(x)));
        assert((seq![gval_model(l[0])] + (gvals_model(l.skip(1)) + seq![gval_model(x)])) =~= ((
        seq![gval_model(l[0])] + gvals_model(l.skip(1))) + seq![gval_model(x)]));
        assert(gvals_enc(l.push(x)) =~= gvals_enc(l) + gval_enc(x));
        assert(gvals_model(l.push(x)) =~= gvals_model(l) + seq![gval_model(x)]);
        assert(gvals_ok(l.push(x)) == (gval_ok(l[0]) && gvals_ok(l.skip(1).push(x))));
        assert(gvals_ok(l) == (gval_ok(l[0]) && gvals_ok(l.skip(1))));
    }
}

/// Field by field: conditions of a prefix extend one value at a time.
proof fn lemma_gvals_split(l: Seq<Value<GenericStruct>>, i: int)
    requires
        0 <= i < l.len(),
    ensures
        gvals_req(l) ==> gval_req(l[i]),
        gvals_ok(l) ==> gval_ok(l[i]),
        gvals_ok(l.take(i)) && gval_ok(l[i]) ==> gvals_ok(l.take(i + 1)),
        !gval_ok(l[i]) ==> !gvals_ok(l),
    decreases l.len() + i,
{
    lemma_gvals_take_step(l, i);
    if i == 0 {
    } else {
        assert(l.skip(1)[i - 1] == l[i]);
        lemma_gvals_split(l.skip(1), i - 1);
    }
}

proof fn lemma_gvals_take_step(l: Seq<Value<GenericStruct>>, i: int)
    requires
        0 <= i < l.len(),
    ensures
        gvals_ok(l.take(i + 1)) == (gvals_ok(l.take(i)) && gval_ok(l[i])),
        gvals_ok(l) ==> gvals_ok(l.skip(i)),
        l.skip(i)[0] == l[i],
    decreases i,
{
    if i == 0 {
        assert(l.take(1)[0] == l[0]);
        assert(l.take(1).skip(1) =~= Seq::<Value<GenericStruct>>::empty());
        assert(l.take(0) =~= Seq::<Value<GenericStruct>>::empty());
        assert(l.skip(0) =~= l);
    } else {
        lemma_gvals_take_step(l.skip(1), i - 1);
        assert(l.take(i + 1).skip(1) =~= l.skip(1).take(i));
        assert(l.take(i).skip(1) =~= l.skip(1).take(i - 1));
        assert(l.take(i + 1)[0] == l[0]);
        assert(l.take(i)[0] == l[0]);
        assert(l.skip(1)[i - 1] == l[i]);
        assert(l.skip(1).skip(i - 1) =~= l.skip(i));
    }
}


/// What decoding a generic-structure value from the front of `s` yields.
pub(crate) open spec fn gval_dec(s: Seq<u8>) -> Option<(ValueModel<GenericStructModel>, int)>
    decreases s.len(), 0int, 0int,
{
    match spec_decode_marker(s) {
        Some((m, k)) => if 1 <= k <= s.len() {
            match gval_dec_body(m, s.skip(k)) {
                Some((v, n)) => Some((v, k + n)),
                None => None,
            }
        } else {
            None
        },
        None => None,
    }
}

/// What decoding a generic-structure value body yields for each marker.
pub(crate) open spec fn gval_dec_body(m: Marker, s: Seq<u8>) -> Option<
    (ValueModel<GenericStructModel>, int),
>
    decreases s.len(), 2int, 0int,
{
    match m {
        Marker::Null => Some((ValueModel::Null, 0)),
        Marker::True => Some((ValueModel::Boolean(true), 0)),
        Marker::False => Some((ValueModel::Boolean(false), 0)),
        Marker::Float64 => if s.len() >= 8 {
            Some((ValueModel::Float(spec_u64_of_be(s)), 8))
        } else {
            None
        },
        Marker::PlusTinyInt(_) | Marker::MinusTinyInt(_) | Marker::Int8 | Marker::Int16
            | Marker::Int32 | Marker::Int64 => match spec_decode_int_body(m, s) {
            Some((v, n)) => Some((ValueModel::Integer(v), n)),
            None => None,
        },
        Marker::TinyString(_) | Marker::String8 | Marker::String16 | Marker::String32 => match
            spec_decode_string_body(m, s) {
            Some((v, n)) => Some((ValueModel::String(v), n)),
            None => None,
        },
        Marker::Bytes8 | Marker::Bytes16 | Marker::Bytes32 => match spec_decode_bytes_body(
            m,
            s,
        ) {
            Some((v, n)) => Some((ValueModel::Bytes(v), n)),
            None => None,
        },
        Marker::TinyList(_) | Marker::List8 | Marker::List16 | Marker::List32 => match
            spec_read_list_size(m, s) {
            Some((n, k)) => if 0 <= k <= s.len() {
                match gvals_dec(s.skip(k), n as int) {
                    Some((ms, u)) => Some((ValueModel::List(ms), k + u)),
                    None => None,
                }
            } else {
                None
            },
            None => None,
        },
        Marker::TinyDictionary(_) | Marker::Dictionary8 | Marker::Dictionary16
            | Marker::Dictionary32 => match spec_read_dict_size(m, s) {
            Some((n, k)) => if 0 <= k <= s.len() {
                match gpairs_dec(s.skip(k), n as int, Seq::empty()) {
                    Some((ps, u)) => Some((ValueModel::Dictionary(ps), k + u)),
                    None => None,
                }
            } else {
                None
            },
            None => None,
        },
        Marker::Structure(sz, tag) => match gvals_dec(s, sz as int) {
            Some((ms, u)) => Some(
                (
                    ValueModel::Structure(
                        GenericStructModel { tag_byte: tag, fields: ms },
                    ),
                    u,
                ),
            ),
            None => None,
        },
    }
}

/// What decoding `n` consecutive generic-structure values yields.
pub(crate) open spec fn gvals_dec(s: Seq<u8>, n: int) -> Option<
    (Seq<ValueModel<GenericStructModel>>, int),
>
    decreases s.len(), 1int, n,
{
    if n <= 0 {
        Some((Seq::empty(), 0))
    } else {
        match gval_dec(s) {
            Some((m, used)) => if 0 <= used <= s.len() {
                match gvals_dec(s.skip(used), n - 1) {
                    Some((ms, u2)) => Some((seq![m] + ms, used + u2)),
                    None => None,
                }
            } else {
                None
            },
            None => None,
        }
    }
}

/// What decoding `n` key-value pairs yields, a repeated key replacing the
/// earlier entry.
#[verifier::opaque]
pub(crate) open spec fn gpairs_dec(
    s: Seq<u8>,
    n: int,
    acc: Seq<(Seq<char>, ValueModel<GenericStructModel>)>,
) -> Option<(Seq<(Seq<char>, ValueModel<GenericStructModel>)>, int)>
    decreases s.len(), 1int, n,
{
    if n <= 0 {
        Some((acc, 0))
    } else {
        match spec_decode_string(s) {
            Some((key, ku)) => if 0 <= ku <= s.len() {
                match gval_dec(s.skip(ku)) {
                    Some((vm, vu)) => if 0 <= vu <= s.skip(ku).len() {
                        match gpairs_dec(
                            s.skip(ku).skip(vu),
                            n - 1,
                            spec_pairs_insert(acc, key, vm),
                        ) {
                            Some((ps, u2)) => Some((ps, ku + vu + u2)),
                            None => None,
                        }
                    } else {
                        None
                    },
                    None => None,
                }
            } else {
                None
            },
            None => None,
        }
    }
}

/// The error a failed generic-structure value decode reports.
pub(crate) open spec fn gval_dec_err(s: Seq<u8>) -> DecodeError
    decreases s.len(), 0int, 0int,
{
    match spec_decode_marker(s) {
        Some((m, k)) => if 1 <= k <= s.len() {
            gval_dec_body_err(m, s.skip(k))
        } else {
            DecodeError::UnexpectedEndOfStream
        },
        None => crate::ll::marker::spec_marker_error(s),
    }
}

/// The error a failed generic-structure body decode reports: each class
/// propagates its own codec's error.
pub(crate) open spec fn gval_dec_body_err(m: Marker, s: Seq<u8>) -> DecodeError
    decreases s.len(), 2int, 0int,
{
    match m {
        Marker::Null | Marker::True | Marker::False => DecodeError::UnexpectedEndOfStream,
        Marker::Float64 => DecodeError::UnexpectedEndOfStream,
        Marker::PlusTinyInt(_) | Marker::MinusTinyInt(_) | Marker::Int8 | Marker::Int16
            | Marker::Int32 | Marker::Int64 => crate::packable::spec_decode_int_body_err(m, s),
        Marker::TinyString(_) | Marker::String8 | Marker::String16 | Marker::String32
            => crate::packable::spec_decode_string_body_err(m, s),
        Marker::Bytes8 | Marker::Bytes16 | Marker::Bytes32
            => crate::packable::spec_decode_bytes_body_err(m, s),
        Marker::TinyList(_) | Marker::List8 | Marker::List16 | Marker::List32 => match
            spec_read_list_size(m, s) {
            Some((n, k)) => if 0 <= k <= s.len() {
                gvals_dec_err(s.skip(k), n as int)
            } else {
                DecodeError::UnexpectedEndOfStream
            },
            None => crate::ll::types::lengths::spec_size_error(
                m matches Marker::List8 || m matches Marker::List16 || m matches Marker::List32,
                m matches Marker::List32,
                m,
                s,
            ),
        },
        Marker::TinyDictionary(_) | Marker::Dictionary8 | Marker::Dictionary16
            | Marker::Dictionary32 => match spec_read_dict_size(m, s) {
            Some((n, k)) => if 0 <= k <= s.len() {
                gpairs_dec_err(s.skip(k), n as int)
            } else {
                DecodeError::UnexpectedEndOfStream
            },
            None => crate::ll::types::lengths::spec_size_error(
                m matches Marker::Dictionary8 || m matches Marker::Dictionary16 || m matches
                    Marker::Dictionary32,
                m matches Marker::Dictionary32,
                m,
                s,
            ),
        },
        Marker::Structure(sz, tag) => gvals_dec_err(s, sz as int),
    }
}

/// The error a failed field-sequence decode reports: the first failing
/// field's own error, unchanged.
#[verifier::opaque]
pub(crate) open spec fn gvals_dec_err(s: Seq<u8>, n: int) -> DecodeError
    decreases s.len(), 1int, n,
{
    if n <= 0 {
        DecodeError::UnexpectedEndOfStream
    } else {
        match gval_dec(s) {
            Some((m, used)) => if 0 <= used <= s.len() {
                gvals_dec_err(s.skip(used), n - 1)
            } else {
                DecodeError::UnexpectedEndOfStream
            },
            None => gval_dec_err(s),
        }
    }
}

/// The error a failed pair-sequence decode reports: the first failing key
/// or value decode's own error, unchanged.
#[verifier::opaque]
pub(crate) open spec fn gpairs_dec_err(s: Seq<u8>, n: int) -> DecodeError
    decreases s.len(), 1int, n,
{
    if n <= 0 {
        DecodeError::UnexpectedEndOfStream
    } else {
        match spec_decode_string(s) {
            Some((key, ku)) => if 0 <= ku <= s.len() {
                match gval_dec(s.skip(ku)) {
                    Some((vm, vu)) => if 0 <= vu <= s.skip(ku).len() {
                        gpairs_dec_err(s.skip(ku).skip(vu), n - 1)
                    } else {
                        DecodeError::UnexpectedEndOfStream
                    },
                    None => gval_dec_err(s.skip(ku)),
                }
            } else {
                DecodeError::UnexpectedEndOfStream
            },
            None => String::spec_dec_err(s),
        }
    }
}

/// Inserting a pair and then taking models is the same as inserting the
/// pair's model into the models.
proof fn lemma_gpairs_model_insert(
    ps: Seq<(String, Value<GenericStruct>)>,
    key: String,
    value: Value<GenericStruct>,
)
    ensures
        gpairs_model(spec_insert_pair(ps, key, value)) == spec_pairs_insert(
            gpairs_model(ps),
            key@,
            gval_model(value),
        ),
    decreases ps,
{
    if ps.len() == 0 {
        assert(spec_insert_pair(ps, key, value) == seq![(key, value)]);
        assert(seq![(key, value)].skip(1) =~= Seq::<(String, Value<GenericStruct>)>::empty());
        assert(seq![(key, value)][0] == (key, value));
        assert(gpairs_model(seq![(key, value)].skip(1)) == Seq::<
            (Seq<char>, ValueModel<GenericStructModel>),
        >::empty());
        assert(gpairs_model(seq![(key, value)]) == seq![(key@, gval_model(value))] + Seq::<
            (Seq<char>, ValueModel<GenericStructModel>),
        >::empty());
        assert(gpairs_model(ps) == Seq::<(Seq<char>, ValueModel<GenericStructModel>)>::empty());
        assert(gpairs_model(spec_insert_pair(ps, key, value)) =~= spec_pairs_insert(
            gpairs_model(ps),
            key@,
            gval_model(value),
        ));
    } else {
        assert(gpairs_model(ps) == seq![(ps[0].0@, gval_model(ps[0].1))] + gpairs_model(
            ps.skip(1),
        ));
        assert(gpairs_model(ps)[0] == (ps[0].0@, gval_model(ps[0].1)));
        assert(gpairs_model(ps).skip(1) =~= gpairs_model(ps.skip(1)));
        if ps[0].0@ == key@ {
            let r = seq![(key, value)] + ps.skip(1);
            assert(r.skip(1) =~= ps.skip(1));
            assert(gpairs_model(r) == seq![(key@, gval_model(value))] + gpairs_model(ps.skip(1)));
            assert(gpairs_model(spec_insert_pair(ps, key, value)) =~= spec_pairs_insert(
                gpairs_model(ps),
                key@,
                gval_model(value),
            ));
        } else {
            lemma_gpairs_model_insert(ps.skip(1), key, value);
            let r = seq![ps[0]] + spec_insert_pair(ps.skip(1), key, value);
            assert(r.skip(1) =~= spec_insert_pair(ps.skip(1), key, value));
            assert(r[0] == ps[0]);
            assert(gpairs_model(r) == seq![(ps[0].0@, gval_model(ps[0].1))] + gpairs_model(
                spec_insert_pair(ps.skip(1), key, value),
            ));
            assert(gpairs_model(spec_insert_pair(ps, key, value)) =~= spec_pairs_insert(
                gpairs_model(ps),
                key@,
                gval_model(value),
            ));
        }
    }
}


/// Reads one generic-structure value: marker, then body.
fn decode_gval(reader: &mut ByteReader) -> (r: Result<Value<GenericStruct>, DecodeError>)
    ensures
        final(reader).all_bytes() == old(reader).all_bytes(),
        final(reader).spec_position() >= old(reader).spec_position(),
        match r {
            Ok(v) => gval_dec(old(reader).unread()) == Some(
                (gval_model(v), final(reader).spec_position() - old(reader).spec_position()),
            ),
            Err(e) => {
                &&& gval_dec(old(reader).unread()) is None
                &&& e == gval_dec_err(old(reader).unread())
            },
        },
    decreases 4 * reader.unread().len() + 1,
{
    proof {
        use_type_invariant(&*reader);
    }
    let marker = match Marker::decode(reader) {
        Ok(m) => m,
        Err(e) => {
            return Err(e);
        },
    };
    proof {
        use_type_invariant(&*reader);
        let s = old(reader).unread();
        assert(match spec_decode_marker(s) {
            Some((m2, k2)) => 1 <= k2 <= s.len(),
            None => true,
        });
        assert(reader.unread() =~= old(reader).unread().skip(
            reader.spec_position() - old(reader).spec_position(),
        ));
    }
    let r = decode_gval_body(marker, reader);
    r
}

/// Reads the body of one generic-structure value whose marker is known.
#[verifier::spinoff_prover]
#[verifier::rlimit(100)]
fn decode_gval_body(marker: Marker, reader: &mut ByteReader) -> (r: Result<
    Value<GenericStruct>,
    DecodeError,
>)
    ensures
        final(reader).all_bytes() == old(reader).all_bytes(),
        final(reader).spec_position() >= old(reader).spec_position(),
        match r {
            Ok(v) => gval_dec_body(marker, old(reader).unread()) == Some(
                (gval_model(v), final(reader).spec_position() - old(reader).spec_position()),
            ),
            Err(e) => {
                &&& gval_dec_body(marker, old(reader).unread()) is None
                &&& e == gval_dec_body_err(marker, old(reader).unread())
            },
        },
    decreases 4 * reader.unread().len() + 3,
{
    proof {
        use_type_invariant(&*reader);
    }
    match marker {
        Marker::Null => Ok(Value::Null),
        Marker::True => Ok(Value::Boolean(true)),
        Marker::False => Ok(Value::Boolean(false)),
        Marker::Float64 => match decode_body_f64(reader) {
            Ok(bits) => Ok(Value::Float(bits)),
            Err(e) => Err(e),
        },
        Marker::PlusTinyInt(_) | Marker::MinusTinyInt(_) | Marker::Int8 | Marker::Int16
            | Marker::Int32 | Marker::Int64 => match i64::decode_body(marker, reader) {
            Ok(v) => Ok(Value::Integer(v)),
            Err(e) => Err(e),
        },
        Marker::TinyString(_) | Marker::String8 | Marker::String16 | Marker::String32 => match
            String::decode_body(marker, reader) {
            Ok(v) => Ok(Value::String(v)),
            Err(e) => Err(e),
        },
        Marker::Bytes8 | Marker::Bytes16 | Marker::Bytes32 => match Bytes::decode_body(
            marker,
            reader,
        ) {
            Ok(v) => Ok(Value::Bytes(v)),
            Err(e) => Err(e),
        },
        Marker::TinyList(_) | Marker::List8 | Marker::List16 | Marker::List32 => {
            let len = match read_list_size(marker, reader) {
                Ok(n) => n,
                Err(e) => {
                    return Err(e);
                },
            };
            proof {
                assert(reader.unread() =~= old(reader).unread().skip(
                    reader.spec_position() - old(reader).spec_position(),
                ));
            }
            match decode_gvals(len, reader) {
                Ok(v) => Ok(Value::List(v)),
                Err(e) => Err(e),
            }
        },
        Marker::TinyDictionary(_) | Marker::Dictionary8 | Marker::Dictionary16
            | Marker::Dictionary32 => {
            let len = match read_dict_size(marker, reader) {
                Ok(n) => n,
                Err(e) => {
                    return Err(e);
                },
            };
            proof {
                assert(reader.unread() =~= old(reader).unread().skip(
                    reader.spec_position() - old(reader).spec_position(),
                ));
            }
            match decode_gpairs(len, reader) {
                Ok(d) => {
                    proof {
                        lemma_dictionary_pairs(&d);
                    }
                    Ok(Value::Dictionary(d))
                },
                Err(e) => Err(e),
            }
        },
        Marker::Structure(sz, tag) => {
            match decode_gvals(sz, reader) {
                Ok(fields) => Ok(Value::Structure(GenericStruct { tag_byte: tag, fields })),
                Err(e) => Err(e),
            }
        },
    }
}

/// Reads `len` consecutive generic-structure values.
#[verifier::spinoff_prover]
#[verifier::rlimit(100)]
fn decode_gvals(len: usize, reader: &mut ByteReader) -> (r: Result<
    Vec<Value<GenericStruct>>,
    DecodeError,
>)
    ensures
        final(reader).all_bytes() == old(reader).all_bytes(),
        final(reader).spec_position() >= old(reader).spec_position(),
        match r {
            Ok(v) => gvals_dec(old(reader).unread(), len as int) == Some(
                (gvals_model(v@), final(reader).spec_position() - old(reader).spec_position()),
            ),
            Err(e) => {
                &&& gvals_dec(old(reader).unread(), len as int) is None
                &&& e == gvals_dec_err(old(reader).unread(), len as int)
            },
        },
    decreases 4 * reader.unread().len() + 2,
{
    proof {
        use_type_invariant(&*reader);
    }
    let mut result: Vec<Value<GenericStruct>> = Vec::with_capacity(len);
    let mut i: usize = 0;
    while i < len
        invariant
            0 <= i <= len,
            reader.all_bytes() == old(reader).all_bytes(),
            0 <= old(reader).spec_position(),
            old(reader).spec_position() <= reader.spec_position() <= reader.all_bytes().len(),
            result@.len() == i as int,
            match gvals_dec(reader.unread(), (len - i) as int) {
                Some((ms, u)) => gvals_dec(old(reader).unread(), len as int) == Some(
                    (
                        gvals_model(result@) + ms,
                        reader.spec_position() - old(reader).spec_position() + u,
                    ),
                ),
                None => gvals_dec(old(reader).unread(), len as int) is None && gvals_dec_err(
                    old(reader).unread(),
                    len as int,
                ) == gvals_dec_err(reader.unread(), (len - i) as int),
            },
        decreases len - i,
    {
        proof {
            reveal_with_fuel(gvals_dec_err, 2);
        }
        let ghost pre = *reader;
        let ghost old_result = result@;
        match decode_gval(reader) {
            Ok(v) => {
                proof {
                    use_type_invariant(&*reader);
                    assert(reader.unread() =~= pre.unread().skip(
                        reader.spec_position() - pre.spec_position(),
                    ));
                }
                let ghost prev_models = gvals_model(result@);
                result.push(v);
                proof {
                    lemma_gvals_push(old_result, v);
                    assert forall|ms: Seq<ValueModel<GenericStructModel>>|
                        prev_models + (seq![gval_model(v)] + ms) =~= (prev_models + seq![gval_model(
                            v,
                        )]) + ms by {}
                }
                i = i + 1;
            },
            Err(e) => {
                return Err(e);
            },
        }
    }
    Ok(result)
}

/// Reads `len` key-value pairs into a fresh dictionary, a repeated key
/// silently replacing the earlier entry.
#[verifier::spinoff_prover]
#[verifier::rlimit(100)]
fn decode_gpairs(len: usize, reader: &mut ByteReader) -> (r: Result<
    Dictionary<GenericStruct>,
    DecodeError,
>)
    ensures
        final(reader).all_bytes() == old(reader).all_bytes(),
        final(reader).spec_position() >= old(reader).spec_position(),
        match r {
            Ok(d) => gpairs_dec(old(reader).unread(), len as int, Seq::empty()) == Some(
                (
                    gpairs_model(d.pairs()),
                    final(reader).spec_position() - old(reader).spec_position(),
                ),
            ),
            Err(e) => {
                &&& gpairs_dec(old(reader).unread(), len as int, Seq::empty()) is None
                &&& e == gpairs_dec_err(old(reader).unread(), len as int)
            },
        },
    decreases 4 * reader.unread().len() + 2,
{
    proof {
        use_type_invariant(&*reader);
    }
    let mut result: Dictionary<GenericStruct> = Dictionary::with_capacity(len);
    let mut i: usize = 0;
    while i < len
        invariant
            0 <= i <= len,
            reader.all_bytes() == old(reader).all_bytes(),
            0 <= old(reader).spec_position(),
            old(reader).spec_position() <= reader.spec_position() <= reader.all_bytes().len(),
            match gpairs_dec(reader.unread(), (len - i) as int, gpairs_model(result.pairs())) {
                Some((ps, u)) => gpairs_dec(old(reader).unread(), len as int, Seq::empty())
                    == Some(
                    (ps, reader.spec_position() - old(reader).spec_position() + u),
                ),
                None => gpairs_dec(old(reader).unread(), len as int, Seq::empty()) is None
                    && gpairs_dec_err(old(reader).unread(), len as int) == gpairs_dec_err(
                    reader.unread(),
                    (len - i) as int,
                ),
            },
        decreases len - i,
    {
        proof {
            reveal_with_fuel(gpairs_dec, 1);
            reveal_with_fuel(gpairs_dec_err, 1);
        }
        let ghost pre = *reader;
        let ghost old_pairs = result.pairs();
        let key = match String::decode(reader) {
            Ok(k) => k,
            Err(e) => {
                return Err(e);
            },
        };
        proof {
            use_type_invariant(&*reader);
            assert(reader.unread() =~= pre.unread().skip(
                reader.spec_position() - pre.spec_position(),
            ));
        }
        let ghost mid = *reader;
        let value = match decode_gval(reader) {
            Ok(v) => v,
            Err(e) => {
                return Err(e);
            },
        };
        proof {
            use_type_invariant(&*reader);
            assert(reader.unread() =~= mid.unread().skip(
                reader.spec_position() - mid.spec_position(),
            ));
        }
        let _prev = result.insert_pair(key, value);
        proof {
            lemma_gpairs_model_insert(old_pairs, key, value);
        }
        i = i + 1;
    }
    proof {
        reveal_with_fuel(gpairs_dec, 1);
    }
    Ok(result)
}

/// Writes one generic-structure value in its canonical form. Fails with
/// [`EncodeError::TooManyStructFields`] at the first structure declaring
/// more fields than the format carries.
#[verifier::rlimit(100)]
fn encode_gval(v: &Value<GenericStruct>, writer: &mut Vec<u8>) -> (r: Result<usize, EncodeError>)
    requires
        gval_req(*v),
    ensures
        old(writer)@.is_prefix_of(final(writer)@),
        (r is Ok) == gval_ok(*v),
        r matches Ok(n) ==> final(writer)@ == old(writer)@ + gval_enc(*v) && n == gval_enc(
            *v,
        ).len(),
    decreases v,
{
    match v {
        Value::Null => {
            let _m = Marker::Null.encode(writer);
            Ok(1)
        },
        Value::Boolean(b) => b.encode(writer),
        Value::Integer(i) => i.encode(writer),
        Value::Float(bits) => encode_f64(*bits, writer),
        Value::Bytes(bs) => bs.encode(writer),
        Value::String(s) => s.encode(writer),
        Value::List(l) => {
            let start = writer.len();
            let header = match Length::from_usize(l.len()) {
                Some(h) => h,
                None => {
                    proof {
                        assert(false);
                    }
                    Length::Tiny(0)
                },
            };
            let _h = header.encode_as_list_size(writer);
            let mut i: usize = 0;
            let mut failed: Option<EncodeError> = None;
            while i < l.len()
                invariant
                    *v == Value::List(*l),
                    0 <= i <= l@.len(),
                    gvals_req(l@),
                    failed is None ==> writer@ == old(writer)@ + spec_list_header_of(
                        l@.len() as int,
                    ) + gvals_enc(l@.take(i as int)),
                    failed is None ==> gvals_ok(l@.take(i as int)),
                    failed is Some ==> !gvals_ok(l@),
                    failed is Some ==> i >= l@.len(),
                    old(writer)@.is_prefix_of(writer@),
                decreases l@.len() - i,
            {
                proof {
                    assert(*l == v->List_0);
                    assert(decreases_to!(*v => v->List_0));
                    assert(decreases_to!(v->List_0 => v->List_0@[i as int]));
                    assert(l@[i as int] == v->List_0@[i as int]);
                    lemma_gvals_split(l@, i as int);
                    lemma_gvals_take_step(l@, i as int);
                }
                match encode_gval(&l[i], writer) {
                    Ok(_) => {
                        proof {
                            lemma_gvals_push(l@.take(i as int), l@[i as int]);
                            assert(l@.take(i + 1 as int) =~= l@.take(i as int).push(
                                l@[i as int],
                            ));
                        }
                        i = i + 1;
                    },
                    Err(e) => {
                        failed = Some(e);
                        i = l.len();
                    },
                }
            }
            match failed {
                Some(e) => Err(e),
                None => {
                    proof {
                        assert(l@.take(l@.len() as int) =~= l@);
                        assert(writer@ =~= old(writer)@ + gval_enc(*v));
                    }
                    let end = writer.len();
                    Ok(end - start)
                },
            }
        },
        Value::Dictionary(d) => {
            let start = writer.len();
            let inner = &d.0;
            let header = match Length::from_usize(inner.len()) {
                Some(h) => h,
                None => {
                    proof {
                        assert(false);
                    }
                    Length::Tiny(0)
                },
            };
            let _h = header.encode_as_dict_size(writer);
            let mut i: usize = 0;
            let mut failed: Option<EncodeError> = None;
            while i < inner.len()
                invariant
                    *v == Value::Dictionary(*d),
                    inner == &d.0,
                    0 <= i <= inner@.len(),
                    gpairs_req(inner@),
                    failed is None ==> writer@ == old(writer)@ + spec_dict_header_of(
                        inner@.len() as int,
                    ) + gpairs_enc(inner@.take(i as int)),
                    failed is None ==> gpairs_ok(inner@.take(i as int)),
                    failed is Some ==> !gpairs_ok(inner@),
                    failed is Some ==> i >= inner@.len(),
                    old(writer)@.is_prefix_of(writer@),
                decreases inner@.len() - i,
            {
                proof {
                    assert(*d == v->Dictionary_0);
                    assert(decreases_to!(*v => v->Dictionary_0));
                    assert(decreases_to!(v->Dictionary_0 => v->Dictionary_0.0));
                    assert(decreases_to!(v->Dictionary_0.0 => v->Dictionary_0.0@[i as int]));
                    assert(decreases_to!(v->Dictionary_0.0@[i as int] => v->Dictionary_0.0@[i as int].1));
                    assert(inner@[i as int] == v->Dictionary_0.0@[i as int]);
                    lemma_gpairs_split(inner@, i as int);
                    lemma_gpairs_take_step(inner@, i as int);
                }
                let _k = inner[i].0.encode(writer);
                match encode_gval(&inner[i].1, writer) {
                    Ok(_) => {
                        proof {
                            lemma_gpairs_push(inner@.take(i as int), inner@[i as int]);
                            assert(inner@.take(i + 1 as int) =~= inner@.take(i as int).push(
                                inner@[i as int],
                            ));
                        }
                        i = i + 1;
                    },
                    Err(e) => {
                        failed = Some(e);
                        i = inner.len();
                    },
                }
            }
            match failed {
                Some(e) => Err(e),
                None => {
                    proof {
                        assert(inner@.take(inner@.len() as int) =~= inner@);
                        assert(writer@ =~= old(writer)@ + gval_enc(*v));
                    }
                    let end = writer.len();
                    Ok(end - start)
                },
            }
        },
        Value::Structure(g) => {
            proof {
                assert(decreases_to!(*v => v->Structure_0));
            }
            let gs: &GenericStruct = g;
            let r = encode_gstruct(gs, writer);
            r
        },
    }
}

/// Writes a generic structure: its marker with field count and tag, then
/// its fields.
fn encode_gstruct(g: &GenericStruct, writer: &mut Vec<u8>) -> (r: Result<usize, EncodeError>)
    requires
        gvals_req(g.fields@),
    ensures
        old(writer)@.is_prefix_of(final(writer)@),
        (r is Ok) == (g.fields@.len() <= 0x0F && gvals_ok(g.fields@)),
        r matches Ok(n) ==> final(writer)@ == old(writer)@ + gstruct_enc(*g) && n == gstruct_enc(
            *g,
        ).len(),
        r matches Err(e) ==> (g.fields@.len() > 0x0F ==> e == EncodeError::TooManyStructFields(
            g.fields@.len() as usize,
        )),
    decreases g,
{
    if g.fields.len() > 0x0F {
        return Err(EncodeError::TooManyStructFields(g.fields.len()));
    }
    let start = writer.len();
    let _m = Marker::Structure(g.fields.len(), g.tag_byte).encode(writer);
    let mut i: usize = 0;
    let mut failed: Option<EncodeError> = None;
    while i < g.fields.len()
        invariant
            0 <= i <= g.fields@.len(),
            gvals_req(g.fields@),
            failed is None ==> writer@ == old(writer)@ + spec_encode_marker(
                Marker::Structure(g.fields@.len() as usize, g.tag_byte),
            ) + gvals_enc(g.fields@.take(i as int)),
            failed is None ==> gvals_ok(g.fields@.take(i as int)),
            failed is Some ==> !gvals_ok(g.fields@),
            failed is Some ==> i >= g.fields@.len(),
            old(writer)@.is_prefix_of(writer@),
        decreases g.fields@.len() - i,
    {
        proof {
            assert(decreases_to!(*g => g.fields));
            assert(decreases_to!(g.fields => g.fields@[i as int]));
            lemma_gvals_split(g.fields@, i as int);
            lemma_gvals_take_step(g.fields@, i as int);
        }
        match encode_gval(&g.fields[i], writer) {
            Ok(_) => {
                proof {
                    lemma_gvals_push(g.fields@.take(i as int), g.fields@[i as int]);
                    assert(g.fields@.take(i + 1 as int) =~= g.fields@.take(i as int).push(
                        g.fields@[i as int],
                    ));
                }
                i = i + 1;
            },
            Err(e) => {
                failed = Some(e);
                i = g.fields.len();
            },
        }
    }
    match failed {
        Some(e) => Err(e),
        None => {
            proof {
                assert(g.fields@.take(g.fields@.len() as int) =~= g.fields@);
                assert(writer@ =~= old(writer)@ + gstruct_enc(*g));
            }
            let end = writer.len();
            Ok(end - start)
        },
    }
}

/// Pair by pair: conditions of a prefix extend one pair at a time.
proof fn lemma_gpairs_split(l: Seq<(String, Value<GenericStruct>)>, i: int)
    requires
        0 <= i < l.len(),
    ensures
        gpairs_req(l) ==> l[i].0.enc_req() && gval_req(l[i].1),
        gpairs_ok(l) ==> gval_ok(l[i].1),
        gpairs_ok(l.take(i)) && gval_ok(l[i].1) ==> gpairs_ok(l.take(i + 1)),
        !gval_ok(l[i].1) ==> !gpairs_ok(l),
    decreases l.len() + i,
{
    lemma_gpairs_take_step(l, i);
    if i == 0 {
    } else {
        assert(l.skip(1)[i - 1] == l[i]);
        lemma_gpairs_split(l.skip(1), i - 1);
    }
}

proof fn lemma_gpairs_take_step(l: Seq<(String, Value<GenericStruct>)>, i: int)
    requires
        0 <= i < l.len(),
    ensures
        gpairs_ok(l.take(i + 1)) == (gpairs_ok(l.take(i)) && gval_ok(l[i].1)),
        gpairs_ok(l) ==> gpairs_ok(l.skip(i)),
        l.skip(i)[0] == l[i],
    decreases i,
{
    if i == 0 {
        assert(l.take(1)[0] == l[0]);
        assert(l.take(1).skip(1) =~= Seq::<(String, Value<GenericStruct>)>::empty());
        assert(l.take(0) =~= Seq::<(String, Value<GenericStruct>)>::empty());
        assert(l.skip(0) =~= l);
    } else {
        lemma_gpairs_take_step(l.skip(1), i - 1);
        assert(l.take(i + 1).skip(1) =~= l.skip(1).take(i));
        assert(l.take(i).skip(1) =~= l.skip(1).take(i - 1));
        assert(l.take(i + 1)[0] == l[0]);
        assert(l.take(i)[0] == l[0]);
        assert(l.skip(1)[i - 1] == l[i]);
        assert(l.skip(1).skip(i - 1) =~= l.skip(i));
    }
}

/// Appending one pair appends its bytes.
proof fn lemma_gpairs_push(l: Seq<(String, Value<GenericStruct>)>, x: (String, Value<GenericStruct>))
    ensures
        gpairs_enc(l.push(x)) == gpairs_enc(l) + x.0.spec_enc() + gval_enc(x.1),
    decreases l,
{
    if l.len() == 0 {
        assert(l.push(x).skip(1) =~= Seq::<(String, Value<GenericStruct>)>::empty());
        assert(l.push(x)[0] == x);
        assert(gpairs_enc(l.push(x).skip(1)) == Seq::<u8>::empty());
        assert(gpairs_enc(l.push(x)) == x.0.spec_enc() + gval_enc(x.1) + Seq::<u8>::empty());
        assert(gpairs_enc(l) == Seq::<u8>::empty());
        assert((x.0.spec_enc() + gval_enc(x.1) + Seq::<u8>::empty()) =~= (Seq::<u8>::empty()
            + x.0.spec_enc() + gval_enc(x.1)));
    } else {
        lemma_gpairs_push(l.skip(1), x);
        assert(l.push(x).skip(1) =~= l.skip(1).push(x));
        assert(l.push(x)[0] == l[0]);
        assert(gpairs_enc(l.push(x)) == l[0].0.spec_enc() + gval_enc(l[0].1) + (gpairs_enc(
            l.skip(1),
        ) + x.0.spec_enc() + gval_enc(x.1)));
        assert((l[0].0.spec_enc() + gval_enc(l[0].1) + (gpairs_enc(l.skip(1)) + x.0.spec_enc()
            + gval_enc(x.1))) =~= ((l[0].0.spec_enc() + gval_enc(l[0].1) + gpairs_enc(l.skip(1)))
            + x.0.spec_enc() + gval_enc(x.1)));
        assert(gpairs_enc(l) == l[0].0.spec_enc() + gval_enc(l[0].1) + gpairs_enc(l.skip(1)));
    }
}


/// What the closed specs of a generic structure say, in public vocabulary:
/// the canonical bytes are the structure marker with this field count and
/// tag followed by the body that [`crate::structure::PackableStructSum`]
/// writes, both trait views share one model, and the model keeps the tag.
pub proof fn lemma_generic_struct_shape(g: &GenericStruct)
    ensures
        <GenericStruct as Pack>::spec_enc(g) == spec_encode_marker(
            Marker::Structure(g.fields@.len() as usize, g.tag_byte),
        ) + <GenericStruct as crate::structure::PackableStructSum>::spec_write_body(g),
        <GenericStruct as Pack>::enc_req(g) == <GenericStruct as crate::structure::PackableStructSum>::write_body_req(
            g,
        ),
        <GenericStruct as Pack>::enc_ok(g) == (g.fields@.len() <= 0x0F
            && <GenericStruct as crate::structure::PackableStructSum>::write_body_ok(g)),
        <GenericStruct as Unpack>::model(g) == <GenericStruct as crate::structure::PackableStructSum>::model(
            g,
        ),
        <GenericStruct as Unpack>::model(g).tag_byte == g.tag_byte,
        <GenericStruct as crate::structure::PackableStructSum>::spec_fields_len(g)
            == g.fields@.len(),
        <GenericStruct as crate::structure::PackableStructSum>::spec_tag_byte(g) == g.tag_byte,
{
}

impl Pack for GenericStruct {
    /// The canonical bytes of the structure: its marker declaring the
    /// field count with the tag byte, then each field in order.
    closed spec fn spec_enc(&self) -> Seq<u8> {
        gstruct_enc(*self)
    }

    closed spec fn enc_req(&self) -> bool {
        gvals_req(self.fields@)
    }

    closed spec fn enc_ok(&self) -> bool {
        self.fields@.len() <= 0x0F && gvals_ok(self.fields@)
    }

    fn encode(&self, writer: &mut Vec<u8>) -> (r: Result<usize, EncodeError>)
    {
        let r = encode_gstruct(self, writer);
        r
    }
}

impl Unpack for GenericStruct {
    type Model = GenericStructModel;

    closed spec fn model(&self) -> GenericStructModel {
        gstruct_model(*self)
    }

    closed spec fn spec_dec(s: Seq<u8>) -> Option<(GenericStructModel, int)> {
        match spec_decode_marker(s) {
            Some((m, k)) => if 1 <= k <= s.len() {
                match Self::spec_dec_body(m, s.skip(k)) {
                    Some((v, n)) => Some((v, k + n)),
                    None => None,
                }
            } else {
                None
            },
            None => None,
        }
    }

    closed spec fn spec_dec_body(m: Marker, s: Seq<u8>) -> Option<(GenericStructModel, int)> {
        match m {
            Marker::Structure(sz, tag) => match gvals_dec(s, sz as int) {
                Some((ms, u)) => Some((GenericStructModel { tag_byte: tag, fields: ms }, u)),
                None => None,
            },
            _ => None,
        }
    }

    closed spec fn spec_dec_err(s: Seq<u8>) -> DecodeError {
        match spec_decode_marker(s) {
            Some((m, k)) => Self::spec_dec_body_err(m, s.skip(k)),
            None => crate::ll::marker::spec_marker_error(s),
        }
    }

    closed spec fn spec_dec_body_err(m: Marker, s: Seq<u8>) -> DecodeError {
        match m {
            Marker::Structure(sz, tag) => gvals_dec_err(s, sz as int),
            _ => DecodeError::UnexpectedMarker(m),
        }
    }

    fn decode_body(marker: Marker, reader: &mut ByteReader) -> (r: Result<Self, DecodeError>)
    {
        match marker {
            Marker::Structure(sz, tag) => match decode_gvals(sz, reader) {
                Ok(fields) => Ok(GenericStruct { tag_byte: tag, fields }),
                Err(e) => Err(e),
            },
            _ => Err(DecodeError::UnexpectedMarker(marker)),
        }
    }

    fn decode(reader: &mut ByteReader) -> (r: Result<Self, DecodeError>)
    {
        proof {
            use_type_invariant(&*reader);
        }
        let marker = match Marker::decode(reader) {
            Ok(m) => m,
            Err(e) => {
                return Err(e);
            },
        };
        proof {
            use_type_invariant(&*reader);
            let s = old(reader).unread();
            assert(match spec_decode_marker(s) {
                Some((m2, k2)) => 1 <= k2 <= s.len(),
                None => true,
            });
            assert(reader.unread() =~= old(reader).unread().skip(
                reader.spec_position() - old(reader).spec_position(),
            ));
        }
        let r = Self::decode_body(marker, reader);
        r
    }
}

impl crate::structure::PackableStructSum for GenericStruct {
    type Model = GenericStructModel;

    closed spec fn model(&self) -> GenericStructModel {
        gstruct_model(*self)
    }

    closed spec fn spec_read_body(size: int, tag_byte: u8, s: Seq<u8>) -> Option<
        (GenericStructModel, int),
    > {
        match gvals_dec(s, size) {
            Some((ms, u)) => Some((GenericStructModel { tag_byte, fields: ms }, u)),
            None => None,
        }
    }

    closed spec fn spec_read_body_err(size: int, tag_byte: u8, s: Seq<u8>) -> DecodeError {
        gvals_dec_err(s, size)
    }

    closed spec fn spec_write_body(&self) -> Seq<u8> {
        gvals_enc(self.fields@)
    }

    closed spec fn write_body_req(&self) -> bool {
        gvals_req(self.fields@)
    }

    closed spec fn write_body_ok(&self) -> bool {
        gvals_ok(self.fields@)
    }

    closed spec fn spec_fields_len(&self) -> int {
        self.fields@.len() as int
    }

    closed spec fn spec_tag_byte(&self) -> u8 {
        self.tag_byte
    }

    fn read_struct_body(size: usize, tag_byte: u8, reader: &mut ByteReader) -> (r: Result<
        Self,
        DecodeError,
    >)
    {
        match decode_gvals(size, reader) {
            Ok(fields) => Ok(GenericStruct { tag_byte, fields }),
            Err(e) => Err(e),
        }
    }

    fn write_struct_body(&self, writer: &mut Vec<u8>) -> (r: Result<usize, EncodeError>)
    {
        let start = writer.len();
        let mut i: usize = 0;
        let mut failed: Option<EncodeError> = None;
        while i < self.fields.len()
            invariant
                0 <= i <= self.fields@.len(),
                gvals_req(self.fields@),
                failed is None ==> writer@ == old(writer)@ + gvals_enc(
                    self.fields@.take(i as int),
                ),
                failed is None ==> gvals_ok(self.fields@.take(i as int)),
                failed is Some ==> !gvals_ok(self.fields@),
                failed is Some ==> i >= self.fields@.len(),
                old(writer)@.is_prefix_of(writer@),
            decreases self.fields@.len() - i,
        {
            proof {
                assert(decreases_to!(*self => self.fields));
                assert(decreases_to!(self.fields => self.fields@[i as int]));
                lemma_gvals_split(self.fields@, i as int);
                lemma_gvals_take_step(self.fields@, i as int);
            }
            match encode_gval(&self.fields[i], writer) {
                Ok(_) => {
                    proof {
                        lemma_gvals_push(self.fields@.take(i as int), self.fields@[i as int]);
                        assert(self.fields@.take(i + 1 as int) =~= self.fields@.take(
                            i as int,
                        ).push(self.fields@[i as int]));
                    }
                    i = i + 1;
                },
                Err(e) => {
                    failed = Some(e);
                    i = self.fields.len();
                },
            }
        }
        match failed {
            Some(e) => Err(e),
            None => {
                proof {
                    assert(self.fields@.take(self.fields@.len() as int) =~= self.fields@);
                }
                let end = writer.len();
                Ok(end - start)
            },
        }
    }

    fn fields_len(&self) -> (r: usize)
    {
        self.fields.len()
    }

    fn tag_byte(&self) -> (r: u8)
    {
        self.tag_byte
    }
}

} // verus!
