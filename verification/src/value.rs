//! The runtime-typed side of the codec: the `Value` union that can carry
//! any wire value, parameterized by the set of structure types it accepts.

use vstd::prelude::*;
use crate::error::{DecodeError, EncodeError};
use crate::ll::marker::{spec_decode_marker, Marker};
use crate::ll::types::fixed::{decode_body_f64, encode_f64, spec_be8, spec_u64_of_be};
use crate::ll::types::lengths::{read_dict_size, read_list_size, spec_read_dict_size, spec_read_list_size, Length};
use crate::packable::{
    spec_decode_bytes_body, spec_decode_int_body, spec_decode_string, spec_decode_string_body,
    spec_dict_header_of, spec_encode_int, spec_list_header_of, Pack, Unpack,
};
use crate::stream::ByteReader;
use crate::value::bytes::Bytes;
use crate::value::dictionary::{spec_insert_pair, Dictionary};

pub mod bytes;
pub mod dictionary;

verus! {

/// A value of any type the wire format can carry, generic over the set `S`
/// of structure types it may contain. Floats are carried as the IEEE-754
/// bit pattern of the 64-bit value.
#[derive(Debug, PartialEq)]
pub enum Value<S> {
    Null,
    Boolean(bool),
    Integer(i64),
    Float(u64),
    Bytes(Bytes),
    String(String),
    List(Vec<Value<S>>),
    Dictionary(Dictionary<S>),
    Structure(S),
}

/// The mathematical shape of a wire value, generic over the model `SM` of
/// the structure types: strings are their characters, blobs their bytes,
/// collections the sequence of their members' models.
pub enum ValueModel<SM> {
    Null,
    Boolean(bool),
    Integer(i64),
    Float(u64),
    Bytes(Seq<u8>),
    String(Seq<char>),
    List(Seq<ValueModel<SM>>),
    Dictionary(Seq<(Seq<char>, ValueModel<SM>)>),
    Structure(SM),
}

/// Sets `key` to `value` in a keyed pair sequence: replaces the value in
/// place at the first pair already carrying `key`, else appends a new pair.
pub open spec fn spec_pairs_insert<VM>(
    ps: Seq<(Seq<char>, VM)>,
    key: Seq<char>,
    value: VM,
) -> Seq<(Seq<char>, VM)>
    decreases ps,
{
    if ps.len() == 0 {
        seq![(key, value)]
    } else if ps[0].0 == key {
        seq![(key, value)] + ps.skip(1)
    } else {
        seq![ps[0]] + spec_pairs_insert(ps.skip(1), key, value)
    }
}

/// The canonical bytes of a key-value pair sequence: each key as a string,
/// then its value, in order.
pub open spec fn spec_enc_pairs<S: Pack>(l: Seq<(String, Value<S>)>) -> Seq<u8>
    decreases l,
{
    if l.len() == 0 {
        Seq::empty()
    } else {
        l[0].0.spec_enc() + l[0].1.spec_enc() + spec_enc_pairs(l.skip(1))
    }
}

/// Every pair of a key-value sequence meets its encoding precondition.
pub open spec fn spec_pairs_req<S: Pack>(l: Seq<(String, Value<S>)>) -> bool
    decreases l,
{
    if l.len() == 0 {
        true
    } else {
        l[0].0.enc_req() && l[0].1.enc_req() && spec_pairs_req(l.skip(1))
    }
}

/// Every pair of a key-value sequence encodes successfully.
pub open spec fn spec_pairs_ok<S: Pack>(l: Seq<(String, Value<S>)>) -> bool
    decreases l,
{
    if l.len() == 0 {
        true
    } else {
        l[0].1.enc_ok() && spec_pairs_ok(l.skip(1))
    }
}

/// A pair sequence's precondition and success are decided pair by pair.
pub proof fn lemma_pairs_split<S: Pack>(l: Seq<(String, Value<S>)>, i: int)
    requires
        0 <= i < l.len(),
    ensures
        spec_pairs_req(l) ==> l[i].0.enc_req() && l[i].1.enc_req(),
        spec_pairs_ok(l) ==> l[i].1.enc_ok(),
        spec_pairs_ok(l.take(i)) && l[i].1.enc_ok() ==> spec_pairs_ok(l.take(i + 1)),
        !l[i].1.enc_ok() ==> !spec_pairs_ok(l),
    decreases l.len() + i,
{
    lemma_pairs_take_step(l, i);
    if i == 0 {
    } else {
        assert(l.skip(1)[i - 1] == l[i]);
        lemma_pairs_split(l.skip(1), i - 1);
    }
}

/// Success of the first `i + 1` pairs splits into the first `i` and pair `i`.
proof fn lemma_pairs_take_step<S: Pack>(l: Seq<(String, Value<S>)>, i: int)
    requires
        0 <= i < l.len(),
    ensures
        spec_pairs_ok(l.take(i + 1)) == (spec_pairs_ok(l.take(i)) && l[i].1.enc_ok()),
        spec_pairs_ok(l) ==> spec_pairs_ok(l.skip(i)),
        l.skip(i)[0] == l[i],
    decreases i,
{
    if i == 0 {
        assert(l.take(1)[0] == l[0]);
        assert(l.take(1).skip(1) =~= Seq::<(String, Value<S>)>::empty());
        assert(l.take(0) =~= Seq::<(String, Value<S>)>::empty());
        assert(l.skip(0) =~= l);
    } else {
        lemma_pairs_take_step(l.skip(1), i - 1);
        assert(l.take(i + 1).skip(1) =~= l.skip(1).take(i));
        assert(l.take(i).skip(1) =~= l.skip(1).take(i - 1));
        assert(l.take(i + 1)[0] == l[0]);
        assert(l.take(i)[0] == l[0]);
        assert(l.skip(1)[i - 1] == l[i]);
        assert(l.skip(1).skip(i - 1) =~= l.skip(i));
    }
}

/// Appending one pair appends its bytes.
pub proof fn lemma_spec_enc_pairs_push<S: Pack>(l: Seq<(String, Value<S>)>, x: (String, Value<S>))
    ensures
        spec_enc_pairs(l.push(x)) == spec_enc_pairs(l) + x.0.spec_enc() + x.1.spec_enc(),
    decreases l,
{
    if l.len() == 0 {
        assert(l.push(x).skip(1) =~= Seq::<(String, Value<S>)>::empty());
        assert(spec_enc_pairs(l.push(x).skip(1)) == Seq::<u8>::empty());
        assert(l.push(x)[0] == x);
        assert(spec_enc_pairs(l.push(x)) == x.0.spec_enc() + x.1.spec_enc() + Seq::<u8>::empty());
        assert(spec_enc_pairs(l) == Seq::<u8>::empty());
        assert((x.0.spec_enc() + x.1.spec_enc() + Seq::<u8>::empty()) =~= (Seq::<u8>::empty()
            + x.0.spec_enc() + x.1.spec_enc()));
    } else {
        lemma_spec_enc_pairs_push(l.skip(1), x);
        assert(l.push(x).skip(1) =~= l.skip(1).push(x));
        assert(l.push(x)[0] == l[0]);
        assert(spec_enc_pairs(l.push(x)) == l[0].0.spec_enc() + l[0].1.spec_enc() + (spec_enc_pairs(
            l.skip(1),
        ) + x.0.spec_enc() + x.1.spec_enc()));
        assert((l[0].0.spec_enc() + l[0].1.spec_enc() + (spec_enc_pairs(l.skip(1)) + x.0.spec_enc()
            + x.1.spec_enc())) =~= ((l[0].0.spec_enc() + l[0].1.spec_enc() + spec_enc_pairs(
            l.skip(1),
        )) + x.0.spec_enc() + x.1.spec_enc()));
        assert(spec_enc_pairs(l) == l[0].0.spec_enc() + l[0].1.spec_enc() + spec_enc_pairs(
            l.skip(1),
        ));
    }
}

/// The models of a key-value pair sequence, in order: the key's characters
/// with the value's model.
pub open spec fn models_pairs<S: Unpack>(l: Seq<(String, Value<S>)>) -> Seq<
    (Seq<char>, ValueModel<S::Model>),
>
    decreases l,
{
    if l.len() == 0 {
        Seq::empty()
    } else {
        seq![(l[0].0@, l[0].1.model())] + models_pairs(l.skip(1))
    }
}


/// The concatenated canonical bytes of a sequence of values, in order.
pub open spec fn spec_enc_vals<S: Pack>(l: Seq<Value<S>>) -> Seq<u8>
    decreases l,
{
    if l.len() == 0 {
        Seq::empty()
    } else {
        l[0].spec_enc() + spec_enc_vals(l.skip(1))
    }
}

/// Every value of the sequence meets its encoding precondition.
pub open spec fn spec_vals_req<S: Pack>(l: Seq<Value<S>>) -> bool
    decreases l,
{
    if l.len() == 0 {
        true
    } else {
        l[0].enc_req() && spec_vals_req(l.skip(1))
    }
}

/// Every value of the sequence encodes successfully.
pub open spec fn spec_vals_ok<S: Pack>(l: Seq<Value<S>>) -> bool
    decreases l,
{
    if l.len() == 0 {
        true
    } else {
        l[0].enc_ok() && spec_vals_ok(l.skip(1))
    }
}

/// A value sequence's precondition and success are decided value by value.
pub proof fn lemma_vals_split<S: Pack>(l: Seq<Value<S>>, i: int)
    requires
        0 <= i < l.len(),
    ensures
        spec_vals_req(l) ==> l[i].enc_req(),
        spec_vals_ok(l) ==> l[i].enc_ok(),
        spec_vals_ok(l.take(i)) && l[i].enc_ok() ==> spec_vals_ok(l.take(i + 1)),
        !l[i].enc_ok() ==> !spec_vals_ok(l),
    decreases l.len() + i,
{
    lemma_vals_take_step(l, i);
    if i == 0 {
    } else {
        assert(l.skip(1)[i - 1] == l[i]);
        lemma_vals_split(l.skip(1), i - 1);
    }
}

/// Success of the first `i + 1` values splits into the first `i` and
/// value `i`.
proof fn lemma_vals_take_step<S: Pack>(l: Seq<Value<S>>, i: int)
    requires
        0 <= i < l.len(),
    ensures
        spec_vals_ok(l.take(i + 1)) == (spec_vals_ok(l.take(i)) && l[i].enc_ok()),
        spec_vals_ok(l) ==> spec_vals_ok(l.skip(i)),
        l.skip(i)[0] == l[i],
    decreases i,
{
    if i == 0 {
        assert(l.take(1)[0] == l[0]);
        assert(l.take(1).skip(1) =~= Seq::<Value<S>>::empty());
        assert(l.take(0) =~= Seq::<Value<S>>::empty());
        assert(l.skip(0) =~= l);
    } else {
        lemma_vals_take_step(l.skip(1), i - 1);
        assert(l.take(i + 1).skip(1) =~= l.skip(1).take(i));
        assert(l.take(i).skip(1) =~= l.skip(1).take(i - 1));
        assert(l.take(i + 1)[0] == l[0]);
        assert(l.take(i)[0] == l[0]);
        assert(l.skip(1)[i - 1] == l[i]);
        assert(l.skip(1).skip(i - 1) =~= l.skip(i));
    }
}

/// Appending one value appends its bytes.
pub proof fn lemma_spec_enc_vals_push<S: Pack>(l: Seq<Value<S>>, x: Value<S>)
    ensures
        spec_enc_vals(l.push(x)) == spec_enc_vals(l) + x.spec_enc(),
    decreases l,
{
    if l.len() == 0 {
        assert(l.push(x).skip(1) =~= Seq::<Value<S>>::empty());
        assert(spec_enc_vals(l.push(x).skip(1)) == Seq::<u8>::empty());
        assert(l.push(x)[0] == x);
        assert(spec_enc_vals(l.push(x)) == x.spec_enc() + Seq::<u8>::empty());
        assert(spec_enc_vals(l) == Seq::<u8>::empty());
        assert((x.spec_enc() + Seq::<u8>::empty()) =~= (Seq::<u8>::empty() + x.spec_enc()));
    } else {
        lemma_spec_enc_vals_push(l.skip(1), x);
        assert(l.push(x).skip(1) =~= l.skip(1).push(x));
        assert(l.push(x)[0] == l[0]);
        assert(spec_enc_vals(l.push(x)) == l[0].spec_enc() + (spec_enc_vals(l.skip(1))
            + x.spec_enc()));
        assert((l[0].spec_enc() + (spec_enc_vals(l.skip(1)) + x.spec_enc())) =~= ((l[0].spec_enc()
            + spec_enc_vals(l.skip(1))) + x.spec_enc()));
        assert(spec_enc_vals(l) == l[0].spec_enc() + spec_enc_vals(l.skip(1)));
    }
}

/// The models of a sequence of values, in order.
pub open spec fn models_vals<S: Unpack>(l: Seq<Value<S>>) -> Seq<ValueModel<S::Model>>
    decreases l,
{
    if l.len() == 0 {
        Seq::empty()
    } else {
        seq![l[0].model()] + models_vals(l.skip(1))
    }
}

/// Appending one value appends its model.
pub proof fn lemma_models_vals_push<S: Unpack>(l: Seq<Value<S>>, x: Value<S>)
    ensures
        models_vals(l.push(x)) == models_vals(l) + seq![x.model()],
    decreases l,
{
    if l.len() == 0 {
        assert(l.push(x).skip(1) =~= Seq::<Value<S>>::empty());
        assert(models_vals(l.push(x).skip(1)) == Seq::<ValueModel<S::Model>>::empty());
        assert(l.push(x)[0] == x);
        assert(models_vals(l.push(x)) == seq![x.model()] + Seq::<ValueModel<S::Model>>::empty());
        assert(models_vals(l) == Seq::<ValueModel<S::Model>>::empty());
        assert((seq![x.model()] + Seq::<ValueModel<S::Model>>::empty()) =~= (Seq::<
            ValueModel<S::Model>,
        >::empty() + seq![x.model()]));
    } else {
        lemma_models_vals_push(l.skip(1), x);
        assert(l.push(x).skip(1) =~= l.skip(1).push(x));
        assert(l.push(x)[0] == l[0]);
        assert(models_vals(l.push(x)) == seq![l[0].model()] + (models_vals(l.skip(1))
            + seq![x.model()]));
        assert((seq![l[0].model()] + (models_vals(l.skip(1)) + seq![x.model()])) =~= ((seq![l[0].model()]
            + models_vals(l.skip(1))) + seq![x.model()]));
        assert(models_vals(l) == seq![l[0].model()] + models_vals(l.skip(1)));
    }
}

/// What decoding `n` consecutive values yields: their models in order and
/// the bytes they cover together, or nothing as soon as one of them fails.
pub open spec fn spec_dec_vals<S: Unpack>(s: Seq<u8>, n: int) -> Option<
    (Seq<ValueModel<S::Model>>, int),
>
    decreases s.len(), 1int, n,
{
    if n <= 0 {
        Some((Seq::empty(), 0))
    } else {
        match <Value<S> as Unpack>::spec_dec(s) {
            Some((m, used)) => if 0 <= used <= s.len() {
                match spec_dec_vals::<S>(s.skip(used), n - 1) {
                    Some((ms, u2)) => Some((seq![m] + ms, used + u2)),
                    None => None,
                }
            } else {
                None
            },
            None => None,
        }
    }
}

/// Inserting a pair and then taking models is the same as inserting the
/// pair's model into the models.
pub proof fn lemma_models_insert<S: Unpack>(
    ps: Seq<(String, Value<S>)>,
    key: String,
    value: Value<S>,
)
    ensures
        models_pairs(spec_insert_pair(ps, key, value)) == spec_pairs_insert(
            models_pairs(ps),
            key@,
            value.model(),
        ),
    decreases ps,
{
    if ps.len() == 0 {
        assert(spec_insert_pair(ps, key, value) == seq![(key, value)]);
        assert(seq![(key, value)].skip(1) =~= Seq::<(String, Value<S>)>::empty());
        assert(seq![(key, value)][0] == (key, value));
        assert(models_pairs(seq![(key, value)].skip(1)) == Seq::<
            (Seq<char>, ValueModel<S::Model>),
        >::empty());
        assert(models_pairs(seq![(key, value)]) == seq![(key@, value.model())] + Seq::<
            (Seq<char>, ValueModel<S::Model>),
        >::empty());
        assert(models_pairs(ps) == Seq::<(Seq<char>, ValueModel<S::Model>)>::empty());
        assert(models_pairs(spec_insert_pair(ps, key, value)) =~= spec_pairs_insert(
            models_pairs(ps),
            key@,
            value.model(),
        ));
    } else {
        assert(models_pairs(ps) == seq![(ps[0].0@, ps[0].1.model())] + models_pairs(ps.skip(1)));
        assert(models_pairs(ps)[0] == (ps[0].0@, ps[0].1.model()));
        assert(models_pairs(ps).skip(1) =~= models_pairs(ps.skip(1)));
        if ps[0].0@ == key@ {
            let r = seq![(key, value)] + ps.skip(1);
            assert(r.skip(1) =~= ps.skip(1));
            assert(models_pairs(r) == seq![(key@, value.model())] + models_pairs(ps.skip(1)));
            assert(models_pairs(spec_insert_pair(ps, key, value)) =~= spec_pairs_insert(
                models_pairs(ps),
                key@,
                value.model(),
            ));
        } else {
            lemma_models_insert(ps.skip(1), key, value);
            let r = seq![ps[0]] + spec_insert_pair(ps.skip(1), key, value);
            assert(r.skip(1) =~= spec_insert_pair(ps.skip(1), key, value));
            assert(r[0] == ps[0]);
            assert(models_pairs(r) == seq![(ps[0].0@, ps[0].1.model())] + models_pairs(
                spec_insert_pair(ps.skip(1), key, value),
            ));
            assert(models_pairs(spec_insert_pair(ps, key, value)) =~= spec_pairs_insert(
                models_pairs(ps),
                key@,
                value.model(),
            ));
        }
    }
}

impl<S: Pack> Pack for Value<S> {
    /// The canonical bytes of a value: scalars in their most compact
    /// integer form, collections as header plus members, structures as
    /// whatever their own type writes.
    closed spec fn spec_enc(&self) -> Seq<u8>
        decreases self,
    {
        match self {
            Value::Null => seq![0xC0u8],
            Value::Boolean(b) => if *b {
                seq![0xC2u8]
            } else {
                seq![0xC3u8]
            },
            Value::Integer(i) => spec_encode_int(*i),
            Value::Float(bits) => seq![0xC1u8] + spec_be8(*bits),
            Value::Bytes(b) => b.spec_enc(),
            Value::String(s) => s.spec_enc(),
            Value::List(l) => spec_list_header_of(l@.len() as int) + spec_enc_vals(l@),
            Value::Dictionary(d) => spec_dict_header_of(d.0@.len() as int) + spec_enc_pairs(
                d.0@,
            ),
            Value::Structure(s) => s.spec_enc(),
        }
    }

    closed spec fn enc_req(&self) -> bool
        decreases self,
    {
        match self {
            Value::Null => true,
            Value::Boolean(_) => true,
            Value::Integer(_) => true,
            Value::Float(_) => true,
            Value::Bytes(b) => b.enc_req(),
            Value::String(s) => s.enc_req(),
            Value::List(l) => l@.len() <= 0x7FFFFFFF && spec_vals_req(l@),
            Value::Dictionary(d) => d.0@.len() <= 0x7FFFFFFF && spec_pairs_req(d.0@),
            Value::Structure(s) => s.enc_req(),
        }
    }

    closed spec fn enc_ok(&self) -> bool
        decreases self,
    {
        match self {
            Value::List(l) => spec_vals_ok(l@),
            Value::Dictionary(d) => spec_pairs_ok(d.0@),
            Value::Structure(s) => s.enc_ok(),
            _ => true,
        }
    }

    fn encode(&self, writer: &mut Vec<u8>) -> (r: Result<usize, EncodeError>)
        decreases self,
    {
        match self {
            Value::Null => {
                let _r = Marker::Null.encode(writer);
                Ok(1)
            },
            Value::Boolean(b) => b.encode(writer),
            Value::Integer(i) => i.encode(writer),
            Value::Float(bits) => encode_f64(*bits, writer),
            Value::Bytes(bs) => bs.encode(writer),
            Value::String(s) => s.encode(writer),
            Value::List(l) => {
                let start = writer.len();
                let header = match Length::from_usize(l.len()) {
                    Some(h) => h,
                    None => {
                        proof {
                            assert(false);
                        }
                        Length::Tiny(0)
                    },
                };
                let _h = header.encode_as_list_size(writer);
                let mut i: usize = 0;
                let mut failed: Option<EncodeError> = None;
                while i < l.len()
                    invariant
                        *self == Value::List(*l),
                        0 <= i <= l@.len(),
                        spec_vals_req(l@),
                        failed is None ==> writer@ == old(writer)@ + spec_list_header_of(
                            l@.len() as int,
                        ) + spec_enc_vals(l@.take(i as int)),
                        failed is None ==> spec_vals_ok(l@.take(i as int)),
                        failed is Some ==> !spec_vals_ok(l@),
                        failed is Some ==> i >= l@.len(),
                        old(writer)@.is_prefix_of(writer@),
                    decreases l@.len() - i,
                {
                    proof {
                        assert(*l == self->List_0);
                        assert(decreases_to!(*self => self->List_0));
                        assert(decreases_to!(self->List_0 => self->List_0@[i as int]));
                        assert(l@[i as int] == self->List_0@[i as int]);
                        lemma_vals_split(l@, i as int);
                        lemma_vals_take_step(l@, i as int);
                    }
                    match l[i].encode(writer) {
                        Ok(_) => {
                            proof {
                                lemma_spec_enc_vals_push(l@.take(i as int), l@[i as int]);
                                assert(l@.take(i + 1 as int) =~= l@.take(i as int).push(
                                    l@[i as int],
                                ));
                                assert(spec_vals_ok(l@.take(i + 1 as int)));
                            }
                            i = i + 1;
                        },
                        Err(e) => {
                            proof {
                                assert(!spec_vals_ok(l@));
                            }
                            failed = Some(e);
                            i = l.len();
                        },
                    }
                }
                match failed {
                    Some(e) => Err(e),
                    None => {
                        proof {
                            assert(l@.take(l@.len() as int) =~= l@);
                            assert(writer@ =~= old(writer)@ + self.spec_enc());
                        }
                        let end = writer.len();
                        Ok(end - start)
                    },
                }
            },
            Value::Dictionary(d) => {
                proof {
                    crate::value::dictionary::lemma_dictionary_pairs(d);
                }
                let r = d.encode(writer);
                r
            },
            Value::Structure(s) => s.encode(writer),
        }
    }
}


/// The canonical bytes of each value case, stated in public vocabulary:
/// what the closed encoding spec of [`Value`] unfolds to, case by case.
pub proof fn lemma_value_enc_shape<S: Pack>(v: &Value<S>)
    ensures
        v matches Value::Null ==> v.spec_enc() == seq![0xC0u8],
        v matches Value::Boolean(b) ==> v.spec_enc() == (if *b {
            seq![0xC2u8]
        } else {
            seq![0xC3u8]
        }),
        v matches Value::Integer(i) ==> v.spec_enc() == spec_encode_int(*i),
        v matches Value::Float(bits) ==> v.spec_enc() == seq![0xC1u8] + crate::ll::types::fixed::spec_be8(
            *bits,
        ),
        v matches Value::Bytes(b) ==> v.spec_enc() == b.spec_enc() && v.enc_req() == b.enc_req(),
        v matches Value::String(st) ==> v.spec_enc() == st.spec_enc() && v.enc_req()
            == st.enc_req(),
        v matches Value::List(l) ==> v.spec_enc() == spec_list_header_of(l@.len() as int)
            + spec_enc_vals(l@) && v.enc_req() == (l@.len() <= 0x7FFFFFFF && spec_vals_req(l@))
            && v.enc_ok() == spec_vals_ok(l@),
        v matches Value::Dictionary(d) ==> v.spec_enc() == spec_dict_header_of(
            d.pairs().len() as int,
        ) + spec_enc_pairs(d.pairs()) && v.enc_req() == (d.pairs().len() <= 0x7FFFFFFF
            && spec_pairs_req(d.pairs())) && v.enc_ok() == spec_pairs_ok(d.pairs()),
        v matches Value::Structure(st) ==> v.spec_enc() == st.spec_enc() && v.enc_req()
            == st.enc_req() && v.enc_ok() == st.enc_ok(),
        (v is Null || v is Boolean || v is Integer || v is Float) ==> v.enc_req() && v.enc_ok(),
        (v is Bytes || v is String) ==> v.enc_ok(),
{
    match v {
        Value::Dictionary(d) => {
            crate::value::dictionary::lemma_dictionary_pairs(d);
        },
        _ => {},
    }
}

/// The model of each value case, stated in public vocabulary: what the
/// closed model spec of [`Value`] unfolds to, case by case.
pub proof fn lemma_value_model_shape<S: Unpack>(v: &Value<S>)
    ensures
        v matches Value::Null ==> v.model() == ValueModel::<S::Model>::Null,
        v matches Value::Boolean(b) ==> v.model() == ValueModel::<S::Model>::Boolean(*b),
        v matches Value::Integer(i) ==> v.model() == ValueModel::<S::Model>::Integer(*i),
        v matches Value::Float(bits) ==> v.model() == ValueModel::<S::Model>::Float(*bits),
        v matches Value::Bytes(b) ==> v.model() == ValueModel::<S::Model>::Bytes(b.0@),
        v matches Value::String(st) ==> v.model() == ValueModel::<S::Model>::String(st@),
        v matches Value::List(l) ==> v.model() == ValueModel::<S::Model>::List(models_vals(l@)),
        v matches Value::Dictionary(d) ==> v.model() == ValueModel::<S::Model>::Dictionary(
            models_pairs(d.pairs()),
        ),
        v matches Value::Structure(st) ==> v.model() == ValueModel::<S::Model>::Structure(
            st.model(),
        ),
{
    match v {
        Value::Dictionary(d) => {
            crate::value::dictionary::lemma_dictionary_pairs(d);
        },
        _ => {},
    }
}

impl<S: Pack> Pack for Dictionary<S> {
    /// The canonical bytes of a dictionary: its header, then each pair in
    /// insertion order, the key as a string, then its value.
    open spec fn spec_enc(&self) -> Seq<u8> {

        spec_dict_header_of(self.pairs().len() as int) + spec_enc_pairs(self.pairs())
    }

    open spec fn enc_req(&self) -> bool {
        self.pairs().len() <= 0x7FFFFFFF && spec_pairs_req(self.pairs())
    }

    open spec fn enc_ok(&self) -> bool {
        spec_pairs_ok(self.pairs())
    }

    fn encode(&self, writer: &mut Vec<u8>) -> (r: Result<usize, EncodeError>)
        decreases self,
    {
        proof {
            crate::value::dictionary::lemma_dictionary_pairs(self);
        }
        let start = writer.len();
        let inner = &self.0;
        let header = match Length::from_usize(inner.len()) {
            Some(h) => h,
            None => {
                proof {
                    assert(false);
                }
                Length::Tiny(0)
            },
        };
        let _h = header.encode_as_dict_size(writer);
        let mut i: usize = 0;
        let mut failed: Option<EncodeError> = None;
        while i < inner.len()
            invariant
                inner == &self.0,
                inner@ == self.pairs(),
                0 <= i <= inner@.len(),
                spec_pairs_req(inner@),
                failed is None ==> writer@ == old(writer)@ + spec_dict_header_of(
                    inner@.len() as int,
                ) + spec_enc_pairs(inner@.take(i as int)),
                failed is None ==> spec_pairs_ok(inner@.take(i as int)),
                failed is Some ==> !spec_pairs_ok(inner@),
                failed is Some ==> i >= inner@.len(),
                old(writer)@.is_prefix_of(writer@),
            decreases inner@.len() - i,
        {
            proof {
                assert(decreases_to!(*self => self.0));
                assert(decreases_to!(self.0 => self.0@[i as int]));
                assert(decreases_to!(self.0@[i as int] => self.0@[i as int].1));
                lemma_pairs_split(inner@, i as int);
                lemma_pairs_take_step(inner@, i as int);
            }
            let _k = inner[i].0.encode(writer);
            match inner[i].1.encode(writer) {
                Ok(_) => {
                    proof {
                        lemma_spec_enc_pairs_push(inner@.take(i as int), inner@[i as int]);
                        assert(inner@.take(i + 1 as int) =~= inner@.take(i as int).push(
                            inner@[i as int],
                        ));
                        assert(spec_pairs_ok(inner@.take(i + 1 as int)));
                    }
                    i = i + 1;
                },
                Err(e) => {
                    proof {
                        assert(!spec_pairs_ok(inner@));
                    }
                    failed = Some(e);
                    i = inner.len();
                },
            }
        }
        match failed {
            Some(e) => Err(e),
            None => {
                proof {
                    assert(inner@.take(inner@.len() as int) =~= inner@);
                    assert(writer@ =~= old(writer)@ + self.spec_enc());
                }
                let end = writer.len();
                Ok(end - start)
            },
        }
    }
}

/// What decoding `n` key-value pairs into a dictionary yields, starting
/// from the pairs already read in `acc`: keys read as strings, values as
/// any value, with a repeated key silently replacing the earlier entry.
#[verifier::opaque]
pub open spec fn spec_dec_dict_pairs<S: Unpack>(
    s: Seq<u8>,
    n: int,
    acc: Seq<(Seq<char>, ValueModel<S::Model>)>,
) -> Option<(Seq<(Seq<char>, ValueModel<S::Model>)>, int)>
    decreases s.len(), 1int, n,
{
    if n <= 0 {
        Some((acc, 0))
    } else {
        match spec_decode_string(s) {
            Some((key, ku)) => if 0 <= ku <= s.len() {
                match <Value<S> as Unpack>::spec_dec(s.skip(ku)) {
                    Some((vm, vu)) => if 0 <= vu <= s.skip(ku).len() {
                        match spec_dec_dict_pairs::<S>(
                            s.skip(ku).skip(vu),
                            n - 1,
                            spec_pairs_insert(acc, key, vm),
                        ) {
                            Some((ps, u2)) => Some((ps, ku + vu + u2)),
                            None => None,
                        }
                    } else {
                        None
                    },
                    None => None,
                }
            } else {
                None
            },
            None => None,
        }
    }
}

/// The error a failed value-sequence decode reports: the first failing
/// value's own error, unchanged. Meaningful exactly where
/// [`spec_dec_vals`] is `None`.
#[verifier::opaque]
pub open spec fn spec_dec_vals_err<S: Unpack>(s: Seq<u8>, n: int) -> DecodeError
    decreases s.len(), 1int, n,
{
    if n <= 0 {
        DecodeError::UnexpectedEndOfStream
    } else {
        match <Value<S> as Unpack>::spec_dec(s) {
            Some((m, used)) => if 0 <= used <= s.len() {
                spec_dec_vals_err::<S>(s.skip(used), n - 1)
            } else {
                DecodeError::UnexpectedEndOfStream
            },
            None => <Value<S> as Unpack>::spec_dec_err(s),
        }
    }
}

/// The error a failed pair-sequence decode reports: the first failing key
/// or value decode's own error, unchanged. Meaningful exactly where
/// [`spec_dec_dict_pairs`] is `None`.
#[verifier::opaque]
pub open spec fn spec_dec_dict_pairs_err<S: Unpack>(s: Seq<u8>, n: int) -> DecodeError
    decreases s.len(), 1int, n,
{
    if n <= 0 {
        DecodeError::UnexpectedEndOfStream
    } else {
        match spec_decode_string(s) {
            Some((key, ku)) => if 0 <= ku <= s.len() {
                match <Value<S> as Unpack>::spec_dec(s.skip(ku)) {
                    Some((vm, vu)) => if 0 <= vu <= s.skip(ku).len() {
                        spec_dec_dict_pairs_err::<S>(s.skip(ku).skip(vu), n - 1)
                    } else {
                        DecodeError::UnexpectedEndOfStream
                    },
                    None => <Value<S> as Unpack>::spec_dec_err(s.skip(ku)),
                }
            } else {
                DecodeError::UnexpectedEndOfStream
            },
            None => String::spec_dec_err(s),
        }
    }
}

impl<S: Unpack> Unpack for Value<S> {
    type Model = ValueModel<S::Model>;

    closed spec fn model(&self) -> ValueModel<S::Model>
        decreases self,
    {
        match self {
            Value::Null => ValueModel::Null,
            Value::Boolean(b) => ValueModel::Boolean(*b),
            Value::Integer(i) => ValueModel::Integer(*i),
            Value::Float(bits) => ValueModel::Float(*bits),
            Value::Bytes(b) => ValueModel::Bytes(b.0@),
            Value::String(s) => ValueModel::String(s@),
            Value::List(l) => ValueModel::List(models_vals(l@)),
            Value::Dictionary(d) => ValueModel::Dictionary(models_pairs(d.0@)),
            Value::Structure(s) => ValueModel::Structure(s.model()),
        }
    }

    open spec fn spec_dec(s: Seq<u8>) -> Option<(ValueModel<S::Model>, int)>
        decreases s.len(), 0int, 0int,
    {
        match spec_decode_marker(s) {
            Some((m, k)) => if 1 <= k <= s.len() {
                match Self::spec_dec_body(m, s.skip(k)) {
                    Some((v, n)) => Some((v, k + n)),
                    None => None,
                }
            } else {
                None
            },
            None => None,
        }
    }

    /// The single dispatch of the codec: every marker class is routed to
    /// its value shape, and a structure marker is handed to `S`.
    open spec fn spec_dec_body(m: Marker, s: Seq<u8>) -> Option<(ValueModel<S::Model>, int)>
        decreases s.len(), 2int, 0int,
    {
        match m {
            Marker::Null => Some((ValueModel::Null, 0)),
            Marker::True => Some((ValueModel::Boolean(true), 0)),
            Marker::False => Some((ValueModel::Boolean(false), 0)),
            Marker::Float64 => if s.len() >= 8 {
                Some((ValueModel::Float(spec_u64_of_be(s)), 8))
            } else {
                None
            },
            Marker::PlusTinyInt(_) | Marker::MinusTinyInt(_) | Marker::Int8 | Marker::Int16
                | Marker::Int32 | Marker::Int64 => match spec_decode_int_body(m, s) {
                Some((v, n)) => Some((ValueModel::Integer(v), n)),
                None => None,
            },
            Marker::TinyString(_) | Marker::String8 | Marker::String16 | Marker::String32 => match
                spec_decode_string_body(m, s) {
                Some((v, n)) => Some((ValueModel::String(v), n)),
                None => None,
            },
            Marker::Bytes8 | Marker::Bytes16 | Marker::Bytes32 => match spec_decode_bytes_body(
                m,
                s,
            ) {
                Some((v, n)) => Some((ValueModel::Bytes(v), n)),
                None => None,
            },
            Marker::TinyList(_) | Marker::List8 | Marker::List16 | Marker::List32 => match
                spec_read_list_size(m, s) {
                Some((n, k)) => if 0 <= k <= s.len() {
                    match spec_dec_vals::<S>(s.skip(k), n as int) {
                        Some((ms, u)) => Some((ValueModel::List(ms), k + u)),
                        None => None,
                    }
                } else {
                    None
                },
                None => None,
            },
            Marker::TinyDictionary(_) | Marker::Dictionary8 | Marker::Dictionary16
                | Marker::Dictionary32 => match spec_read_dict_size(m, s) {
                Some((n, k)) => if 0 <= k <= s.len() {
                    match spec_dec_dict_pairs::<S>(s.skip(k), n as int, Seq::empty()) {
                        Some((ps, u)) => Some((ValueModel::Dictionary(ps), k + u)),
                        None => None,
                    }
                } else {
                    None
                },
                None => None,
            },
            Marker::Structure(_, _) => match S::spec_dec_body(m, s) {
                Some((sm, n)) => Some((ValueModel::Structure(sm), n)),
                None => None,
            },
        }
    }

    open spec fn spec_dec_err(s: Seq<u8>) -> DecodeError
        decreases s.len(), 0int, 0int,
    {
        match spec_decode_marker(s) {
            Some((m, k)) => if 1 <= k <= s.len() {
                Self::spec_dec_body_err(m, s.skip(k))
            } else {
                DecodeError::UnexpectedEndOfStream
            },
            None => crate::ll::marker::spec_marker_error(s),
        }
    }

    /// The error the dispatch reports: each class propagates its own
    /// codec's error, and a structure marker propagates `S`'s.
    open spec fn spec_dec_body_err(m: Marker, s: Seq<u8>) -> DecodeError
        decreases s.len(), 2int, 0int,
    {
        match m {
            Marker::Null | Marker::True | Marker::False => DecodeError::UnexpectedEndOfStream,
            Marker::Float64 => DecodeError::UnexpectedEndOfStream,
            Marker::PlusTinyInt(_) | Marker::MinusTinyInt(_) | Marker::Int8 | Marker::Int16
                | Marker::Int32 | Marker::Int64 => crate::packable::spec_decode_int_body_err(
                m,
                s,
            ),
            Marker::TinyString(_) | Marker::String8 | Marker::String16 | Marker::String32
                => crate::packable::spec_decode_string_body_err(m, s),
            Marker::Bytes8 | Marker::Bytes16 | Marker::Bytes32
                => crate::packable::spec_decode_bytes_body_err(m, s),
            Marker::TinyList(_) | Marker::List8 | Marker::List16 | Marker::List32 => match
                spec_read_list_size(m, s) {
                Some((n, k)) => if 0 <= k <= s.len() {
                    spec_dec_vals_err::<S>(s.skip(k), n as int)
                } else {
                    DecodeError::UnexpectedEndOfStream
                },
                None => crate::ll::types::lengths::spec_size_error(
                    m matches Marker::List8 || m matches Marker::List16 || m matches
                        Marker::List32,
                    m matches Marker::List32,
                    m,
                    s,
                ),
            },
            Marker::TinyDictionary(_) | Marker::Dictionary8 | Marker::Dictionary16
                | Marker::Dictionary32 => match spec_read_dict_size(m, s) {
                Some((n, k)) => if 0 <= k <= s.len() {
                    spec_dec_dict_pairs_err::<S>(s.skip(k), n as int)
                } else {
                    DecodeError::UnexpectedEndOfStream
                },
                None => crate::ll::types::lengths::spec_size_error(
                    m matches Marker::Dictionary8 || m matches Marker::Dictionary16 || m matches
                        Marker::Dictionary32,
                    m matches Marker::Dictionary32,
                    m,
                    s,
                ),
            },
            Marker::Structure(_, _) => S::spec_dec_body_err(m, s),
        }
    }

    #[verifier::spinoff_prover]
    #[verifier::rlimit(100)]
    fn decode_body(marker: Marker, reader: &mut ByteReader) -> (r: Result<Self, DecodeError>)
        decreases 4 * reader.unread().len() + 3,
    {
        proof {
            use_type_invariant(&*reader);
        }
        match marker {
            Marker::Null => Ok(Value::Null),
            Marker::True => Ok(Value::Boolean(true)),
            Marker::False => Ok(Value::Boolean(false)),
            Marker::Float64 => match decode_body_f64(reader) {
                Ok(bits) => Ok(Value::Float(bits)),
                Err(e) => Err(e),
            },
            Marker::PlusTinyInt(_) | Marker::MinusTinyInt(_) | Marker::Int8 | Marker::Int16
                | Marker::Int32 | Marker::Int64 => match i64::decode_body(marker, reader) {
                Ok(v) => Ok(Value::Integer(v)),
                Err(e) => Err(e),
            },
            Marker::TinyString(_) | Marker::String8 | Marker::String16 | Marker::String32 => match
                String::decode_body(marker, reader) {
                Ok(v) => Ok(Value::String(v)),
                Err(e) => Err(e),
            },
            Marker::Bytes8 | Marker::Bytes16 | Marker::Bytes32 => match Bytes::decode_body(
                marker,
                reader,
            ) {
                Ok(v) => Ok(Value::Bytes(v)),
                Err(e) => Err(e),
            },
            Marker::TinyList(_) | Marker::List8 | Marker::List16 | Marker::List32 => {
                let len = match read_list_size(marker, reader) {
                    Ok(n) => n,
                    Err(e) => {
                        return Err(e);
                    },
                };
                proof {
                    assert(reader.unread() =~= old(reader).unread().skip(
                        reader.spec_position() - old(reader).spec_position(),
                    ));
                }
                match decode_val_elements::<S>(len, reader) {
                    Ok(v) => Ok(Value::List(v)),
                    Err(e) => Err(e),
                }
            },
            Marker::TinyDictionary(_) | Marker::Dictionary8 | Marker::Dictionary16
                | Marker::Dictionary32 => {
                let len = match read_dict_size(marker, reader) {
                    Ok(n) => n,
                    Err(e) => {
                        return Err(e);
                    },
                };
                proof {
                    assert(reader.unread() =~= old(reader).unread().skip(
                        reader.spec_position() - old(reader).spec_position(),
                    ));
                }
                match decode_dict_pairs::<S>(len, reader) {
                    Ok(d) => {
                        proof {
                            crate::value::dictionary::lemma_dictionary_pairs(&d);
                        }
                        Ok(Value::Dictionary(d))
                    },
                    Err(e) => Err(e),
                }
            },
            Marker::Structure(_, _) => match S::decode_body(marker, reader) {
                Ok(v) => Ok(Value::Structure(v)),
                Err(e) => Err(e),
            },
        }
    }

    fn decode(reader: &mut ByteReader) -> (r: Result<Self, DecodeError>)
        decreases 4 * reader.unread().len() + 1,
    {
        proof {
            use_type_invariant(&*reader);
        }
        let marker = match Marker::decode(reader) {
            Ok(m) => m,
            Err(e) => {
                return Err(e);
            },
        };
        proof {
            use_type_invariant(&*reader);
            let s = old(reader).unread();
            assert(match spec_decode_marker(s) {
                Some((m2, k2)) => 1 <= k2 <= s.len(),
                None => true,
            });
            assert(reader.unread() =~= old(reader).unread().skip(
                reader.spec_position() - old(reader).spec_position(),
            ));
        }
        let r = Self::decode_body(marker, reader);
        r
    }
}

impl<S: Unpack> Unpack for Dictionary<S> {
    type Model = Seq<(Seq<char>, ValueModel<S::Model>)>;

    open spec fn model(&self) -> Seq<(Seq<char>, ValueModel<S::Model>)> {
        models_pairs(self.pairs())
    }

    open spec fn spec_dec(s: Seq<u8>) -> Option<(Seq<(Seq<char>, ValueModel<S::Model>)>, int)> {
        match spec_decode_marker(s) {
            Some((m, k)) => if 1 <= k <= s.len() {
                match Self::spec_dec_body(m, s.skip(k)) {
                    Some((v, n)) => Some((v, k + n)),
                    None => None,
                }
            } else {
                None
            },
            None => None,
        }
    }

    open spec fn spec_dec_body(m: Marker, s: Seq<u8>) -> Option<
        (Seq<(Seq<char>, ValueModel<S::Model>)>, int),
    > {
        match spec_read_dict_size(m, s) {
            Some((n, k)) => if 0 <= k <= s.len() {
                match spec_dec_dict_pairs::<S>(s.skip(k), n as int, Seq::empty()) {
                    Some((ps, u)) => Some((ps, k + u)),
                    None => None,
                }
            } else {
                None
            },
            None => None,
        }
    }

    open spec fn spec_dec_err(s: Seq<u8>) -> DecodeError {
        match spec_decode_marker(s) {
            Some((m, k)) => if 1 <= k <= s.len() {
                Self::spec_dec_body_err(m, s.skip(k))
            } else {
                DecodeError::UnexpectedEndOfStream
            },
            None => crate::ll::marker::spec_marker_error(s),
        }
    }

    open spec fn spec_dec_body_err(m: Marker, s: Seq<u8>) -> DecodeError {
        match spec_read_dict_size(m, s) {
            Some((n, k)) => if 0 <= k <= s.len() {
                spec_dec_dict_pairs_err::<S>(s.skip(k), n as int)
            } else {
                DecodeError::UnexpectedEndOfStream
            },
            None => crate::ll::types::lengths::spec_size_error(
                m matches Marker::Dictionary8 || m matches Marker::Dictionary16 || m matches
                    Marker::Dictionary32,
                m matches Marker::Dictionary32,
                m,
                s,
            ),
        }
    }

    fn decode_body(marker: Marker, reader: &mut ByteReader) -> (r: Result<Self, DecodeError>)
    {
        proof {
            use_type_invariant(&*reader);
        }
        let len = match read_dict_size(marker, reader) {
            Ok(n) => n,
            Err(e) => {
                return Err(e);
            },
        };
        proof {
            assert(reader.unread() =~= old(reader).unread().skip(
                reader.spec_position() - old(reader).spec_position(),
            ));
        }
        let r = decode_dict_pairs::<S>(len, reader);
        r
    }

    fn decode(reader: &mut ByteReader) -> (r: Result<Self, DecodeError>)
    {
        proof {
            use_type_invariant(&*reader);
        }
        let marker = match Marker::decode(reader) {
            Ok(m) => m,
            Err(e) => {
                return Err(e);
            },
        };
        proof {
            use_type_invariant(&*reader);
            let s = old(reader).unread();
            assert(match spec_decode_marker(s) {
                Some((m2, k2)) => 1 <= k2 <= s.len(),
                None => true,
            });
            assert(reader.unread() =~= old(reader).unread().skip(
                reader.spec_position() - old(reader).spec_position(),
            ));
        }
        let r = Self::decode_body(marker, reader);
        r
    }
}


/// One successful key-value step unfolds the pair decode by exactly that
/// step, for results and for errors alike.
proof fn lemma_dict_pairs_step<S: Unpack>(
    cur: Seq<u8>,
    n: int,
    acc: Seq<(Seq<char>, ValueModel<S::Model>)>,
    km: Seq<char>,
    ku: int,
    vm: ValueModel<S::Model>,
    vu: int,
)
    requires
        n >= 1,
        spec_decode_string(cur) == Some((km, ku)),
        0 <= ku <= cur.len(),
        <Value<S> as Unpack>::spec_dec(cur.skip(ku)) == Some((vm, vu)),
        0 <= vu <= cur.skip(ku).len(),
    ensures
        spec_dec_dict_pairs::<S>(cur, n, acc) == (match spec_dec_dict_pairs::<S>(
            cur.skip(ku).skip(vu),
            n - 1,
            spec_pairs_insert(acc, km, vm),
        ) {
            Some((ps, u2)) => Some((ps, ku + vu + u2)),
            None => None::<(Seq<(Seq<char>, ValueModel<S::Model>)>, int)>,
        }),
        spec_dec_dict_pairs::<S>(cur, n, acc) is None ==> spec_dec_dict_pairs_err::<S>(cur, n)
            == spec_dec_dict_pairs_err::<S>(cur.skip(ku).skip(vu), n - 1),
{
    reveal_with_fuel(spec_dec_dict_pairs, 1);
    reveal_with_fuel(spec_dec_dict_pairs_err, 1);
}

/// A failing key read fails the whole pair decode with the key's error.
proof fn lemma_dict_pairs_fail_key<S: Unpack>(
    cur: Seq<u8>,
    n: int,
    acc: Seq<(Seq<char>, ValueModel<S::Model>)>,
)
    requires
        n >= 1,
        spec_decode_string(cur) is None,
    ensures
        spec_dec_dict_pairs::<S>(cur, n, acc) is None,
        spec_dec_dict_pairs_err::<S>(cur, n) == String::spec_dec_err(cur),
{
    reveal_with_fuel(spec_dec_dict_pairs, 1);
    reveal_with_fuel(spec_dec_dict_pairs_err, 1);
}

/// A failing value read fails the whole pair decode with the value's error.
proof fn lemma_dict_pairs_fail_value<S: Unpack>(
    cur: Seq<u8>,
    n: int,
    acc: Seq<(Seq<char>, ValueModel<S::Model>)>,
    km: Seq<char>,
    ku: int,
)
    requires
        n >= 1,
        spec_decode_string(cur) == Some((km, ku)),
        0 <= ku <= cur.len(),
        <Value<S> as Unpack>::spec_dec(cur.skip(ku)) is None,
    ensures
        spec_dec_dict_pairs::<S>(cur, n, acc) is None,
        spec_dec_dict_pairs_err::<S>(cur, n) == <Value<S> as Unpack>::spec_dec_err(cur.skip(ku)),
{
    reveal_with_fuel(spec_dec_dict_pairs, 1);
    reveal_with_fuel(spec_dec_dict_pairs_err, 1);
}

/// Reads `len` key-value pairs into a fresh dictionary, a repeated key
/// silently replacing the earlier entry.
#[verifier::spinoff_prover]
#[verifier::rlimit(100)]
fn decode_dict_pairs<S: Unpack>(len: usize, reader: &mut ByteReader) -> (r: Result<
    Dictionary<S>,
    DecodeError,
>)
    ensures
        final(reader).all_bytes() == old(reader).all_bytes(),
        final(reader).spec_position() >= old(reader).spec_position(),
        match r {
            Ok(d) => spec_dec_dict_pairs::<S>(old(reader).unread(), len as int, Seq::empty())
                == Some(
                (
                    models_pairs(d.pairs()),
                    final(reader).spec_position() - old(reader).spec_position(),
                ),
            ),
            Err(e) => {
                &&& spec_dec_dict_pairs::<S>(old(reader).unread(), len as int, Seq::empty())
                    is None
                &&& e == spec_dec_dict_pairs_err::<S>(old(reader).unread(), len as int)
            },
        },
    decreases 4 * reader.unread().len() + 2,
{
    proof {
        use_type_invariant(&*reader);
    }
    let mut result: Dictionary<S> = Dictionary::with_capacity(len);
    let mut i: usize = 0;
    while i < len
        invariant
            0 <= i <= len,
            reader.all_bytes() == old(reader).all_bytes(),
            0 <= old(reader).spec_position(),
            old(reader).spec_position() <= reader.spec_position() <= reader.all_bytes().len(),
            match spec_dec_dict_pairs::<S>(
                reader.unread(),
                (len - i) as int,
                models_pairs(result.pairs()),
            ) {
                Some((ps, u)) => spec_dec_dict_pairs::<S>(
                    old(reader).unread(),
                    len as int,
                    Seq::empty(),
                ) == Some(
                    (ps, reader.spec_position() - old(reader).spec_position() + u),
                ),
                None => spec_dec_dict_pairs::<S>(old(reader).unread(), len as int, Seq::empty())
                    is None && spec_dec_dict_pairs_err::<S>(old(reader).unread(), len as int)
                    == spec_dec_dict_pairs_err::<S>(reader.unread(), (len - i) as int),
            },
        decreases len - i,
    {
        let ghost pre = *reader;
        let ghost old_pairs = result.pairs();
        let ghost acc = models_pairs(old_pairs);
        let key = match String::decode(reader) {
            Ok(k) => k,
            Err(e) => {
                proof {
                    lemma_dict_pairs_fail_key::<S>(pre.unread(), (len - i) as int, acc);
                }
                return Err(e);
            },
        };
        proof {
            use_type_invariant(&*reader);
            assert(reader.unread() =~= pre.unread().skip(
                reader.spec_position() - pre.spec_position(),
            ));
        }
        let ghost mid = *reader;
        let ghost ku = mid.spec_position() - pre.spec_position();
        let value = match <Value<S> as Unpack>::decode(reader) {
            Ok(v) => v,
            Err(e) => {
                proof {
                    lemma_dict_pairs_fail_value::<S>(
                        pre.unread(),
                        (len - i) as int,
                        acc,
                        key@,
                        ku,
                    );
                }
                return Err(e);
            },
        };
        proof {
            use_type_invariant(&*reader);
            assert(reader.unread() =~= mid.unread().skip(
                reader.spec_position() - mid.spec_position(),
            ));
            lemma_dict_pairs_step::<S>(
                pre.unread(),
                (len - i) as int,
                acc,
                key@,
                ku,
                value.model(),
                reader.spec_position() - mid.spec_position(),
            );
        }
        let _prev = result.insert_pair(key, value);
        proof {
            lemma_models_insert(old_pairs, key, value);
        }
        i = i + 1;
    }
    proof {
        reveal_with_fuel(spec_dec_dict_pairs, 1);
    }
    Ok(result)
}


/// Reads `len` consecutive values, failing as soon as one of them does.
#[verifier::spinoff_prover]
#[verifier::rlimit(100)]
fn decode_val_elements<S: Unpack>(len: usize, reader: &mut ByteReader) -> (r: Result<
    Vec<Value<S>>,
    DecodeError,
>)
    ensures
        final(reader).all_bytes() == old(reader).all_bytes(),
        final(reader).spec_position() >= old(reader).spec_position(),
        match r {
            Ok(v) => spec_dec_vals::<S>(old(reader).unread(), len as int) == Some(
                (models_vals(v@), final(reader).spec_position() - old(reader).spec_position()),
            ),
            Err(e) => {
                &&& spec_dec_vals::<S>(old(reader).unread(), len as int) is None
                &&& e == spec_dec_vals_err::<S>(old(reader).unread(), len as int)
            },
        },
    decreases 4 * reader.unread().len() + 2,
{
    proof {
        use_type_invariant(&*reader);
    }
    let mut result: Vec<Value<S>> = Vec::with_capacity(len);
    let mut i: usize = 0;
    while i < len
        invariant
            0 <= i <= len,
            reader.all_bytes() == old(reader).all_bytes(),
            0 <= old(reader).spec_position(),
            old(reader).spec_position() <= reader.spec_position() <= reader.all_bytes().len(),
            result@.len() == i as int,
            match spec_dec_vals::<S>(reader.unread(), (len - i) as int) {
                Some((ms, u)) => spec_dec_vals::<S>(old(reader).unread(), len as int) == Some(
                    (
                        models_vals(result@) + ms,
                        reader.spec_position() - old(reader).spec_position() + u,
                    ),
                ),
                None => spec_dec_vals::<S>(old(reader).unread(), len as int) is None
                    && spec_dec_vals_err::<S>(old(reader).unread(), len as int)
                    == spec_dec_vals_err::<S>(reader.unread(), (len - i) as int),
            },
        decreases len - i,
    {
        proof {
            reveal_with_fuel(spec_dec_vals_err, 2);
        }
        let ghost pre = *reader;
        let ghost old_result = result@;
        match <Value<S> as Unpack>::decode(reader) {
            Ok(v) => {
                proof {
                    use_type_invariant(&*reader);
                    assert(reader.unread() =~= pre.unread().skip(
                        reader.spec_position() - pre.spec_position(),
                    ));
                }
                let ghost prev_models = models_vals(result@);
                result.push(v);
                proof {
                    lemma_models_vals_push(old_result, v);
                    assert forall|ms: Seq<ValueModel<S::Model>>|
                        prev_models + (seq![v.model()] + ms) =~= (prev_models + seq![v.model()])
                            + ms by {}
                }
                i = i + 1;
            },
            Err(e) => {
                return Err(e);
            },
        }
    }
    Ok(result)
}


impl<S: Clone> Clone for Value<S> {
    /// A deep copy of the value tree.
    fn clone(&self) -> Self {
        clone_value(self)
    }
}

impl<S: Clone> Clone for Dictionary<S> {
    /// A deep copy of the dictionary; keys keep their characters, so the
    /// copy's keys are unique like the original's.
    fn clone(&self) -> Self {
        clone_dictionary(self)
    }
}

/// Copies a value tree member by member.
pub(crate) fn clone_value<S: Clone>(v: &Value<S>) -> (r: Value<S>)
    decreases v,
{
    match v {
        Value::Null => Value::Null,
        Value::Boolean(b) => Value::Boolean(*b),
        Value::Integer(i) => Value::Integer(*i),
        Value::Float(bits) => Value::Float(*bits),
        Value::Bytes(b) => Value::Bytes(Bytes(clone_byte_vec(&b.0))),
        Value::String(st) => Value::String(st.clone()),
        Value::List(l) => {
            let mut out: Vec<Value<S>> = Vec::with_capacity(l.len());
            let mut i: usize = 0;
            while i < l.len()
                invariant
                    *v == Value::List(*l),
                    0 <= i <= l@.len(),
                decreases l@.len() - i,
            {
                proof {
                    assert(*l == v->List_0);
                    assert(decreases_to!(*v => v->List_0));
                    assert(decreases_to!(v->List_0 => v->List_0@[i as int]));
                    assert(l@[i as int] == v->List_0@[i as int]);
                }
                let c = clone_value(&l[i]);
                out.push(c);
                i = i + 1;
            }
            Value::List(out)
        },
        Value::Dictionary(d) => Value::Dictionary(clone_dictionary(d)),
        Value::Structure(s) => Value::Structure(s.clone()),
    }
}

/// Copies a dictionary pair by pair; key characters are preserved, so the
/// keys stay unique.
fn clone_dictionary<S: Clone>(d: &Dictionary<S>) -> (r: Dictionary<S>)
    decreases d,
{
    proof {
        use_type_invariant(d);
        crate::value::dictionary::lemma_dictionary_pairs(d);
    }
    let mut out: Vec<(String, Value<S>)> = Vec::with_capacity(d.0.len());
    let mut i: usize = 0;
    while i < d.0.len()
        invariant
            0 <= i <= d.0@.len(),
            crate::value::dictionary::spec_keys_unique(d.0@),
            out@.len() == i as int,
            forall|j: int| 0 <= j < i ==> (#[trigger] out@[j]).0@ == d.0@[j].0@,
        decreases d.0@.len() - i,
    {
        proof {
            assert(decreases_to!(*d => d.0));
            assert(decreases_to!(d.0 => d.0@[i as int]));
        }
        let key = d.0[i].0.clone();
        let val = clone_value(&d.0[i].1);
        out.push((key, val));
        i = i + 1;
    }
    proof {
        assert forall|a: int, b: int| 0 <= a < b < out@.len() implies (#[trigger] out@[a]).0@ != (
        #[trigger] out@[b]).0@ by {
            assert(out@[a].0@ == d.0@[a].0@);
            assert(out@[b].0@ == d.0@[b].0@);
            assert(d.0@[a].0@ != d.0@[b].0@);
        }
        assert(crate::value::dictionary::spec_keys_unique(out@));
    }
    Dictionary::from_vec(out)
}

/// Copies a plain byte vector.
fn clone_byte_vec(v: &Vec<u8>) -> (r: Vec<u8>)
    ensures
        r@ == v@,
{
    let mut out: Vec<u8> = Vec::with_capacity(v.len());
    let mut i: usize = 0;
    while i < v.len()
        invariant
            0 <= i <= v@.len(),
            out@ =~= v@.take(i as int),
        decreases v@.len() - i,
    {
        out.push(v[i]);
        i = i + 1;
    }
    proof {
        assert(out@ =~= v@);
    }
    out
}


/// A type whose values can be pulled out of a matching [`Value`] case,
/// consuming the value; anything else yields nothing.
pub trait Extract<T>: Sized {
    /// Which values extract, and to what.
    spec fn extract_spec(from: Value<T>) -> Option<Self>;

    /// Pulls this type out of `from`.
    fn extract(from: Value<T>) -> (r: Option<Self>)
        ensures
            r == Self::extract_spec(from),
    ;
}

/// An [`Extract`] variant for borrowed values.
pub trait ExtractRef<T>: Sized {
    /// Which values extract, and to what.
    spec fn extract_ref_spec(from: Value<T>) -> Option<Self>;

    /// Borrows this type out of `from`.
    fn extract_ref(from: &Value<T>) -> (r: Option<&Self>)
        ensures
            match r {
                Some(x) => Self::extract_ref_spec(*from) == Some(*x),
                None => Self::extract_ref_spec(*from) is None,
            },
    ;

    /// Treats a null as an absent value and anything else as a present one:
    /// a non-null value yields `Some` of its inner extraction, and fails
    /// exactly where that extraction does.
    fn extract_opt_ref(from: &Value<T>) -> (r: Option<Option<&Self>>)
        ensures
            (*from is Null) ==> r == Some(Option::<&Self>::None),
            !(*from is Null) ==> match r {
                Some(inner) => inner matches Some(x) && Self::extract_ref_spec(*from) == Some(
                    *x,
                ),
                None => Self::extract_ref_spec(*from) is None,
            },
    {
        match from {
            Value::Null => Some(None),
            v => match Self::extract_ref(v) {
                Some(x) => Some(Some(x)),
                None => None,
            },
        }
    }
}

/// An [`Extract`] variant for mutably borrowed values.
pub trait ExtractMut<T>: Sized {
    /// Which values extract.
    spec fn extract_mut_spec(from: Value<T>) -> bool;

    /// Mutably borrows this type out of `from`.
    fn extract_mut(from: &mut Value<T>) -> (r: Option<&mut Self>)
        ensures
            (r is Some) == Self::extract_mut_spec(*old(from)),
    ;
}

impl<T> Extract<T> for i64 {
    open spec fn extract_spec(from: Value<T>) -> Option<i64> {
        match from {
            Value::Integer(x) => Some(x),
            _ => None,
        }
    }

    fn extract(from: Value<T>) -> (r: Option<Self>)
    {
        match from {
            Value::Integer(x) => Some(x),
            _ => None,
        }
    }
}

impl<T> ExtractRef<T> for i64 {
    open spec fn extract_ref_spec(from: Value<T>) -> Option<i64> {
        match from {
            Value::Integer(x) => Some(x),
            _ => None,
        }
    }

    fn extract_ref(from: &Value<T>) -> (r: Option<&Self>)
    {
        match from {
            Value::Integer(x) => Some(x),
            _ => None,
        }
    }
}

impl<T> ExtractMut<T> for i64 {
    open spec fn extract_mut_spec(from: Value<T>) -> bool {
        from is Integer
    }

    fn extract_mut(from: &mut Value<T>) -> (r: Option<&mut Self>)
    {
        match from {
            Value::Integer(x) => Some(x),
            _ => None,
        }
    }
}

impl<T> Extract<T> for u64 {
    open spec fn extract_spec(from: Value<T>) -> Option<u64> {
        match from {
            Value::Float(x) => Some(x),
            _ => None,
        }
    }

    fn extract(from: Value<T>) -> (r: Option<Self>)
    {
        match from {
            Value::Float(x) => Some(x),
            _ => None,
        }
    }
}

impl<T> ExtractRef<T> for u64 {
    open spec fn extract_ref_spec(from: Value<T>) -> Option<u64> {
        match from {
            Value::Float(x) => Some(x),
            _ => None,
        }
    }

    fn extract_ref(from: &Value<T>) -> (r: Option<&Self>)
    {
        match from {
            Value::Float(x) => Some(x),
            _ => None,
        }
    }
}

impl<T> ExtractMut<T> for u64 {
    open spec fn extract_mut_spec(from: Value<T>) -> bool {
        from is Float
    }

    fn extract_mut(from: &mut Value<T>) -> (r: Option<&mut Self>)
    {
        match from {
            Value::Float(x) => Some(x),
            _ => None,
        }
    }
}

impl<T> Extract<T> for bool {
    open spec fn extract_spec(from: Value<T>) -> Option<bool> {
        match from {
            Value::Boolean(x) => Some(x),
            _ => None,
        }
    }

    fn extract(from: Value<T>) -> (r: Option<Self>)
    {
        match from {
            Value::Boolean(x) => Some(x),
            _ => None,
        }
    }
}

impl<T> ExtractRef<T> for bool {
    open spec fn extract_ref_spec(from: Value<T>) -> Option<bool> {
        match from {
            Value::Boolean(x) => Some(x),
            _ => None,
        }
    }

    fn extract_ref(from: &Value<T>) -> (r: Option<&Self>)
    {
        match from {
            Value::Boolean(x) => Some(x),
            _ => None,
        }
    }
}

impl<T> ExtractMut<T> for bool {
    open spec fn extract_mut_spec(from: Value<T>) -> bool {
        from is Boolean
    }

    fn extract_mut(from: &mut Value<T>) -> (r: Option<&mut Self>)
    {
        match from {
            Value::Boolean(x) => Some(x),
            _ => None,
        }
    }
}

impl<T> Extract<T> for Bytes {
    open spec fn extract_spec(from: Value<T>) -> Option<Bytes> {
        match from {
            Value::Bytes(x) => Some(x),
            _ => None,
        }
    }

    fn extract(from: Value<T>) -> (r: Option<Self>)
    {
        match from {
            Value::Bytes(x) => Some(x),
            _ => None,
        }
    }
}

impl<T> ExtractRef<T> for Bytes {
    open spec fn extract_ref_spec(from: Value<T>) -> Option<Bytes> {
        match from {
            Value::Bytes(x) => Some(x),
            _ => None,
        }
    }

    fn extract_ref(from: &Value<T>) -> (r: Option<&Self>)
    {
        match from {
            Value::Bytes(x) => Some(x),
            _ => None,
        }
    }
}

impl<T> ExtractMut<T> for Bytes {
    open spec fn extract_mut_spec(from: Value<T>) -> bool {
        from is Bytes
    }

    fn extract_mut(from: &mut Value<T>) -> (r: Option<&mut Self>)
    {
        match from {
            Value::Bytes(x) => Some(x),
            _ => None,
        }
    }
}

impl<T> Extract<T> for String {
    open spec fn extract_spec(from: Value<T>) -> Option<String> {
        match from {
            Value::String(x) => Some(x),
            _ => None,
        }
    }

    fn extract(from: Value<T>) -> (r: Option<Self>)
    {
        match from {
            Value::String(x) => Some(x),
            _ => None,
        }
    }
}

impl<T> ExtractRef<T> for String {
    open spec fn extract_ref_spec(from: Value<T>) -> Option<String> {
        match from {
            Value::String(x) => Some(x),
            _ => None,
        }
    }

    fn extract_ref(from: &Value<T>) -> (r: Option<&Self>)
    {
        match from {
            Value::String(x) => Some(x),
            _ => None,
        }
    }
}

impl<T> ExtractMut<T> for String {
    open spec fn extract_mut_spec(from: Value<T>) -> bool {
        from is String
    }

    fn extract_mut(from: &mut Value<T>) -> (r: Option<&mut Self>)
    {
        match from {
            Value::String(x) => Some(x),
            _ => None,
        }
    }
}

impl<T> Extract<T> for Vec<Value<T>> {
    open spec fn extract_spec(from: Value<T>) -> Option<Vec<Value<T>>> {
        match from {
            Value::List(x) => Some(x),
            _ => None,
        }
    }

    fn extract(from: Value<T>) -> (r: Option<Self>)
    {
        match from {
            Value::List(x) => Some(x),
            _ => None,
        }
    }
}

impl<T> ExtractRef<T> for Vec<Value<T>> {
    open spec fn extract_ref_spec(from: Value<T>) -> Option<Vec<Value<T>>> {
        match from {
            Value::List(x) => Some(x),
            _ => None,
        }
    }

    fn extract_ref(from: &Value<T>) -> (r: Option<&Self>)
    {
        match from {
            Value::List(x) => Some(x),
            _ => None,
        }
    }
}

impl<T> ExtractMut<T> for Vec<Value<T>> {
    open spec fn extract_mut_spec(from: Value<T>) -> bool {
        from is List
    }

    fn extract_mut(from: &mut Value<T>) -> (r: Option<&mut Self>)
    {
        match from {
            Value::List(x) => Some(x),
            _ => None,
        }
    }
}

impl<T> Extract<T> for Dictionary<T> {
    open spec fn extract_spec(from: Value<T>) -> Option<Dictionary<T>> {
        match from {
            Value::Dictionary(x) => Some(x),
            _ => None,
        }
    }

    fn extract(from: Value<T>) -> (r: Option<Self>)
    {
        match from {
            Value::Dictionary(x) => Some(x),
            _ => None,
        }
    }
}

impl<T> ExtractRef<T> for Dictionary<T> {
    open spec fn extract_ref_spec(from: Value<T>) -> Option<Dictionary<T>> {
        match from {
            Value::Dictionary(x) => Some(x),
            _ => None,
        }
    }

    fn extract_ref(from: &Value<T>) -> (r: Option<&Self>)
    {
        match from {
            Value::Dictionary(x) => Some(x),
            _ => None,
        }
    }
}

impl<T> ExtractMut<T> for Dictionary<T> {
    open spec fn extract_mut_spec(from: Value<T>) -> bool {
        from is Dictionary
    }

    fn extract_mut(from: &mut Value<T>) -> (r: Option<&mut Self>)
    {
        match from {
            Value::Dictionary(x) => Some(x),
            _ => None,
        }
    }
}

impl<T, E: Extract<T>> Extract<T> for Option<E> {
    open spec fn extract_spec(from: Value<T>) -> Option<Option<E>> {
        match from {
            Value::Null => Some(None),
            v => match E::extract_spec(v) {
                Some(x) => Some(Some(x)),
                None => None,
            },
        }
    }

    fn extract(from: Value<T>) -> (r: Option<Self>)
    {
        match from {
            Value::Null => Some(None),
            v => match E::extract(v) {
                Some(x) => Some(Some(x)),
                None => None,
            },
        }
    }
}

/// Extracts every member of a list value into a typed vector of borrows;
/// nothing where the value is no list or any single member does not
/// extract.
pub fn extract_list_ref<S, T: ExtractRef<S>>(value: &Value<S>) -> (r: Option<Vec<&T>>)
    ensures
        match r {
            Some(v) => value matches Value::List(l) && v@.len() == l@.len() && (forall|i: int|
                0 <= i < l@.len() ==> T::extract_ref_spec(#[trigger] l@[i]) == Some(*v@[i])),
            None => value matches Value::List(l) ==> !(forall|i: int|
                0 <= i < l@.len() ==> (#[trigger] T::extract_ref_spec(l@[i])) is Some),
        },
{
    match value {
        Value::List(vs) => {
            let mut out: Vec<&T> = Vec::new();
            let mut i: usize = 0;
            while i < vs.len()
                invariant
                    vs@ == value->List_0@,
                    0 <= i <= vs@.len(),
                    out@.len() == i as int,
                    forall|j: int|
                        0 <= j < i ==> T::extract_ref_spec(#[trigger] vs@[j]) == Some(*out@[j]),
                decreases vs@.len() - i,
            {
                match T::extract_ref(&vs[i]) {
                    Some(x) => {
                        out.push(x);
                        i = i + 1;
                    },
                    None => {
                        proof {
                            assert(vs@ == value->List_0@);
                            assert(!(forall|j: int|
                                0 <= j < value->List_0@.len() ==> (#[trigger] T::extract_ref_spec(
                                    value->List_0@[j],
                                )) is Some));
                        }
                        return None;
                    },
                }
            }
            Some(out)
        },
        _ => None,
    }
}

/// A variant of [`extract_list_ref`] that consumes the value.
pub fn extract_list<S, T: Extract<S>>(value: Value<S>) -> (r: Option<Vec<T>>)
    ensures
        match r {
            Some(v) => value matches Value::List(l) && v@.len() == l@.len() && (forall|i: int|
                0 <= i < l@.len() ==> T::extract_spec(#[trigger] l@[i]) == Some(v@[i])),
            None => value matches Value::List(l) ==> !(forall|i: int|
                0 <= i < l@.len() ==> (#[trigger] T::extract_spec(l@[i])) is Some),
        },
{
    match value {
        Value::List(vs) => {
            let ghost all = vs@;
            proof {
                assert(all == value->List_0@);
            }
            let mut vs = vs;
            let n_total = vs.len();
            let mut out: Vec<T> = Vec::new();
            let mut i: usize = 0;
            while vs.len() > 0
                invariant
                    all == value->List_0@,
                    0 <= i,
                    i + vs@.len() == n_total as int,
                    all.len() == n_total as int,
                    vs@ =~= all.skip(i as int),
                    out@.len() == i as int,
                    forall|j: int|
                        0 <= j < i ==> T::extract_spec(#[trigger] all[j]) == Some(out@[j]),
                decreases vs@.len(),
            {
                let x = vs.remove(0);
                proof {
                    assert(x == all[i as int]);
                    assert(vs@ =~= all.skip(i + 1));
                }
                match T::extract(x) {
                    Some(t) => {
                        out.push(t);
                        i = i + 1;
                    },
                    None => {
                        proof {
                            assert(T::extract_spec(all[i as int]) is None);
                            assert(all == value->List_0@);
                            assert(!(forall|j: int|
                                0 <= j < value->List_0@.len() ==> (#[trigger] T::extract_spec(
                                    value->List_0@[j],
                                )) is Some));
                        }
                        return None;
                    },
                }
            }
            Some(out)
        },
        _ => None,
    }
}


impl<S> From<i64> for Value<S> {
    /// Wraps an integer.
    fn from(i: i64) -> (r: Self) {
        Value::Integer(i)
    }
}

impl<S> vstd::std_specs::convert::FromSpecImpl<i64> for Value<S> {
    open spec fn obeys_from_spec() -> bool {
        true
    }

    open spec fn from_spec(v: i64) -> Self {
        Value::Integer(v)
    }
}

impl<S> From<bool> for Value<S> {
    /// Wraps a boolean.
    fn from(b: bool) -> (r: Self) {
        Value::Boolean(b)
    }
}

impl<S> vstd::std_specs::convert::FromSpecImpl<bool> for Value<S> {
    open spec fn obeys_from_spec() -> bool {
        true
    }

    open spec fn from_spec(v: bool) -> Self {
        Value::Boolean(v)
    }
}

impl<S> From<String> for Value<S> {
    /// Wraps an owned string.
    fn from(s: String) -> (r: Self) {
        Value::String(s)
    }
}

impl<S> vstd::std_specs::convert::FromSpecImpl<String> for Value<S> {
    open spec fn obeys_from_spec() -> bool {
        true
    }

    open spec fn from_spec(v: String) -> Self {
        Value::String(v)
    }
}

impl<'a, S> From<&'a str> for Value<S> {
    /// Copies a borrowed string into a string value.
    fn from(s: &'a str) -> (r: Self)
        ensures
            r matches Value::String(o) && o@ == s@,
    {
        Value::String(s.to_owned())
    }
}

impl<'a, S> vstd::std_specs::convert::FromSpecImpl<&'a str> for Value<S> {
    open spec fn obeys_from_spec() -> bool {
        false
    }

    open spec fn from_spec(v: &'a str) -> Self {
        Value::Null
    }
}

impl<S> From<Vec<Value<S>>> for Value<S> {
    /// Wraps a vector of values as a list value.
    fn from(s: Vec<Value<S>>) -> (r: Self) {
        Value::List(s)
    }
}

impl<S> vstd::std_specs::convert::FromSpecImpl<Vec<Value<S>>> for Value<S> {
    open spec fn obeys_from_spec() -> bool {
        true
    }

    open spec fn from_spec(v: Vec<Value<S>>) -> Self {
        Value::List(v)
    }
}

} // verus!
