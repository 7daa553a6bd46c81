//! A `Dictionary` is a map of `String` keys to [`Value`](crate::value::Value)
//! pairs, the properties of a record. Pairs keep their insertion order;
//! setting a key that is already present replaces its value in place. Two
//! keys are the same exactly when they hold the same characters.

use vstd::prelude::*;
use vstd::utf8::{encode_utf8, encode_utf8_decode_utf8};
use crate::value::{Extract, ExtractRef, Value};

verus! {

/// A string-keyed collection of values with unique keys.
#[derive(Debug, PartialEq)]
pub struct Dictionary<T>(pub(crate) Vec<(String, Value<T>)>);

/// Sets `key` to `value` in a pair sequence: replaces the value at the
/// first pair whose key holds the same characters, else appends.
pub open spec fn spec_insert_pair<T>(
    ps: Seq<(String, Value<T>)>,
    key: String,
    value: Value<T>,
) -> Seq<(String, Value<T>)>
    decreases ps,
{
    if ps.len() == 0 {
        seq![(key, value)]
    } else if ps[0].0@ == key@ {
        seq![(key, value)] + ps.skip(1)
    } else {
        seq![ps[0]] + spec_insert_pair(ps.skip(1), key, value)
    }
}

/// No two pairs hold the same key characters.
pub open spec fn spec_keys_unique<T>(ps: Seq<(String, Value<T>)>) -> bool {
    forall|i: int, j: int|
        0 <= i < j < ps.len() ==> (#[trigger] ps[i]).0@ != (#[trigger] ps[j]).0@
}

/// Compares two strings by their characters.
fn str_eq(a: &str, b: &str) -> (r: bool)
    ensures
        r == (a@ == b@),
{
    proof {
        encode_utf8_decode_utf8(a@);
        encode_utf8_decode_utf8(b@);
    }
    let ab = a.as_bytes();
    let bb = b.as_bytes();
    if ab.len() != bb.len() {
        proof {
            assert(encode_utf8(a@) != encode_utf8(b@));
        }
        return false;
    }
    let n = ab.len();
    let mut i: usize = 0;
    while i < n
        invariant
            0 <= i <= n,
            n == ab@.len() == bb@.len(),
            ab@ == encode_utf8(a@),
            bb@ == encode_utf8(b@),
            forall|j: int| 0 <= j < i ==> ab@[j] == bb@[j],
        decreases n - i,
    {
        if ab[i] != bb[i] {
            proof {
                assert(encode_utf8(a@) != encode_utf8(b@));
            }
            return false;
        }
        i = i + 1;
    }
    proof {
        assert(ab@ =~= bb@);
    }
    true
}

/// A dictionary's pair view is exactly its inner vector's contents.
pub(crate) proof fn lemma_dictionary_pairs<T>(d: &Dictionary<T>)
    ensures
        d.pairs() == d.0@,
{
}

impl<T> Dictionary<T> {
    /// The pairs this dictionary holds, in insertion order.
    pub closed spec fn pairs(&self) -> Seq<(String, Value<T>)> {
        self.0@
    }

    /// Every reachable dictionary holds each key at most once.
    #[verifier::type_invariant]
    pub open spec fn wf(&self) -> bool {
        spec_keys_unique(self.pairs())
    }

    /// An empty dictionary with room reserved for `capacity` pairs.
    pub fn with_capacity(capacity: usize) -> (r: Self)
        ensures
            r.pairs() == Seq::<(String, Value<T>)>::empty(),
    {
        Dictionary(Vec::with_capacity(capacity))
    }

    /// Wraps a pair vector whose keys are already unique.
    pub(crate) fn from_vec(v: Vec<(String, Value<T>)>) -> (r: Self)
        requires
            spec_keys_unique(v@),
        ensures
            r.pairs() == v@,
    {
        Dictionary(v)
    }

    /// An empty dictionary.
    pub fn new() -> (r: Self)
        ensures
            r.pairs() == Seq::<(String, Value<T>)>::empty(),
    {
        Dictionary(Vec::new())
    }

    /// The pairs as a plain vector, in insertion order.
    pub fn inner(&self) -> (r: &Vec<(String, Value<T>)>)
        ensures
            r@ == self.pairs(),
    {
        &self.0
    }

    /// The number of properties.
    pub fn len(&self) -> (r: usize)
        ensures
            r == self.pairs().len(),
    {
        self.0.len()
    }


    /// Wraps a ready pair vector; its keys must already be unique.
    pub fn from_inner(inner: Vec<(String, Value<T>)>) -> (r: Self)
        requires
            spec_keys_unique(inner@),
        ensures
            r.pairs() == inner@,
    {
        Dictionary(inner)
    }

    /// Gives the pair vector up, in insertion order.
    pub fn into_inner(self) -> (r: Vec<(String, Value<T>)>)
        ensures
            r@ == self.pairs(),
    {
        self.0
    }

    /// The properties as plain pairs, in insertion order.
    pub fn properties(&self) -> (r: &Vec<(String, Value<T>)>)
        ensures
            r@ == self.pairs(),
    {
        &self.0
    }

    /// Is a property with this key present?
    pub fn has_property(&self, key: &str) -> (r: bool)
        ensures
            r == spec_has_key(self.pairs(), key@),
    {
        let n = self.0.len();
        let mut i: usize = 0;
        while i < n
            invariant
                0 <= i <= n,
                n == self.pairs().len(),
                forall|j: int| 0 <= j < i ==> (#[trigger] self.pairs()[j]).0@ != key@,
            decreases n - i,
        {
            if str_eq(self.0[i].0.as_str(), key) {
                return true;
            }
            i = i + 1;
        }
        false
    }

    /// Adds a key-value pair; a key already present has its value replaced
    /// in place. Returns the value that was replaced, if any. The pair
    /// stored is the converted argument, for every conversion whose
    /// behaviour is specified; [`Dictionary::insert_pair`] is the same
    /// operation with the inserted pair given directly.
    pub fn add_property<V: Into<Value<T>>>(&mut self, key: &str, value: V) -> (r: Option<
        Value<T>,
    >)
        ensures
            exists|k: String, v: Value<T>|
                k@ == key@ && call_ensures(<V as Into<Value<T>>>::into, (value,), v)
                    && final(self).pairs() == #[trigger] spec_insert_pair(
                    old(self).pairs(),
                    k,
                    v,
                ),
            r == spec_get(old(self).pairs(), key@),
    {
        let k = key.to_owned();
        let converted = value.into();
        let r = self.insert_pair(k, converted);
        r
    }

    /// Removes the property with this key and returns its value, if any.
    pub fn extract_property(&mut self, key: &str) -> (r: Option<Value<T>>)
        ensures
            final(self).pairs() == spec_remove_key(old(self).pairs(), key@),
            r == spec_get(old(self).pairs(), key@),
    {
        proof {
            use_type_invariant(&*self);
        }
        let n = self.0.len();
        let mut i: usize = 0;
        while i < n
            invariant
                0 <= i <= n,
                n == self.pairs().len(),
                spec_keys_unique(self.pairs()),
                forall|j: int| 0 <= j < i ==> (#[trigger] self.pairs()[j]).0@ != key@,
                self.pairs() == old(self).pairs(),
            decreases n - i,
        {
            if str_eq(self.0[i].0.as_str(), key) {
                let mut tmp: Vec<(String, Value<T>)> = Vec::new();
                core::mem::swap(&mut self.0, &mut tmp);
                let pair = tmp.remove(i);
                core::mem::swap(&mut self.0, &mut tmp);
                proof {
                    lemma_remove_get_at(old(self).pairs(), key@, i as int);
                    assert(self.pairs() =~= old(self).pairs().take(i as int) + old(
                        self,
                    ).pairs().skip(i + 1));
                    assert forall|a: int, b: int|
                        0 <= a < b < self.pairs().len() implies (#[trigger] self.pairs()[a]).0@
                        != (#[trigger] self.pairs()[b]).0@ by {
                        let ps = old(self).pairs();
                        let a0: int = if a < i { a } else { a + 1 };
                        let b0: int = if b < i { b } else { b + 1 };
                        assert(self.pairs()[a] == ps[a0]);
                        assert(self.pairs()[b] == ps[b0]);
                        assert(ps[a0].0@ != ps[b0].0@);
                    }
                }
                return Some(pair.1);
            }
            i = i + 1;
        }
        proof {
            lemma_remove_get_none(old(self).pairs(), key@);
        }
        None
    }

    /// Removes the property with this key and extracts it into the wanted
    /// type; an extraction that cannot succeed is left out by the
    /// precondition.
    pub fn extract_property_typed<V: Extract<T>>(&mut self, key: &str) -> (r: Option<V>)
        requires
            spec_get(old(self).pairs(), key@) matches Some(v) ==> V::extract_spec(v) is Some,
        ensures
            final(self).pairs() == spec_remove_key(old(self).pairs(), key@),
            match spec_get(old(self).pairs(), key@) {
                Some(v) => r == V::extract_spec(v),
                None => r is None,
            },
    {
        match self.extract_property(key) {
            Some(v) => V::extract(v),
            None => None,
        }
    }

    /// Borrows the value of the property with this key, if any.
    pub fn get_property(&self, key: &str) -> (r: Option<&Value<T>>)
        ensures
            match r {
                Some(v) => spec_get(self.pairs(), key@) == Some(*v),
                None => spec_get(self.pairs(), key@) is None,
            },
    {
        let n = self.0.len();
        let mut i: usize = 0;
        while i < n
            invariant
                0 <= i <= n,
                n == self.pairs().len(),
                forall|j: int| 0 <= j < i ==> (#[trigger] self.pairs()[j]).0@ != key@,
            decreases n - i,
        {
            if str_eq(self.0[i].0.as_str(), key) {
                proof {
                    lemma_get_at(self.pairs(), key@, i as int);
                }
                return Some(&self.0[i].1);
            }
            i = i + 1;
        }
        proof {
            lemma_get_none(self.pairs(), key@);
        }
        None
    }

    /// Borrows the value of the property with this key in a strongly typed
    /// manner; an extraction that cannot succeed is left out by the
    /// precondition.
    pub fn get_property_typed<V: ExtractRef<T>>(&self, key: &str) -> (r: Option<&V>)
        requires
            spec_get(self.pairs(), key@) matches Some(v) ==> V::extract_ref_spec(v) is Some,
        ensures
            match spec_get(self.pairs(), key@) {
                Some(v) => match r {
                    Some(x) => V::extract_ref_spec(v) == Some(*x),
                    None => false,
                },
                None => r is None,
            },
    {
        match self.get_property(key) {
            Some(v) => match V::extract_ref(v) {
                Some(x) => Some(x),
                None => None,
            },
            None => None,
        }
    }

    /// Sets `key` to `value`: replaces the value at the first pair already
    /// holding `key`'s characters, else appends a new pair. Returns the
    /// value that was replaced, if any.
    pub fn insert_pair(&mut self, key: String, value: Value<T>) -> (r: Option<Value<T>>)
        ensures
            final(self).pairs() == spec_insert_pair(old(self).pairs(), key, value),
            r == spec_get(old(self).pairs(), key@),
    {
        proof {
            use_type_invariant(&*self);
        }
        let n = self.0.len();
        let mut i: usize = 0;
        while i < n
            invariant
                0 <= i <= n,
                n == self.pairs().len(),
                spec_keys_unique(self.pairs()),
                forall|j: int| 0 <= j < i ==> (#[trigger] self.pairs()[j]).0@ != key@,
                self.pairs() == old(self).pairs(),
            decreases n - i,
        {
            if str_eq(self.0[i].0.as_str(), key.as_str()) {
                let mut tmp: Vec<(String, Value<T>)> = Vec::new();
                core::mem::swap(&mut self.0, &mut tmp);
                let prev = tmp.remove(i);
                tmp.insert(i, (key, value));
                core::mem::swap(&mut self.0, &mut tmp);
                proof {
                    lemma_insert_at_found(old(self).pairs(), key, value, i as int);
                    assert(self.pairs() =~= old(self).pairs().take(i as int).push(
                        (key, value),
                    ) + old(self).pairs().skip(i + 1));
                    lemma_unique_after_insert_found(old(self).pairs(), key, value, i as int);
                    lemma_get_at(old(self).pairs(), key@, i as int);
                }
                return Some(prev.1);
            }
            i = i + 1;
        }
        let mut tmp: Vec<(String, Value<T>)> = Vec::new();
        core::mem::swap(&mut self.0, &mut tmp);
        tmp.push((key, value));
        core::mem::swap(&mut self.0, &mut tmp);
        proof {
            lemma_get_none(old(self).pairs(), key@);
            lemma_insert_at_end(old(self).pairs(), key, value);
            assert(self.pairs() =~= old(self).pairs().push((key, value)));
            assert forall|a: int, b: int| 0 <= a < b < self.pairs().len() implies (
            #[trigger] self.pairs()[a]).0@ != (#[trigger] self.pairs()[b]).0@ by {
                if b < old(self).pairs().len() {
                    assert(old(self).pairs()[a].0@ != old(self).pairs()[b].0@);
                } else {
                    assert(old(self).pairs()[a].0@ != key@);
                }
            }
        }
        None
    }
}


/// Is a pair with this key present?
pub open spec fn spec_has_key<T>(ps: Seq<(String, Value<T>)>, key: Seq<char>) -> bool {
    exists|i: int| 0 <= i < ps.len() && (#[trigger] ps[i]).0@ == key
}

/// The value at the first pair holding this key, if any.
pub open spec fn spec_get<T>(ps: Seq<(String, Value<T>)>, key: Seq<char>) -> Option<Value<T>>
    decreases ps,
{
    if ps.len() == 0 {
        None
    } else if ps[0].0@ == key {
        Some(ps[0].1)
    } else {
        spec_get(ps.skip(1), key)
    }
}

/// The pairs without the first pair holding this key.
pub open spec fn spec_remove_key<T>(ps: Seq<(String, Value<T>)>, key: Seq<char>) -> Seq<
    (String, Value<T>),
>
    decreases ps,
{
    if ps.len() == 0 {
        ps
    } else if ps[0].0@ == key {
        ps.skip(1)
    } else {
        seq![ps[0]] + spec_remove_key(ps.skip(1), key)
    }
}

/// Where the first `i` keys differ and key `i` matches, the lookup finds
/// pair `i`.
proof fn lemma_get_at<T>(ps: Seq<(String, Value<T>)>, key: Seq<char>, i: int)
    requires
        0 <= i < ps.len(),
        ps[i].0@ == key,
        forall|j: int| 0 <= j < i ==> (#[trigger] ps[j]).0@ != key,
    ensures
        spec_get(ps, key) == Some(ps[i].1),
    decreases i,
{
    if i == 0 {
    } else {
        assert(ps.skip(1)[i - 1] == ps[i]);
        assert(forall|j: int| 0 <= j < i - 1 ==> (#[trigger] ps.skip(1)[j]).0@ != key);
        lemma_get_at(ps.skip(1), key, i - 1);
    }
}

/// Where no key matches, the lookup finds nothing.
proof fn lemma_get_none<T>(ps: Seq<(String, Value<T>)>, key: Seq<char>)
    requires
        forall|j: int| 0 <= j < ps.len() ==> (#[trigger] ps[j]).0@ != key,
    ensures
        spec_get(ps, key) is None,
    decreases ps,
{
    if ps.len() == 0 {
    } else {
        assert(forall|j: int|
            0 <= j < ps.skip(1).len() ==> (#[trigger] ps.skip(1)[j]).0@ != key);
        lemma_get_none(ps.skip(1), key);
    }
}

/// Where the first match stands at `i`, removal drops exactly that pair
/// and the lookup finds exactly its value.
proof fn lemma_remove_get_at<T>(ps: Seq<(String, Value<T>)>, key: Seq<char>, i: int)
    requires
        0 <= i < ps.len(),
        ps[i].0@ == key,
        forall|j: int| 0 <= j < i ==> (#[trigger] ps[j]).0@ != key,
    ensures
        spec_remove_key(ps, key) == ps.take(i) + ps.skip(i + 1),
        spec_get(ps, key) == Some(ps[i].1),
    decreases i,
{
    lemma_get_at(ps, key, i);
    if i == 0 {
        assert(spec_remove_key(ps, key) =~= ps.take(0) + ps.skip(1));
    } else {
        assert(ps.skip(1)[i - 1] == ps[i]);
        assert(forall|j: int| 0 <= j < i - 1 ==> (#[trigger] ps.skip(1)[j]).0@ != key);
        lemma_remove_get_at(ps.skip(1), key, i - 1);
        assert(ps.skip(1).take(i - 1) =~= ps.take(i).skip(1));
        assert(ps.skip(1).skip(i) =~= ps.skip(i + 1));
        assert(spec_remove_key(ps, key) =~= ps.take(i) + ps.skip(i + 1));
    }
}

/// Where no key matches, removal changes nothing and the lookup finds
/// nothing.
proof fn lemma_remove_get_none<T>(ps: Seq<(String, Value<T>)>, key: Seq<char>)
    requires
        forall|j: int| 0 <= j < ps.len() ==> (#[trigger] ps[j]).0@ != key,
    ensures
        spec_remove_key(ps, key) == ps,
        spec_get(ps, key) is None,
    decreases ps,
{
    lemma_get_none(ps, key);
    if ps.len() == 0 {
    } else {
        assert(forall|j: int|
            0 <= j < ps.skip(1).len() ==> (#[trigger] ps.skip(1)[j]).0@ != key);
        lemma_remove_get_none(ps.skip(1), key);
        assert(spec_remove_key(ps, key) =~= ps);
    }
}

/// Where no key matches, the insert is a plain append.
proof fn lemma_insert_at_end<T>(ps: Seq<(String, Value<T>)>, key: String, value: Value<T>)
    requires
        forall|j: int| 0 <= j < ps.len() ==> (#[trigger] ps[j]).0@ != key@,
    ensures
        spec_insert_pair(ps, key, value) == ps.push((key, value)),
    decreases ps,
{
    if ps.len() == 0 {
        assert(spec_insert_pair(ps, key, value) =~= ps.push((key, value)));
    } else {
        assert(forall|j: int|
            0 <= j < ps.skip(1).len() ==> (#[trigger] ps.skip(1)[j]).0@ != key@);
        lemma_insert_at_end(ps.skip(1), key, value);
        assert(spec_insert_pair(ps, key, value) =~= ps.push((key, value)));
    }
}

/// Where the first matching key stands at `i`, the insert replaces exactly
/// that pair.
proof fn lemma_insert_at_found<T>(
    ps: Seq<(String, Value<T>)>,
    key: String,
    value: Value<T>,
    i: int,
)
    requires
        0 <= i < ps.len(),
        ps[i].0@ == key@,
        forall|j: int| 0 <= j < i ==> (#[trigger] ps[j]).0@ != key@,
    ensures
        spec_insert_pair(ps, key, value) == ps.take(i).push((key, value)) + ps.skip(i + 1),
    decreases i,
{
    if i == 0 {
        assert(spec_insert_pair(ps, key, value) =~= ps.take(0).push((key, value)) + ps.skip(1));
    } else {
        assert(ps.skip(1)[i - 1].0@ == key@);
        assert(forall|j: int|
            0 <= j < i - 1 ==> (#[trigger] ps.skip(1)[j]).0@ != key@);
        lemma_insert_at_found(ps.skip(1), key, value, i - 1);
        assert(ps.skip(1).take(i - 1) =~= ps.take(i).skip(1));
        assert(ps.skip(1).skip(i) =~= ps.skip(i + 1));
        assert(spec_insert_pair(ps, key, value) =~= ps.take(i).push((key, value)) + ps.skip(
            i + 1,
        ));
    }
}

/// Replacing a pair keeps the keys unique.
proof fn lemma_unique_after_insert_found<T>(
    ps: Seq<(String, Value<T>)>,
    key: String,
    value: Value<T>,
    i: int,
)
    requires
        spec_keys_unique(ps),
        0 <= i < ps.len(),
        ps[i].0@ == key@,
    ensures
        spec_keys_unique(ps.take(i).push((key, value)) + ps.skip(i + 1)),
{
    let r = ps.take(i).push((key, value)) + ps.skip(i + 1);
    assert forall|a: int, b: int| 0 <= a < b < r.len() implies (#[trigger] r[a]).0@
        != (#[trigger] r[b]).0@ by {
        assert(r.len() == ps.len());
        assert(forall|k: int| 0 <= k < ps.len() ==> r[k] == (if k == i {
            (key, value)
        } else {
            ps[k]
        }));
        assert(ps[a].0@ != ps[b].0@);
    }
}

} // verus!
