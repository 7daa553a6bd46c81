//! The shared body phase of the sized collection types: writing every
//! element of a collection in order, each in its own canonical form.

use vstd::prelude::*;
use crate::error::EncodeError;
use crate::packable::Pack;

verus! {

/// The concatenated canonical bytes of a sequence of values, in order.
pub open spec fn spec_enc_elems<P: Pack>(l: Seq<P>) -> Seq<u8>
    decreases l,
{
    if l.len() == 0 {
        Seq::empty()
    } else {
        l[0].spec_enc() + spec_enc_elems(l.skip(1))
    }
}

/// Every element meets its encoding precondition.
pub open spec fn spec_elems_req<P: Pack>(l: Seq<P>) -> bool {
    forall|i: int| 0 <= i < l.len() ==> #[trigger] l[i].enc_req()
}

/// Every element encodes successfully.
pub open spec fn spec_elems_ok<P: Pack>(l: Seq<P>) -> bool {
    forall|i: int| 0 <= i < l.len() ==> #[trigger] l[i].enc_ok()
}

/// Appending one value to a sequence appends its bytes to the sequence's
/// bytes.
pub proof fn lemma_spec_enc_elems_push<P: Pack>(l: Seq<P>, x: P)
    ensures
        spec_enc_elems(l.push(x)) == spec_enc_elems(l) + x.spec_enc(),
    decreases l,
{
    if l.len() == 0 {
        assert(l.push(x).skip(1) =~= Seq::<P>::empty());
        assert(spec_enc_elems(l.push(x).skip(1)) == Seq::<u8>::empty());
        assert(l.push(x)[0] == x);
        assert(spec_enc_elems(l.push(x)) == x.spec_enc() + Seq::<u8>::empty());
        assert(spec_enc_elems(l) == Seq::<u8>::empty());
        assert(spec_enc_elems(l.push(x)) =~= spec_enc_elems(l) + x.spec_enc());
    } else {
        lemma_spec_enc_elems_push(l.skip(1), x);
        assert(l.push(x).skip(1) =~= l.skip(1).push(x));
        assert(spec_enc_elems(l.push(x)) =~= spec_enc_elems(l) + x.spec_enc());
    }
}

/// Writes the body of a collection: each element's canonical bytes, first
/// to last. Stops at the first element whose encoding fails.
pub fn write_body_by_iter<P: Pack>(collection: &Vec<P>, writer: &mut Vec<u8>) -> (r: Result<
    usize,
    EncodeError,
>)
    requires
        spec_elems_req(collection@),
    ensures
        old(writer)@.is_prefix_of(final(writer)@),
        (r is Ok) == spec_elems_ok(collection@),
        r matches Ok(n) ==> final(writer)@ == old(writer)@ + spec_enc_elems(collection@) && n
            == spec_enc_elems(collection@).len(),
{
    let start = writer.len();
    let mut i: usize = 0;
    while i < collection.len()
        invariant
            0 <= i <= collection@.len(),
            spec_elems_req(collection@),
            start == old(writer)@.len(),
            writer@ == old(writer)@ + spec_enc_elems(collection@.take(i as int)),
            spec_elems_ok(collection@.take(i as int)),
        decreases collection@.len() - i,
    {
        match collection[i].encode(writer) {
            Ok(_) => {
                proof {
                    lemma_spec_enc_elems_push(collection@.take(i as int), collection@[i as int]);
                    assert(collection@.take(i + 1 as int) =~= collection@.take(i as int).push(
                        collection@[i as int],
                    ));
                    assert(spec_elems_ok(collection@.take(i + 1 as int)));
                }
                i = i + 1;
            },
            Err(e) => {
                proof {
                    assert(!collection@[i as int].enc_ok());
                }
                return Err(e);
            },
        }
    }
    proof {
        assert(collection@.take(collection@.len() as int) =~= collection@);
    }
    let end = writer.len();
    Ok(end - start)
}

} // verus!
