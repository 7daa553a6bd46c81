//! Bookkeeping for the tag bytes of a structure sum while it is being
//! assembled: within one sum every tag must be unique, and a duplicate is
//! a definition-time fault, not a run-time condition.

use vstd::prelude::*;

verus! {

/// A thin wrapper around a byte vector that keeps track of the tags given
/// to the variants of a structure sum, in the order they were added.
pub struct Tags {
    tags: Vec<u8>,
}

impl Tags {
    /// The collected tags, oldest first.
    pub closed spec fn spec_tags(&self) -> Seq<u8> {
        self.tags@
    }

    /// A tag collection always holds at least its initial placeholder tag.
    #[verifier::type_invariant]
    pub open spec fn wf(&self) -> bool {
        self.spec_tags().len() >= 1
    }

    /// Adds a tag. A tag that is already present would make the sum's
    /// dispatch ambiguous, so it is left out by the precondition.
    pub fn add_tag(&mut self, tag: u8)
        requires
            !old(self).spec_tags().contains(tag),
        ensures
            final(self).spec_tags() == old(self).spec_tags().push(tag),
    {
        proof {
            use_type_invariant(&*self);
        }
        let mut tmp: Vec<u8> = Vec::new();
        tmp.push(0x00);
        core::mem::swap(&mut self.tags, &mut tmp);
        tmp.push(tag);
        core::mem::swap(&mut self.tags, &mut tmp);
    }

    /// A collection with room for `cap` tags, holding the placeholder tag
    /// `0x00`.
    pub fn with_capacity(cap: usize) -> (r: Self)
        ensures
            r.spec_tags() == seq![0x00u8],
    {
        let mut tags = Vec::with_capacity(cap);
        tags.push(0x00);
        proof {
            assert(tags@ =~= seq![0x00u8]);
        }
        Tags { tags }
    }

    /// The tag added last.
    pub fn last_tag(&self) -> (r: u8)
        ensures
            r == self.spec_tags().last(),
    {
        proof {
            use_type_invariant(self);
        }
        self.tags[self.tags.len() - 1]
    }
}

} // verus!
