//! A positioned view over a byte buffer that decoding consumes from.
//!
//! Every decoder takes a `&mut ByteReader` and advances its position by
//! exactly the bytes it interpreted, so nested decoders compose by running
//! one after the other on the same reader.

use vstd::prelude::*;

verus! {

/// A read cursor over a borrowed byte slice. The position only ever moves
/// forward and never past the end of the data.
pub struct ByteReader<'a> {
    data: &'a [u8],
    pos: usize,
}

impl<'a> ByteReader<'a> {
    /// The whole underlying buffer, read and unread bytes alike.
    pub closed spec fn all_bytes(&self) -> Seq<u8> {
        self.data@
    }

    /// How many bytes have been consumed so far.
    pub closed spec fn spec_position(&self) -> int {
        self.pos as int
    }

    /// The position never runs past the end of the data. This holds of
    /// every reader by construction.
    #[verifier::type_invariant]
    pub open spec fn wf(&self) -> bool {
        0 <= self.spec_position() <= self.all_bytes().len()
    }

    /// The bytes that are still to be read.
    pub open spec fn unread(&self) -> Seq<u8> {
        self.all_bytes().skip(self.spec_position())
    }

    /// Starts a reader at the beginning of `data`.
    pub fn new(data: &'a [u8]) -> (r: Self)
        ensures
            r.all_bytes() == data@,
            r.spec_position() == 0,
    {
        ByteReader { data, pos: 0 }
    }

    /// The number of bytes consumed so far.
    pub fn position(&self) -> (r: usize)
        ensures
            r == self.spec_position(),
    {
        proof {
            use_type_invariant(self);
        }
        self.pos
    }

    /// The number of bytes still to be read.
    pub fn remaining(&self) -> (r: usize)
        ensures
            r == self.unread().len(),
    {
        proof {
            use_type_invariant(self);
        }
        self.data.len() - self.pos
    }

    /// Consumes and returns the next byte; `None` once the data is used up.
    pub fn read_byte(&mut self) -> (r: Option<u8>)
        ensures
            final(self).all_bytes() == old(self).all_bytes(),
            match r {
                Some(b) => {
                    &&& old(self).unread().len() > 0
                    &&& b == old(self).unread()[0]
                    &&& final(self).spec_position() == old(self).spec_position() + 1
                },
                None => {
                    &&& old(self).unread().len() == 0
                    &&& final(self).spec_position() == old(self).spec_position()
                },
            },
    {
        proof {
            use_type_invariant(&*self);
        }
        if self.pos < self.data.len() {
            let b = self.data[self.pos];
            self.pos = self.pos + 1;
            Some(b)
        } else {
            None
        }
    }

    /// Consumes the next `n` bytes and returns them as a fresh vector;
    /// `None`, and no movement, if fewer than `n` bytes are left.
    pub fn read_bytes(&mut self, n: usize) -> (r: Option<Vec<u8>>)
        ensures
            final(self).all_bytes() == old(self).all_bytes(),
            match r {
                Some(v) => {
                    &&& old(self).unread().len() >= n
                    &&& v@ == old(self).unread().take(n as int)
                    &&& final(self).spec_position() == old(self).spec_position() + n
                },
                None => {
                    &&& old(self).unread().len() < n
                    &&& final(self).spec_position() == old(self).spec_position()
                },
            },
    {
        proof {
            use_type_invariant(&*self);
        }
        let dlen = self.data.len();
        if n <= dlen - self.pos {
            let mut out: Vec<u8> = Vec::new();
            let mut i: usize = 0;
            while i < n
                invariant
                    0 <= i <= n,
                    self.pos + n <= dlen,
                    dlen == self.data@.len(),
                    out@ =~= self.data@.subrange(self.pos as int, self.pos + i),
                decreases n - i,
            {
                out.push(self.data[self.pos + i]);
                i = i + 1;
            }
            self.pos = self.pos + n;
            proof {
                assert(out@ =~= old(self).unread().take(n as int));
            }
            Some(out)
        } else {
            None
        }
    }
}

} // verus!
