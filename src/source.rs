//! Where a reader's bytes come from.
use vstd::prelude::*;

use crate::lines::{chunk_len, lemma_line_len, lemma_line_len_at, LF};

verus! {

/// A sequential source of bytes that can hand them out one bounded line
/// piece at a time. The source of a reader implements it; nothing is asked of
/// seeking.
pub trait MyTrait {
    /// What a failed read reports.
    type Error;

    /// The bytes that the source has yet to hand out, in order.
    spec fn pending(&self) -> Seq<u8>;

    /// Whether the reads of this source never fail.
    spec fn infallible(&self) -> bool;

    /// Appends to `buf` the next bytes of the source, through the first line
    /// feed but at most `max` of them, and returns how many. It returns 0 at the
    /// end of the input. On an error, nothing is known of `buf` or of the source.
    fn read_until_lf(&mut self, max: usize, buf: &mut Vec<u8>) -> (r: Result<usize, Self::Error>)
        ensures
            old(self).infallible() ==> r is Ok && final(self).infallible(),
            r is Ok ==> {
                let n = chunk_len(old(self).pending(), max as nat);
                &&& r->Ok_0 == n
                &&& final(buf)@ == old(buf)@ + old(self).pending().take(n as int)
                &&& final(self).pending() == old(self).pending().skip(n as int)
            },
    ;
}

/// A source that reads from bytes held in memory. Its reads never fail.
pub struct ByteCursor {
    data: Vec<u8>,
    pos: usize,
}

impl ByteCursor {
    #[verifier::type_invariant]
    spec fn inv(self) -> bool {
        self.pos <= self.data.len()
    }

    /// A cursor at the start of `data`.
    pub fn new(data: Vec<u8>) -> (r: Self)
        ensures
            r.pending() == data@,
            r.infallible(),
    {
        ByteCursor { data, pos: 0 }
    }

    /// How many bytes are left to read.
    pub fn remaining_len(&self) -> (r: usize)
        ensures
            r == self.pending().len(),
    {
        proof {
            use_type_invariant(self);
        }
        self.data.len() - self.pos
    }
}

impl MyTrait for ByteCursor {
    type Error = ();

    closed spec fn pending(&self) -> Seq<u8> {
        self.data@.skip(self.pos as int)
    }

    open spec fn infallible(&self) -> bool {
        true
    }

    fn read_until_lf(&mut self, max: usize, buf: &mut Vec<u8>) -> (r: Result<usize, ()>) {
        proof {
            use_type_invariant(&*self);
        }
        let ghost s = self.data@.skip(self.pos as int);
        let ghost buf0 = buf@;
        let start = self.pos;
        let mut n: usize = 0;
        let mut found = false;
        while n < max && n < self.data.len() - start && !found
            invariant
                start == self.pos,
                start <= self.data.len(),
                s == self.data@.skip(start as int),
                n <= max,
                n <= self.data.len() - start,
                buf@ == buf0 + s.take(n as int),
                found ==> 0 < n && s[n - 1] == LF,
                forall|i: int| 0 <= i < n && !(found && i == n - 1) ==> s[i] != LF,
            decreases max - n,
        {
            let b = self.data[start + n];
            buf.push(b);
            proof {
                assert(s.take(n + 1) == s.take(n as int).push(b));
            }
            n = n + 1;
            if b == LF {
                found = true;
            }
        }
        proof {
            lemma_line_len(s);
            if found {
                lemma_line_len_at(s, (n - 1) as nat);
            } else {
                lemma_line_len_at(s, n as nat);
            }
        }
        self.pos = start + n;
        proof {
            assert(self.data@.skip(self.pos as int) == s.skip(n as int));
        }
        Ok(n)
    }
}

} // verus!
