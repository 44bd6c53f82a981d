//! An owning cursor over a buffer of input values: the program-input stream is
//! copied in once and consumed one value per call.

use vstd::prelude::*;
use vstd::slice::slice_to_vec;

verus! {

#[derive(Debug, PartialEq, Clone)]
pub struct BufIter<T> {
    inside: Vec<T>,
    c: usize,
}

impl<T: Copy> BufIter<T> {
    /// The cursor never runs past the buffer.
    pub closed spec fn wf(&self) -> bool {
        self.c <= self.inside@.len()
    }

    /// The values not yet consumed, in order.
    pub closed spec fn remaining(&self) -> Seq<T> {
        self.inside@.skip(self.c as int)
    }

    /// A cursor over a copy of `slice`.
    pub fn new(slice: &[T]) -> (r: Self)
        ensures
            r.wf(),
            r.remaining() == slice@,
    {
        let v = slice_to_vec(slice);
        proof {
            assert(v@.skip(0) =~= slice@);
        }
        BufIter { inside: v, c: 0 }
    }

    /// The next value, or `None` once the buffer is exhausted.
    pub fn next(&mut self) -> (r: Option<T>)
        requires
            old(self).wf(),
        ensures
            final(self).wf(),
            old(self).remaining().len() == 0 ==> r is None && *final(self) == *old(self),
            old(self).remaining().len() > 0 ==> {
                &&& r == Some(old(self).remaining()[0])
                &&& final(self).remaining() == old(self).remaining().skip(1)
            },
    {
        if self.c == self.inside.len() {
            None
        } else {
            let e = self.inside[self.c];
            self.c = self.c + 1;
            proof {
                assert(final(self).remaining() =~= old(self).remaining().skip(1));
            }
            Some(e)
        }
    }
}

} // verus!
