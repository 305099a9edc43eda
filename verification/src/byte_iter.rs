//! An iterator of bytes, wrapped.
use vstd::prelude::*;

verus! {

/// Holds an iterator over bytes.
pub struct ByteIterator<I: Iterator<Item = u8>> {
    iter: I,
}

impl<I: Iterator<Item = u8>> ByteIterator<I> {
    /// The iterator held.
    pub closed spec fn held(&self) -> I {
        self.iter
    }

    pub fn new(iter: I) -> (r: Self)
        ensures
            r.held() == iter,
    {
        ByteIterator { iter }
    }

    /// The iterator held.
    pub fn inner(&self) -> (r: &I)
        ensures
            *r == self.held(),
    {
        &self.iter
    }

    /// The iterator held, to advance it.
    pub fn inner_mut(&mut self) -> (r: &mut I)
        ensures
            *r == old(self).held(),
            final(self).held() == *final(r),
    {
        &mut self.iter
    }
}

} // verus!
