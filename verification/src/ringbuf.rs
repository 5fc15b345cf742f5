//! The by-value single-producer/single-consumer ring buffer.
//!
//! A `RingBuf<T, N>` serves copyable items and moves them in and out of the
//! backing store by value: `push` copies the item in, `peek` and `pop` copy
//! it out.  It is the baseline counterpart of
//! [`crate::ringbuf_ref::RingBufRef`], which it wraps; it trades the
//! zero-copy stage/commit protocol for a single-call interface.

use vstd::prelude::*;
use vstd::seq_lib::*;
use crate::ringbuf_ref::RingBufRef;
use crate::wrap_index::capacity_ok;

verus! {

/// A ring buffer of capacity `N` holding copyable items of type `T`.
pub struct RingBuf<T, const N: usize> {
    rb: RingBufRef<T, N>,
}

impl<T, const N: usize> View for RingBuf<T, N> {
    type V = Seq<T>;

    /// The stored items, oldest first.
    closed spec fn view(&self) -> Seq<T> {
        self.rb@
    }
}

impl<T: Copy, const N: usize> RingBuf<T, N> {
    /// Well-formedness of the underlying ring.
    pub closed spec fn wf(self) -> bool {
        self.rb.wf()
    }

    /// An empty ring.
    pub fn new() -> (r: Self)
        requires
            capacity_ok(N),
        ensures
            r.wf(),
            r@ == Seq::<T>::empty(),
    {
        RingBuf { rb: RingBufRef::new() }
    }

    /// Whether the ring holds nothing.
    pub fn empty(&self) -> (r: bool)
        requires
            self.wf(),
        ensures
            r == (self@.len() == 0),
    {
        self.rb.is_empty()
    }

    /// The number of stored items, in `[0, N]`.
    pub fn size(&self) -> (r: usize)
        requires
            self.wf(),
        ensures
            r == self@.len(),
    {
        self.rb.len()
    }

    /// Whether the ring is at capacity.
    pub fn full(&self) -> (r: bool)
        requires
            self.wf(),
        ensures
            r == (self@.len() == N),
    {
        self.rb.is_full()
    }

    /// Copy a value into the ring.  On a full ring the value is handed back
    /// unchanged, so nothing is lost.
    pub fn push(&mut self, val: T) -> (r: Result<(), T>)
        requires
            old(self).wf(),
        ensures
            final(self).wf(),
            old(self)@.len() < N ==> {
                &&& r is Ok
                &&& final(self)@ == old(self)@.push(val)
            },
            old(self)@.len() == N ==> {
                &&& r == Err::<(), T>(val)
                &&& *final(self) == *old(self)
            },
    {
        if self.rb.is_full() {
            Err(val)
        } else {
            match self.rb.push(val) {
                Ok(()) => Ok(()),
                Err(_) => Err(val),
            }
        }
    }

    /// A copy of the oldest stored item, or `None` on an empty ring.  The
    /// ring itself does not change.
    pub fn peek(&self) -> (r: Option<T>)
        requires
            self.wf(),
        ensures
            self@.len() == 0 ==> r is None,
            self@.len() > 0 ==> r == Some(self@[0]),
    {
        match self.rb.peek() {
            Some(v) => Some(*v),
            None => None,
        }
    }

    /// Remove and return the oldest stored item, or `None` on an empty
    /// ring, which stays unchanged.
    pub fn pop(&mut self) -> (r: Option<T>)
        requires
            old(self).wf(),
        ensures
            final(self).wf(),
            old(self)@.len() == 0 ==> {
                &&& r is None
                &&& *final(self) == *old(self)
            },
            old(self)@.len() > 0 ==> {
                &&& r == Some(old(self)@[0])
                &&& final(self)@ == old(self)@.drop_first()
            },
    {
        let res = self.peek();
        if res.is_some() {
            let popped = self.rb.pop();
            proof {
                assert(popped is Ok);
            }
        }
        res
    }
}

} // verus!
