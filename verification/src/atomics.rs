//! Stand-ins for atomic types on processors without atomic instructions.
//!
//! On the targets this crate serves, a single aligned word store is observed
//! whole by the other side, so a plain load/store cell is what an atomic
//! degenerates to.  The ordering argument is carried for interface
//! compatibility and has no effect.

use vstd::prelude::*;

verus! {

/// Memory-ordering names, accepted and ignored: plain loads and stores are
/// all the hardware offers here.
#[non_exhaustive]
pub enum Ordering {
    Relaxed,
    Release,
    Acquire,
    AcqRel,
    SeqCst,
}

/// A word-sized cell read and written with plain loads and stores.
pub struct AtomicUsize {
    val: usize,
}

impl AtomicUsize {
    /// The stored word.
    pub closed spec fn value(self) -> usize {
        self.val
    }

    /// A cell holding `val`.
    pub fn new(val: usize) -> (r: Self)
        ensures
            r.value() == val,
    {
        AtomicUsize { val }
    }

    /// Store a word; the ordering argument is ignored.
    pub fn store(&mut self, val: usize, _ordering: Ordering)
        ensures
            final(self).value() == val,
    {
        self.val = val;
    }

    /// Load the stored word; the ordering argument is ignored.
    pub fn load(&self, _ordering: Ordering) -> (r: usize)
        ensures
            r == self.value(),
    {
        self.val
    }
}

} // verus!
