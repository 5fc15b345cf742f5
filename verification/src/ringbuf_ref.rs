//! The zero-copy single-producer/single-consumer ring buffer.
//!
//! A `RingBufRef<T, N>` keeps a read index and a write index (each a
//! wraparound counter over `[0, 2*N)`, see [`crate::wrap_index`]) and a
//! backing store of `N` slots.  Only the slots in the window between the
//! read and the write index hold published items; a slot outside that window
//! holds stale data and is never exposed.
//!
//! The write side is two-phase: [`RingBufRef::stage`] fills the slot the
//! write index denotes without publishing it, and [`RingBufRef::commit`]
//! publishes whatever the slot holds by advancing the write index.  Staging
//! twice without a commit in between overwrites the same slot; this is the
//! documented caller contract of the protocol, checked by `commit`'s
//! precondition rather than by any hidden run-time flag.  [`RingBufRef::push`]
//! performs stage and commit in one call.

use vstd::prelude::*;
use vstd::seq_lib::*;
use crate::wrap_index::{
    Index, capacity_ok, counter_modulus, lemma_counter_modulus, lemma_distance_after_inc_rd,
    lemma_distance_after_inc_wr, lemma_distinct_slots, lemma_shift_mod, lemma_wrap_distance,
};
use vstd::arithmetic::div_mod::lemma_small_mod;

verus! {

/// The recoverable conditions a ring operation reports: the ring is at
/// capacity, or it holds nothing readable.
#[derive(Debug)]
pub enum ErrCode {
    BuffFull,
    BuffEmpty,
}

/// A ring buffer of capacity `N` holding items of type `T`.
/// A capacity that is not a power of two is supported but wraps its
/// counters with an extra branch.
pub struct RingBufRef<T, const N: usize> {
    rd_idx: Index<N>,
    wr_idx: Index<N>,
    buf: Vec<Option<T>>,
}

impl<T, const N: usize> RingBufRef<T, N> {
    /// The raw read counter.
    pub closed spec fn rd(self) -> int {
        self.rd_idx.counter()
    }

    /// The raw write counter.
    pub closed spec fn wr(self) -> int {
        self.wr_idx.counter()
    }

    /// The number of published items: the wrapped distance from the read to
    /// the write counter.
    pub closed spec fn spec_len(self) -> int {
        (self.wr() - self.rd()) % counter_modulus(N)
    }

    /// The backing slot holding the item `i` positions past the read index.
    closed spec fn slot(self, i: int) -> Option<T> {
        self.buf@[(self.rd() + i) % (N as int)]
    }

    /// What the slot under the write index currently holds: the value a
    /// `commit` would publish.  `stage` fills it; before the first lap of
    /// the ring it may still be unfilled.
    pub closed spec fn staged(self) -> Option<T> {
        self.buf@[self.wr() % (N as int)]
    }

    /// Well-formedness: both counters serve the same valid capacity, the
    /// backing store has `N` slots, at most `N` items are published, and
    /// every published slot holds a value.
    pub closed spec fn wf(self) -> bool {
        &&& self.rd_idx.wf()
        &&& self.wr_idx.wf()
        &&& self.buf@.len() == N
        &&& self.spec_len() <= N
        &&& forall|i: int| 0 <= i < self.spec_len() ==> (#[trigger] self.slot(i)) is Some
    }
}

impl<T, const N: usize> View for RingBufRef<T, N> {
    type V = Seq<T>;

    /// The published items, oldest first.
    closed spec fn view(&self) -> Seq<T> {
        Seq::new(self.spec_len() as nat, |i: int| self.slot(i).unwrap())
    }
}

impl<T, const N: usize> RingBufRef<T, N> {
    /// An empty ring: both counters at zero, no slot filled yet.
    pub fn new() -> (r: Self)
        requires
            capacity_ok(N),
        ensures
            r.wf(),
            r@ == Seq::<T>::empty(),
    {
        let mut buf: Vec<Option<T>> = Vec::new();
        let mut i: usize = 0;
        while i < N
            invariant
                buf@.len() == i,
                i <= N,
            decreases N - i,
        {
            buf.push(None);
            i = i + 1;
        }
        let r = RingBufRef { rd_idx: Index::new(0), wr_idx: Index::new(0), buf };
        proof {
            lemma_counter_modulus(N);
            lemma_small_mod(0nat, counter_modulus(N) as nat);
            assert(r@ =~= Seq::<T>::empty());
        }
        r
    }

    /// A well-formed ring never holds more than its capacity.
    pub proof fn lemma_len_bound(&self)
        requires
            self.wf(),
        ensures
            self@.len() <= N,
    {
    }

    /// Whether nothing is published: the counters coincide.
    pub fn is_empty(&self) -> (r: bool)
        requires
            self.wf(),
        ensures
            r == (self@.len() == 0),
    {
        proof {
            lemma_counter_modulus(N);
            lemma_wrap_distance(self.wr(), self.rd(), counter_modulus(N));
        }
        self.rd_idx.get() == self.wr_idx.get()
    }

    /// The number of published items, in `[0, N]`.
    pub fn len(&self) -> (r: usize)
        requires
            self.wf(),
        ensures
            r == self@.len(),
    {
        self.wr_idx.wrap_distance(&self.rd_idx)
    }

    /// Whether the ring is at capacity.
    pub fn is_full(&self) -> (r: bool)
        requires
            self.wf(),
        ensures
            r == (self@.len() == N),
    {
        self.len() == N
    }

    /// The fixed capacity `N`.
    pub fn capacity(&self) -> (r: usize)
        ensures
            r == N,
    {
        N
    }

    /// Fill the slot under the write index without publishing it: the write
    /// half of the two-phase protocol.  Staging again before a commit
    /// overwrites the same slot.  Fails with `BuffFull` and changes nothing
    /// when the ring is at capacity.
    pub fn stage(&mut self, val: T) -> (r: Result<(), ErrCode>)
        requires
            old(self).wf(),
        ensures
            final(self).wf(),
            old(self)@.len() < N ==> {
                &&& r is Ok
                &&& final(self)@ == old(self)@
                &&& final(self).staged() == Some(val)
            },
            old(self)@.len() == N ==> {
                &&& r == Err::<(), ErrCode>(ErrCode::BuffFull)
                &&& *final(self) == *old(self)
            },
    {
        if !self.is_full() {
            let i = self.wr_idx.mask();
            proof {
                lemma_counter_modulus(N);
                let m = counter_modulus(N);
                let d = self.spec_len();
                lemma_shift_mod(self.wr() - self.rd(), self.rd(), N as int, m);
                assert((self.rd() + d) % (N as int) == self.wr() % (N as int));
                assert forall|j: int| 0 <= j < d implies #[trigger] ((self.rd() + j) % (
                N as int)) != i by {
                    lemma_distinct_slots(self.rd(), j, d, N as int);
                }
            }
            self.buf[i] = Some(val);
            proof {
                assert forall|j: int| 0 <= j < self.spec_len() implies (#[trigger] self.slot(
                    j,
                )) is Some by {
                    assert((self.rd() + j) % (N as int) != i);
                    assert(self.slot(j) == old(self).slot(j));
                    assert(old(self).slot(j) is Some);
                }
                assert(final(self)@ =~= old(self)@);
            }
            Ok(())
        } else {
            Err(ErrCode::BuffFull)
        }
    }

    /// Publish whatever the slot under the write index holds by advancing
    /// the write index: the second half of the two-phase protocol.  It must
    /// only be called once a `stage` (or an earlier lap of the ring) has
    /// filled that slot.  Fails with `BuffFull` and changes nothing when the
    /// ring is at capacity.
    pub fn commit(&mut self) -> (r: Result<(), ErrCode>)
        requires
            old(self).wf(),
            old(self)@.len() < N ==> old(self).staged() is Some,
        ensures
            final(self).wf(),
            old(self)@.len() < N ==> {
                &&& r is Ok
                &&& final(self)@ == old(self)@.push(old(self).staged().unwrap())
            },
            old(self)@.len() == N ==> {
                &&& r == Err::<(), ErrCode>(ErrCode::BuffFull)
                &&& *final(self) == *old(self)
            },
    {
        if !self.is_full() {
            proof {
                lemma_counter_modulus(N);
                let m = counter_modulus(N);
                lemma_distance_after_inc_wr(self.rd(), self.wr(), m);
                lemma_shift_mod(self.wr() - self.rd(), self.rd(), N as int, m);
            }
            self.wr_idx.wrap_inc();
            proof {
                assert forall|j: int| 0 <= j < self.spec_len() implies (#[trigger] self.slot(
                    j,
                )) is Some by {
                    assert(self.slot(j) == old(self).slot(j));
                    if j < old(self).spec_len() {
                        assert(old(self).slot(j) is Some);
                    } else {
                        assert(old(self).slot(j) == old(self).staged());
                    }
                }
                assert(final(self)@ =~= old(self)@.push(old(self).staged().unwrap()));
            }
            Ok(())
        } else {
            Err(ErrCode::BuffFull)
        }
    }

    /// Stage and commit in one call.  The value moves into the ring; on a
    /// full ring it is dropped and `BuffFull` is reported with nothing
    /// changed.
    pub fn push(&mut self, val: T) -> (r: Result<(), ErrCode>)
        requires
            old(self).wf(),
        ensures
            final(self).wf(),
            old(self)@.len() < N ==> {
                &&& r is Ok
                &&& final(self)@ == old(self)@.push(val)
            },
            old(self)@.len() == N ==> {
                &&& r == Err::<(), ErrCode>(ErrCode::BuffFull)
                &&& *final(self) == *old(self)
            },
    {
        match self.stage(val) {
            Ok(()) => self.commit(),
            Err(e) => Err(e),
        }
    }

    /// A reference to the oldest published item, or `None` on an empty
    /// ring.  The read index does not move.
    pub fn peek(&self) -> (r: Option<&T>)
        requires
            self.wf(),
        ensures
            self@.len() == 0 ==> r is None,
            self@.len() > 0 ==> (r matches Some(v) && *v == self@[0]),
    {
        if self.is_empty() {
            None
        } else {
            let i = self.rd_idx.mask();
            proof {
                assert(self.slot(0) == self.buf@[(self.rd() + 0) % (N as int)]);
                assert(self.slot(0) is Some);
            }
            match &self.buf[i] {
                Some(v) => Some(v),
                None => {
                    proof {
                        assert(false);
                    }
                    None
                },
            }
        }
    }

    /// Consume the oldest published item by advancing the read index.  The
    /// slot itself is left as it is and is reused on a later lap.  Fails
    /// with `BuffEmpty` and changes nothing on an empty ring.
    pub fn pop(&mut self) -> (r: Result<(), ErrCode>)
        requires
            old(self).wf(),
        ensures
            final(self).wf(),
            old(self)@.len() > 0 ==> {
                &&& r is Ok
                &&& final(self)@ == old(self)@.drop_first()
            },
            old(self)@.len() == 0 ==> {
                &&& r == Err::<(), ErrCode>(ErrCode::BuffEmpty)
                &&& *final(self) == *old(self)
            },
    {
        if !self.is_empty() {
            proof {
                lemma_counter_modulus(N);
                let m = counter_modulus(N);
                lemma_distance_after_inc_rd(self.rd(), self.wr(), m);
                assert forall|j: int| 0 <= j < old(self).spec_len() - 1 implies #[trigger] ((
                (self.rd() + 1) % m + j) % (N as int)) == (self.rd() + (j + 1)) % (N as int) by {
                    lemma_shift_mod(self.rd() + 1, j, N as int, m);
                }
            }
            self.rd_idx.wrap_inc();
            proof {
                assert forall|j: int| 0 <= j < self.spec_len() implies (#[trigger] self.slot(
                    j,
                )) is Some by {
                    assert(self.slot(j) == old(self).slot(j + 1));
                    assert(old(self).slot(j + 1) is Some);
                }
                assert(final(self)@ =~= old(self)@.drop_first());
            }
            Ok(())
        } else {
            Err(ErrCode::BuffEmpty)
        }
    }
}

} // verus!
