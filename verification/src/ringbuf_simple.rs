//! The baseline ring buffer that demands exclusive access.
//!
//! `RingBufSimple<T, N>` is the naive counterpart of the other rings: both
//! `push` and `pop` take `&mut self`, so a producer and a consumer can never
//! hold the buffer at the same time.  Its backing store is fully
//! initialised at construction, its counters always wrap explicitly at
//! `2*N` whatever the capacity, and a push on a full ring or a pop on an
//! empty one is ruled out by precondition rather than reported as a value.

use vstd::prelude::*;
use vstd::seq_lib::*;
use vstd::arithmetic::div_mod::{lemma_mod_multiples_basic, lemma_small_mod,
    lemma_fundamental_div_mod_converse_mod};
use crate::wrap_index::{
    lemma_distance_after_inc_rd, lemma_distance_after_inc_wr, lemma_distinct_slots,
    lemma_shift_mod, lemma_wrap_distance,
};

verus! {

/// A capacity this ring can serve: positive, with the doubled counter range
/// `2*N` representable in a machine word.
pub open spec fn simple_capacity_ok(n: usize) -> bool {
    &&& 0 < n
    &&& 2 * (n as int) <= usize::MAX as int
}

/// A ring buffer of capacity `N` over copyable items, usable only under
/// exclusive access.
pub struct RingBufSimple<T, const N: usize> {
    rd_idx: usize,
    wr_idx: usize,
    buffer: Vec<T>,
}

impl<T, const N: usize> RingBufSimple<T, N> {
    /// The raw read counter, in `[0, 2*N)`.
    pub closed spec fn rd(self) -> int {
        self.rd_idx as int
    }

    /// The raw write counter, in `[0, 2*N)`.
    pub closed spec fn wr(self) -> int {
        self.wr_idx as int
    }

    /// The number of stored items: the wrapped distance from the read to
    /// the write counter.
    pub closed spec fn spec_len(self) -> int {
        (self.wr() - self.rd()) % (2 * (N as int))
    }

    /// Well-formedness: valid capacity, counters within the doubled range,
    /// a backing slot per capacity unit, at most `N` items stored.
    pub closed spec fn wf(self) -> bool {
        &&& simple_capacity_ok(N)
        &&& 0 <= self.rd() < 2 * (N as int)
        &&& 0 <= self.wr() < 2 * (N as int)
        &&& self.buffer@.len() == N
        &&& self.spec_len() <= N
    }
}

impl<T, const N: usize> View for RingBufSimple<T, N> {
    type V = Seq<T>;

    /// The stored items, oldest first.
    closed spec fn view(&self) -> Seq<T> {
        Seq::new(self.spec_len() as nat, |i: int| self.buffer@[(self.rd() + i) % (N as int)])
    }
}

impl<T: Copy, const N: usize> RingBufSimple<T, N> {
    /// An empty ring with every backing slot set to `init`.
    pub fn new(init: T) -> (r: Self)
        requires
            simple_capacity_ok(N),
        ensures
            r.wf(),
            r@ == Seq::<T>::empty(),
    {
        let mut buffer: Vec<T> = Vec::new();
        let mut i: usize = 0;
        while i < N
            invariant
                buffer@.len() == i,
                i <= N,
            decreases N - i,
        {
            buffer.push(init);
            i = i + 1;
        }
        let r = RingBufSimple { rd_idx: 0, wr_idx: 0, buffer };
        proof {
            lemma_small_mod(0nat, (2 * (N as int)) as nat);
            assert(r@ =~= Seq::<T>::empty());
        }
        r
    }

    /// Fold an incremented counter back into the doubled range `[0, 2*N)`.
    pub fn wrap(val: usize) -> (r: usize)
        requires
            simple_capacity_ok(N),
            val < 2 * (2 * (N as int)),
        ensures
            r == (val as int) % (2 * (N as int)),
    {
        if val <= 2 * N - 1 {
            proof {
                lemma_small_mod(val as nat, (2 * (N as int)) as nat);
            }
            val
        } else {
            proof {
                lemma_fundamental_div_mod_converse_mod(
                    val as int,
                    2 * (N as int),
                    1,
                    val - 2 * (N as int),
                );
            }
            val - 2 * N
        }
    }

    /// The backing slot a counter in the doubled range denotes.
    pub fn mask(val: usize) -> (r: usize)
        requires
            simple_capacity_ok(N),
            val < 2 * (N as int),
        ensures
            r == (val as int) % (N as int),
            r < N,
    {
        if val <= N - 1 {
            proof {
                lemma_small_mod(val as nat, N as nat);
            }
            val
        } else {
            proof {
                lemma_fundamental_div_mod_converse_mod(val as int, N as int, 1, val - (N as int));
            }
            val - N
        }
    }

    /// Whether the ring holds nothing: the counters coincide.
    pub fn empty(&self) -> (r: bool)
        requires
            self.wf(),
        ensures
            r == (self@.len() == 0),
    {
        proof {
            lemma_wrap_distance(self.wr(), self.rd(), 2 * (N as int));
        }
        self.rd_idx == self.wr_idx
    }

    /// The number of stored items, in `[0, N]`.
    pub fn size(&self) -> (r: usize)
        requires
            self.wf(),
        ensures
            r == self@.len(),
    {
        proof {
            lemma_wrap_distance(self.wr(), self.rd(), 2 * (N as int));
        }
        if self.wr_idx >= self.rd_idx {
            self.wr_idx - self.rd_idx
        } else {
            self.wr_idx + (2 * N - self.rd_idx)
        }
    }

    /// Whether the ring is at capacity.
    pub fn full(&self) -> (r: bool)
        requires
            self.wf(),
        ensures
            r == (self@.len() == N),
    {
        self.size() == N
    }

    /// Store a value.  The ring must not be full; exclusive access makes the
    /// check the caller's duty, as the `requires` records.
    pub fn push(&mut self, val: T)
        requires
            old(self).wf(),
            old(self)@.len() < N,
        ensures
            final(self).wf(),
            final(self)@ == old(self)@.push(val),
    {
        proof {
            lemma_mod_multiples_basic(2, N as int);
            let m = 2 * (N as int);
            let d = self.spec_len();
            lemma_shift_mod(self.wr() - self.rd(), self.rd(), N as int, m);
            assert((self.rd() + d) % (N as int) == self.wr() % (N as int));
            assert forall|j: int| 0 <= j < d implies #[trigger] ((self.rd() + j) % (N as int))
                != self.wr() % (N as int) by {
                lemma_distinct_slots(self.rd(), j, d, N as int);
            }
            lemma_distance_after_inc_wr(self.rd(), self.wr(), m);
        }
        let slot = Self::mask(self.wr_idx);
        self.buffer[slot] = val;
        self.wr_idx = Self::wrap(self.wr_idx + 1);
        proof {
            assert(final(self)@ =~= old(self)@.push(val));
        }
    }

    /// Remove and return the oldest stored item.  The ring must not be
    /// empty; exclusive access makes the check the caller's duty.
    pub fn pop(&mut self) -> (r: T)
        requires
            old(self).wf(),
            old(self)@.len() > 0,
        ensures
            final(self).wf(),
            r == old(self)@[0],
            final(self)@ == old(self)@.drop_first(),
    {
        proof {
            lemma_mod_multiples_basic(2, N as int);
            let m = 2 * (N as int);
            lemma_distance_after_inc_rd(self.rd(), self.wr(), m);
            assert forall|j: int| 0 <= j < old(self).spec_len() - 1 implies #[trigger] (((self.rd()
                + 1) % m + j) % (N as int)) == (self.rd() + (j + 1)) % (N as int) by {
                lemma_shift_mod(self.rd() + 1, j, N as int, m);
            }
        }
        let slot = Self::mask(self.rd_idx);
        let val = self.buffer[slot];
        self.rd_idx = Self::wrap(self.rd_idx + 1);
        proof {
            assert(final(self)@ =~= old(self)@.drop_first());
        }
        val
    }
}

} // verus!
