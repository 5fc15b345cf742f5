//! The wraparound index shared by the ring buffers.
//!
//! An `Index<N>` holds a counter that conceptually ranges over `[0, 2*N)`,
//! twice the capacity of the ring it serves.  Two such counters (a read
//! index and a write index) determine the number of stored items as their
//! wrapped difference, which lies in `[0, N]`; the doubled range is what
//! distinguishes a full ring (difference `N`) from an empty one
//! (difference `0`).
//!
//! For a power-of-two capacity the counter is left to wrap naturally at the
//! machine-word boundary, so an increment is a plain wrapping add with no
//! branch; since the word range is a multiple of `2*N`, the wrapped
//! difference still measures the stored items.  For any other capacity the
//! counter is wrapped into `[0, 2*N)` by an explicit conditional
//! subtraction.

use vstd::prelude::*;
use vstd::arithmetic::div_mod::{
    lemma_fundamental_div_mod, lemma_fundamental_div_mod_converse_mod, lemma_mod_mod,
    lemma_mod_multiples_basic, lemma_small_mod, lemma_sub_mod_noop, lemma_sub_mod_noop_right,
    lemma_add_mod_noop,
};
use vstd::arithmetic::power::pow;
use vstd::arithmetic::power2::{
    pow2, is_pow2, is_pow2_exists, is_pow2_equiv, lemma_pow2, lemma_pow2_adds,
    lemma_pow2_strictly_increases, lemma2_to64,
};

verus! {

/// A capacity the wraparound arithmetic can serve: positive and, whenever
/// the doubled range `2*N` is materialised at run time (that is, for every
/// capacity that is not a power of two), small enough that `2*N` fits in a
/// machine word.
pub open spec fn capacity_ok(n: usize) -> bool {
    &&& 0 < n
    &&& !is_pow2(n as int) ==> 2 * (n as int) <= usize::MAX as int
}

/// The modulus under which a raw counter advances.  A power-of-two capacity
/// relies on the natural wraparound of the machine word; any other capacity
/// wraps explicitly at `2*N`.
pub open spec fn counter_modulus(n: usize) -> int {
    if is_pow2(n as int) {
        usize::MAX as int + 1
    } else {
        2 * (n as int)
    }
}

/// The counter modulus is a positive multiple of the capacity and covers the
/// doubled range `[0, 2*N)`, so a wrapped difference of two counters can
/// reach every value in `[0, N]` without ambiguity.
pub proof fn lemma_counter_modulus(n: usize)
    requires
        capacity_ok(n),
    ensures
        counter_modulus(n) % (n as int) == 0,
        2 * (n as int) <= counter_modulus(n),
{
    if is_pow2(n as int) {
        lemma_pow2_divides_word(n);
    } else {
        lemma_mod_multiples_basic(2, n as int);
    }
}

/// For a power-of-two capacity `n`, the machine-word range is a multiple of
/// `2*n`, hence also of `n`.
proof fn lemma_pow2_divides_word(n: usize)
    requires
        is_pow2(n as int),
    ensures
        (usize::MAX as int + 1) % (n as int) == 0,
        2 * (n as int) <= usize::MAX as int + 1,
{
    broadcast use is_pow2_equiv;

    assert(is_pow2_exists(n as int));
    let k = choose|i: nat| pow(2, i) == n as int;
    lemma_pow2(k);
    assert(pow2(k) == n);
    let w: nat = if usize::MAX == 0xFFFF_FFFF {
        32
    } else {
        64
    };
    assert(usize::MAX as int + 1 == pow2(w)) by {
        lemma2_to64();
    }
    assert(k < w) by {
        if k >= w {
            if k > w {
                lemma_pow2_strictly_increases(w, k);
            }
            assert(pow2(k) >= pow2(w));
        }
    }
    lemma_pow2_adds(k, (w - k) as nat);
    let b = pow2((w - k) as nat) as int;
    assert(pow2(w) == pow2(k) * pow2((w - k) as nat));
    assert(pow2(w) as int == (n as int) * b);
    assert((n as int) * b == b * (n as int)) by (nonlinear_arith);
    lemma_mod_multiples_basic(b, n as int);
    assert((b * (n as int)) % (n as int) == 0);
    assert((usize::MAX as int + 1) % (n as int) == 0);
    assert(2 * (n as int) <= pow2(w) as int) by {
        lemma_pow2_adds(k, 1);
        assert(pow2(1) == 2) by {
            lemma2_to64();
        }
        assert(pow2(k + 1) == pow2(k) * 2);
        if k + 1 < w {
            lemma_pow2_strictly_increases(k + 1, w);
        }
    }
}

/// Euclidean remainders of a difference of two counters that both lie below
/// the modulus: the wrapped difference is the plain difference, shifted up
/// by the modulus when negative, and it vanishes exactly on equal counters.
pub proof fn lemma_wrap_distance(a: int, b: int, m: int)
    requires
        0 < m,
        0 <= a < m,
        0 <= b < m,
    ensures
        a >= b ==> (a - b) % m == a - b,
        a < b ==> (a - b) % m == a - b + m,
        ((a - b) % m == 0) <==> (a == b),
{
    if a >= b {
        lemma_small_mod((a - b) as nat, m as nat);
    } else {
        lemma_fundamental_div_mod_converse_mod(a - b, m, -1, a - b + m);
    }
}

/// Masking commutes with the counter wraparound: reducing a counter by the
/// modulus first and by the capacity second gives the same slot as reducing
/// by the capacity directly, because the capacity divides the modulus.
pub proof fn lemma_mask_of_wrapped(x: int, n: int, m: int)
    requires
        0 < n,
        0 < m,
        m % n == 0,
    ensures
        (x % m) % n == x % n,
{
    lemma_fundamental_div_mod(m, n);
    assert(m == n * (m / n));
    assert(0 < m / n) by {
        if m / n <= 0 {
            assert(n * (m / n) <= 0) by (nonlinear_arith)
                requires
                    0 < n,
                    m / n <= 0,
            ;
        }
    }
    lemma_mod_mod(x, n, m / n);
}

/// Reducing a counter by the modulus does not move the slot an offset from
/// it denotes: `((x % m) + i) % n == (x + i) % n` whenever the capacity `n`
/// divides the modulus `m`.
pub proof fn lemma_shift_mod(x: int, i: int, n: int, m: int)
    requires
        0 < n,
        0 < m,
        m % n == 0,
    ensures
        ((x % m) + i) % n == (x + i) % n,
{
    lemma_mask_of_wrapped(x, n, m);
    lemma_add_mod_noop(x % m, i, n);
    lemma_add_mod_noop(x, i, n);
}

/// Advancing the write counter by one grows the wrapped distance to the read
/// counter by one, as long as the distance stays below the modulus.
pub proof fn lemma_distance_after_inc_wr(rd: int, wr: int, m: int)
    requires
        1 < m,
        0 <= rd < m,
        0 <= wr < m,
        (wr - rd) % m + 1 < m,
    ensures
        (((wr + 1) % m) - rd) % m == (wr - rd) % m + 1,
{
    let d = (wr - rd) % m;
    lemma_small_mod(rd as nat, m as nat);
    lemma_sub_mod_noop(wr + 1, rd, m);
    assert((((wr + 1) % m) - rd) % m == (wr + 1 - rd) % m);
    lemma_add_mod_noop(wr - rd, 1, m);
    lemma_small_mod(1nat, m as nat);
    assert((wr - rd + 1) % m == (d + 1) % m);
    lemma_small_mod((d + 1) as nat, m as nat);
}

/// Advancing the read counter by one shrinks a positive wrapped distance to
/// the write counter by one.
pub proof fn lemma_distance_after_inc_rd(rd: int, wr: int, m: int)
    requires
        1 < m,
        0 <= rd < m,
        0 <= wr < m,
        1 <= (wr - rd) % m,
    ensures
        (wr - ((rd + 1) % m)) % m == (wr - rd) % m - 1,
{
    let d = (wr - rd) % m;
    lemma_sub_mod_noop_right(wr, rd + 1, m);
    assert((wr - ((rd + 1) % m)) % m == (wr - rd - 1) % m);
    lemma_sub_mod_noop(wr - rd, 1, m);
    lemma_small_mod(1nat, m as nat);
    assert((wr - rd - 1) % m == (d - 1) % m);
    lemma_small_mod((d - 1) as nat, m as nat);
}

/// Two logical positions less than the capacity apart never land on the same
/// slot of the backing array.
pub proof fn lemma_distinct_slots(rd: int, i: int, j: int, n: int)
    requires
        0 < n,
        0 <= i < j,
        j - i < n,
    ensures
        (rd + i) % n != (rd + j) % n,
{
    if (rd + i) % n == (rd + j) % n {
        lemma_sub_mod_noop(rd + j, rd + i, n);
        assert(((rd + j) % n - (rd + i) % n) % n == (j - i) % n);
        lemma_small_mod(0nat, n as nat);
        lemma_small_mod((j - i) as nat, n as nat);
        assert((j - i) % n == j - i);
        assert(false);
    }
}

/// Whether `n` is a power of two, decided by stripping factors of two.
pub fn is_power_of_two(n: usize) -> (b: bool)
    ensures
        b == is_pow2(n as int),
{
    reveal(is_pow2);
    if n == 0 {
        return false;
    }
    let mut m: usize = n;
    while m % 2 == 0
        invariant
            1 <= m <= n,
            is_pow2(n as int) == is_pow2(m as int),
        decreases m,
    {
        proof {
            reveal(is_pow2);
        }
        m = m / 2;
    }
    proof {
        reveal(is_pow2);
    }
    m == 1
}

/// A wraparound counter for a ring of capacity `N`, advancing by one per
/// operation under the modulus of [`counter_modulus`].
pub struct Index<const N: usize> {
    val: usize,
}

impl<const N: usize> Index<N> {
    /// The raw counter value.
    pub closed spec fn counter(self) -> int {
        self.val as int
    }

    /// The counter serves a usable capacity and lies below its modulus.
    pub open spec fn wf(self) -> bool {
        &&& capacity_ok(N)
        &&& 0 <= self.counter() < counter_modulus(N)
    }

    /// A fresh counter.  Every ring starts both of its indices at zero.
    pub fn new(val: usize) -> (r: Self)
        requires
            capacity_ok(N),
            val < 2 * N,
        ensures
            r.wf(),
            r.counter() == val,
    {
        proof {
            lemma_counter_modulus(N);
        }
        Index { val }
    }

    /// The raw counter, used only for distance computation.
    pub fn get(&self) -> (r: usize)
        ensures
            r == self.counter(),
    {
        self.val
    }

    /// Advance the counter by one under the wraparound modulus.  For a
    /// power-of-two capacity this is a single wrapping add; otherwise the
    /// counter is folded back into `[0, 2*N)` by one conditional
    /// subtraction.
    pub fn wrap_inc(&mut self)
        requires
            old(self).wf(),
        ensures
            final(self).wf(),
            final(self).counter() == (old(self).counter() + 1) % counter_modulus(N),
    {
        proof {
            lemma_counter_modulus(N);
        }
        if is_power_of_two(N) {
            let ghost m = usize::MAX as int + 1;
            proof {
                if old(self).counter() + 1 < m {
                    lemma_small_mod((old(self).counter() + 1) as nat, m as nat);
                } else {
                    lemma_fundamental_div_mod_converse_mod(old(self).counter() + 1, m, 1, 0);
                }
            }
            self.val = self.val.wrapping_add(1);
        } else {
            let ghost m = 2 * (N as int);
            let v = self.val + 1;
            if v > 2 * N - 1 {
                proof {
                    lemma_fundamental_div_mod_converse_mod(v as int, m, 1, v - m);
                }
                self.val = v - 2 * N;
            } else {
                proof {
                    lemma_small_mod(v as nat, m as nat);
                }
                self.val = v;
            }
        }
    }

    /// The slot of the backing array the counter denotes, in `[0, N)`.
    pub fn mask(&self) -> (r: usize)
        requires
            self.wf(),
        ensures
            r == self.counter() % (N as int),
            r < N,
    {
        if is_power_of_two(N) {
            self.val % N
        } else {
            if self.val > N - 1 {
                proof {
                    lemma_fundamental_div_mod_converse_mod(
                        self.counter(),
                        N as int,
                        1,
                        self.counter() - N,
                    );
                }
                self.val - N
            } else {
                proof {
                    lemma_small_mod(self.val as nat, N as nat);
                }
                self.val
            }
        }
    }

    /// How far this counter has advanced past `earlier`, wrapped under the
    /// counter modulus.  Two ring indices are always within `[0, N]` of each
    /// other, so this measures the stored items.
    pub fn wrap_distance(&self, earlier: &Index<N>) -> (r: usize)
        requires
            self.wf(),
            earlier.wf(),
        ensures
            r == (self.counter() - earlier.counter()) % counter_modulus(N),
    {
        proof {
            lemma_counter_modulus(N);
            lemma_wrap_distance(self.counter(), earlier.counter(), counter_modulus(N));
        }
        if is_power_of_two(N) {
            self.val.wrapping_sub(earlier.val)
        } else {
            if self.val >= earlier.val {
                self.val - earlier.val
            } else {
                self.val + (2 * N - earlier.val)
            }
        }
    }
}

} // verus!
