//! The FIFO law of the rings, stated over an abstract operation sequence.
//!
//! Each ring of this crate contracts its operations against a `Seq` view:
//! a push on a ring below capacity appends the value and otherwise changes
//! nothing, a pop on a non-empty ring removes and yields the first element
//! and otherwise changes nothing.  [`apply_op`] is exactly that transition
//! on the model, so a chain of ring operations is described by
//! [`apply_ops`].  [`lemma_fifo_order`] proves the law once for every
//! capacity and every interleaving that respects the protocol (no push on a
//! full ring, no pop on an empty one): after `k` pushes and `j` pops the
//! ring holds `k - j` items plus what it started with, and the popped
//! values are exactly the oldest stored and pushed values, in the order
//! they were pushed.

use vstd::prelude::*;
use vstd::seq_lib::*;

verus! {

/// One abstract ring operation.
pub enum RingOp<T> {
    Push(T),
    Pop,
}

/// The transition the ring contracts promise: a push below capacity
/// appends, a pop on a non-empty state removes the first element, and the
/// refused cases leave the state as it is.
pub open spec fn apply_op<T>(s: Seq<T>, op: RingOp<T>, cap: nat) -> Seq<T> {
    match op {
        RingOp::Push(v) => if s.len() < cap {
            s.push(v)
        } else {
            s
        },
        RingOp::Pop => if s.len() > 0 {
            s.drop_first()
        } else {
            s
        },
    }
}

/// The state after a chain of operations.
pub open spec fn apply_ops<T>(s: Seq<T>, ops: Seq<RingOp<T>>, cap: nat) -> Seq<T>
    decreases ops.len(),
{
    if ops.len() == 0 {
        s
    } else {
        apply_ops(apply_op(s, ops[0], cap), ops.drop_first(), cap)
    }
}

/// The values the pushes carry, in order.
pub open spec fn pushed_values<T>(ops: Seq<RingOp<T>>) -> Seq<T>
    decreases ops.len(),
{
    if ops.len() == 0 {
        Seq::empty()
    } else {
        match ops[0] {
            RingOp::Push(v) => seq![v] + pushed_values(ops.drop_first()),
            RingOp::Pop => pushed_values(ops.drop_first()),
        }
    }
}

/// The number of pushes in the chain.
pub open spec fn count_pushes<T>(ops: Seq<RingOp<T>>) -> nat {
    pushed_values(ops).len()
}

/// The number of pops in the chain.
pub open spec fn count_pops<T>(ops: Seq<RingOp<T>>) -> nat
    decreases ops.len(),
{
    if ops.len() == 0 {
        0
    } else {
        (if ops[0] is Pop {
            1nat
        } else {
            0nat
        }) + count_pops(ops.drop_first())
    }
}

/// The values the pops yield, in order.
pub open spec fn popped_values<T>(s: Seq<T>, ops: Seq<RingOp<T>>, cap: nat) -> Seq<T>
    decreases ops.len(),
{
    if ops.len() == 0 {
        Seq::empty()
    } else {
        match ops[0] {
            RingOp::Push(_) => popped_values(apply_op(s, ops[0], cap), ops.drop_first(), cap),
            RingOp::Pop => if s.len() > 0 {
                seq![s[0]] + popped_values(s.drop_first(), ops.drop_first(), cap)
            } else {
                popped_values(s, ops.drop_first(), cap)
            },
        }
    }
}

/// Whether the chain respects the protocol from state `s`: every push finds
/// room and every pop finds an item.
pub open spec fn ops_respect_protocol<T>(s: Seq<T>, ops: Seq<RingOp<T>>, cap: nat) -> bool
    decreases ops.len(),
{
    if ops.len() == 0 {
        true
    } else {
        &&& (match ops[0] {
            RingOp::Push(_) => s.len() < cap,
            RingOp::Pop => s.len() > 0,
        })
        &&& ops_respect_protocol(apply_op(s, ops[0], cap), ops.drop_first(), cap)
    }
}

/// The FIFO law.  For every capacity, every start state within capacity and
/// every protocol-respecting interleaving of `k` pushes and `j` pops:
/// the ring ends up holding its initial items followed by the pushed values,
/// with the `j` oldest removed — so its length is the start length plus
/// `k - j` — and the pops yield exactly those `j` oldest values, in the
/// order they entered the ring.
pub proof fn lemma_fifo_order<T>(s: Seq<T>, ops: Seq<RingOp<T>>, cap: nat)
    requires
        s.len() <= cap,
        ops_respect_protocol(s, ops, cap),
    ensures
        count_pops(ops) <= s.len() + count_pushes(ops),
        apply_ops(s, ops, cap) == (s + pushed_values(ops)).subrange(
            count_pops(ops) as int,
            (s.len() + count_pushes(ops)) as int,
        ),
        apply_ops(s, ops, cap).len() == s.len() + count_pushes(ops) - count_pops(ops),
        popped_values(s, ops, cap) == (s + pushed_values(ops)).take(count_pops(ops) as int),
    decreases ops.len(),
{
    if ops.len() == 0 {
        assert((s + pushed_values(ops)).subrange(0, s.len() as int) =~= s);
        assert((s + pushed_values(ops)).take(0) =~= Seq::<T>::empty());
    } else {
        let rest = ops.drop_first();
        match ops[0] {
            RingOp::Push(v) => {
                let s1 = s.push(v);
                lemma_fifo_order(s1, rest, cap);
                assert(s + pushed_values(ops) =~= s1 + pushed_values(rest));
                assert(apply_ops(s, ops, cap) == apply_ops(s1, rest, cap));
                assert(popped_values(s, ops, cap) == popped_values(s1, rest, cap));
                assert(count_pops(ops) == count_pops(rest));
                assert(count_pushes(ops) == 1 + count_pushes(rest));
            },
            RingOp::Pop => {
                let s1 = s.drop_first();
                lemma_fifo_order(s1, rest, cap);
                assert(s1 + pushed_values(rest) =~= (s + pushed_values(ops)).drop_first());
                assert(count_pops(ops) == 1 + count_pops(rest));
                assert(count_pushes(ops) == count_pushes(rest));
                assert(pushed_values(ops) == pushed_values(rest));
                let all = s + pushed_values(ops);
                let j = count_pops(ops) as int;
                let k = count_pushes(ops) as int;
                assert(apply_ops(s1, rest, cap) =~= all.subrange(j, s.len() + k)) by {
                    assert(apply_ops(s1, rest, cap) == (s1 + pushed_values(rest)).subrange(
                        j - 1,
                        (s1.len() + count_pushes(rest)) as int,
                    ));
                    assert forall|x: int| j <= x < s.len() + k implies all.drop_first()[x - 1]
                        == all[x] by {}
                }
                assert(popped_values(s, ops, cap) =~= all.take(j)) by {
                    assert(popped_values(s1, rest, cap) == (s1 + pushed_values(rest)).take(j - 1));
                    assert(popped_values(s, ops, cap) == seq![s[0]] + (all.drop_first()).take(
                        j - 1,
                    ));
                    assert(all[0] == s[0]);
                    assert forall|x: int| 0 <= x < j - 1 implies #[trigger] (all.drop_first().take(
                        j - 1,
                    )[x]) == all[x + 1] by {}
                }
            },
        }
    }
}

/// The capacity law: exactly `cap` successful pushes on an empty ring with
/// no pops leave the ring full.  The push contracts of the rings then
/// refuse the next value and leave the state untouched.
pub proof fn lemma_full_after_capacity_pushes<T>(ops: Seq<RingOp<T>>, cap: nat)
    requires
        count_pops(ops) == 0,
        count_pushes(ops) == cap,
        ops_respect_protocol(Seq::empty(), ops, cap),
    ensures
        apply_ops(Seq::empty(), ops, cap).len() == cap,
{
    lemma_fifo_order(Seq::empty(), ops, cap);
}

/// The round-trip law: from an empty ring, pushing any value and popping
/// yields that value back and leaves the ring empty again, for every
/// positive capacity.  Repeating the pair therefore cycles the ring through
/// its whole doubled index range without corruption.
pub proof fn lemma_round_trip<T>(v: T, cap: nat)
    requires
        0 < cap,
    ensures
        ({
            let ops = seq![RingOp::Push(v), RingOp::<T>::Pop];
            &&& ops_respect_protocol(Seq::empty(), ops, cap)
            &&& popped_values(Seq::empty(), ops, cap) == seq![v]
            &&& apply_ops(Seq::empty(), ops, cap) == Seq::<T>::empty()
        }),
{
    let ops = seq![RingOp::Push(v), RingOp::<T>::Pop];
    let e = Seq::<T>::empty();
    let s1 = e.push(v);
    assert(ops.drop_first() =~= seq![RingOp::<T>::Pop]);
    assert(ops.drop_first().drop_first() =~= Seq::<RingOp<T>>::empty());
    assert(s1.drop_first() =~= e);
    assert(ops_respect_protocol(e, ops, cap)) by {
        assert(ops_respect_protocol(e, ops.drop_first().drop_first(), cap));
        assert(apply_op(s1, ops.drop_first()[0], cap) == e);
        assert(ops_respect_protocol(s1, ops.drop_first(), cap));
        assert(apply_op(e, ops[0], cap) == s1);
    }
    assert(apply_op(e, ops[0], cap) == s1);
    assert(apply_ops(e, ops, cap) == apply_ops(s1, ops.drop_first(), cap));
    assert(apply_ops(s1, ops.drop_first(), cap) == apply_ops(e, ops.drop_first().drop_first(), cap));
    assert(popped_values(e, ops, cap) =~= seq![v]) by {
        assert(popped_values(e, ops, cap) == popped_values(s1, ops.drop_first(), cap));
        assert(popped_values(s1, ops.drop_first(), cap) == seq![s1[0]] + popped_values(
            e,
            ops.drop_first().drop_first(),
            cap,
        ));
        assert(s1[0] == v);
    }
}

} // verus!
