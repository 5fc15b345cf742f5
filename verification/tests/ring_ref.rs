use spsc_ring::ringbuf_ref::{ErrCode, RingBufRef};
use spsc_ring::wrap_index::Index;

#[test]
fn fresh_ring_is_empty() {
    let rb: RingBufRef<u32, 4> = RingBufRef::new();
    assert!(rb.is_empty());
    assert!(!rb.is_full());
    assert_eq!(rb.len(), 0);
    assert_eq!(rb.capacity(), 4);
    assert!(rb.peek().is_none());
}

#[test]
fn pop_and_peek_on_empty_do_not_mutate() {
    let mut rb: RingBufRef<u32, 4> = RingBufRef::new();
    assert!(matches!(rb.pop(), Err(ErrCode::BuffEmpty)));
    assert!(rb.peek().is_none());
    assert!(rb.is_empty());
    assert_eq!(rb.len(), 0);
    // the ring still works normally afterwards
    assert!(rb.push(7).is_ok());
    assert_eq!(rb.len(), 1);
    assert_eq!(rb.peek(), Some(&7));
}

#[test]
fn full_after_capacity_pushes_and_overflow_rejected() {
    let mut rb: RingBufRef<u32, 4> = RingBufRef::new();
    for v in 0..4u32 {
        assert!(rb.push(v).is_ok());
    }
    assert!(rb.is_full());
    assert_eq!(rb.len(), 4);
    // the fifth push fails and changes nothing
    assert!(matches!(rb.push(99), Err(ErrCode::BuffFull)));
    assert!(rb.is_full());
    assert_eq!(rb.len(), 4);
    assert_eq!(rb.peek(), Some(&0));
}

#[test]
fn len_tracks_pushes_minus_pops() {
    let mut rb: RingBufRef<u32, 4> = RingBufRef::new();
    assert!(rb.push(1).is_ok());
    assert!(rb.push(2).is_ok());
    assert_eq!(rb.len(), 2);
    assert!(rb.pop().is_ok());
    assert_eq!(rb.len(), 1);
    assert!(rb.push(3).is_ok());
    assert!(rb.push(4).is_ok());
    assert_eq!(rb.len(), 3);
    assert!(rb.pop().is_ok());
    assert!(rb.pop().is_ok());
    assert_eq!(rb.len(), 1);
    assert_eq!(rb.peek(), Some(&4));
}

#[test]
fn fifo_order_across_wraparound() {
    // 20 push/pop cycles on capacity 4 exceed the raw index range [0, 8)
    let mut rb: RingBufRef<u32, 4> = RingBufRef::new();
    for v in 0..20u32 {
        assert!(rb.push(v).is_ok());
        assert_eq!(rb.peek(), Some(&v));
        assert!(rb.pop().is_ok());
        assert!(rb.is_empty());
    }
}

#[test]
fn fifo_order_across_wraparound_non_power_of_two() {
    // capacity 5 takes the explicit-wrap path; fill and drain repeatedly so
    // the counters cross the 2*N boundary while the ring is at capacity
    let mut rb: RingBufRef<u32, 5> = RingBufRef::new();
    let mut next_in: u32 = 0;
    let mut next_out: u32 = 0;
    for _round in 0..8 {
        while !rb.is_full() {
            assert!(rb.push(next_in).is_ok());
            next_in += 1;
        }
        assert_eq!(rb.len(), 5);
        assert!(matches!(rb.push(next_in), Err(ErrCode::BuffFull)));
        while !rb.is_empty() {
            assert_eq!(rb.peek(), Some(&next_out));
            assert!(rb.pop().is_ok());
            next_out += 1;
        }
    }
    assert_eq!(next_in, 40);
    assert_eq!(next_out, 40);
}

#[test]
fn stage_then_commit_publishes() {
    let mut rb: RingBufRef<u32, 4> = RingBufRef::new();
    assert!(rb.stage(11).is_ok());
    // a staged value is not visible until committed
    assert!(rb.is_empty());
    assert!(rb.peek().is_none());
    assert!(rb.commit().is_ok());
    assert_eq!(rb.len(), 1);
    assert_eq!(rb.peek(), Some(&11));
}

#[test]
fn stage_twice_overwrites_the_slot() {
    let mut rb: RingBufRef<u32, 4> = RingBufRef::new();
    assert!(rb.stage(1).is_ok());
    assert!(rb.stage(2).is_ok());
    assert!(rb.commit().is_ok());
    assert_eq!(rb.len(), 1);
    assert_eq!(rb.peek(), Some(&2));
}

#[test]
fn stage_and_commit_on_full_ring_fail() {
    let mut rb: RingBufRef<u32, 2> = RingBufRef::new();
    assert!(rb.push(1).is_ok());
    assert!(rb.push(2).is_ok());
    assert!(matches!(rb.stage(3), Err(ErrCode::BuffFull)));
    assert!(matches!(rb.commit(), Err(ErrCode::BuffFull)));
    assert_eq!(rb.len(), 2);
    assert_eq!(rb.peek(), Some(&1));
}

#[test]
fn index_wraps_at_twice_the_capacity() {
    // capacity 3 is not a power of two: the counter folds back at 6
    let idx: Index<3> = Index::new(0);
    let mut idx = idx;
    let mut seen = Vec::new();
    for _ in 0..7 {
        seen.push((idx.get(), idx.mask()));
        idx.wrap_inc();
    }
    assert_eq!(
        seen,
        vec![(0, 0), (1, 1), (2, 2), (3, 0), (4, 1), (5, 2), (0, 0)]
    );
}

#[test]
fn index_distance_measures_stored_items() {
    let mut rd: Index<3> = Index::new(0);
    let mut wr: Index<3> = Index::new(0);
    assert_eq!(wr.wrap_distance(&rd), 0);
    wr.wrap_inc();
    wr.wrap_inc();
    assert_eq!(wr.wrap_distance(&rd), 2);
    rd.wrap_inc();
    assert_eq!(wr.wrap_distance(&rd), 1);
    // advance both across the 2*N boundary
    for _ in 0..4 {
        wr.wrap_inc();
        rd.wrap_inc();
    }
    assert!(wr.get() < rd.get());
    assert_eq!(wr.wrap_distance(&rd), 1);
}

#[test]
fn index_power_of_two_uses_native_wraparound() {
    let mut idx: Index<4> = Index::new(7);
    assert_eq!(idx.get(), 7);
    assert_eq!(idx.mask(), 3);
    idx.wrap_inc();
    assert_eq!(idx.get(), 8);
    assert_eq!(idx.mask(), 0);
}
