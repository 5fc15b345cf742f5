use spsc_ring::atomics::{AtomicUsize, Ordering};
use spsc_ring::ringbuf::RingBuf;
use spsc_ring::ringbuf_simple::RingBufSimple;

#[test]
fn value_ring_starts_empty() {
    let rb: RingBuf<u32, 5> = RingBuf::new();
    assert!(rb.empty());
    assert!(!rb.full());
    assert_eq!(rb.size(), 0);
    assert_eq!(rb.peek(), None);
}

#[test]
fn value_ring_pop_on_empty_returns_none() {
    let mut rb: RingBuf<u32, 5> = RingBuf::new();
    assert_eq!(rb.pop(), None);
    assert!(rb.empty());
    assert_eq!(rb.size(), 0);
}

#[test]
fn value_ring_push_on_full_hands_value_back() {
    let mut rb: RingBuf<u32, 3> = RingBuf::new();
    assert_eq!(rb.push(10), Ok(()));
    assert_eq!(rb.push(11), Ok(()));
    assert_eq!(rb.push(12), Ok(()));
    assert!(rb.full());
    assert_eq!(rb.push(13), Err(13));
    assert_eq!(rb.size(), 3);
    assert_eq!(rb.peek(), Some(10));
}

#[test]
fn value_ring_fifo_and_wraparound() {
    // capacity 5 is not a power of two; 32 rounds of four pushes and four
    // pops walk the counters far past the doubled index range
    let mut rb: RingBuf<u32, 5> = RingBuf::new();
    for _ in 0..32 {
        for v in 0..4u32 {
            assert!(rb.push(v).is_ok());
        }
        for v in 0..4u32 {
            assert_eq!(rb.pop(), Some(v));
        }
    }
    assert!(rb.empty());
}

#[test]
fn simple_ring_push_pop_round_trip() {
    let mut rb: RingBufSimple<u32, 4> = RingBufSimple::new(0);
    rb.push(4);
    assert_eq!(rb.size(), 1);
    assert_eq!(rb.pop(), 4);
    assert!(rb.empty());
    for v in 0..20u32 {
        rb.push(v);
        assert_eq!(rb.pop(), v);
    }
}

#[test]
fn simple_ring_size_and_full() {
    let mut rb: RingBufSimple<u8, 3> = RingBufSimple::new(0);
    assert!(rb.empty());
    rb.push(1);
    rb.push(2);
    assert_eq!(rb.size(), 2);
    rb.push(3);
    assert!(rb.full());
    assert_eq!(rb.pop(), 1);
    assert_eq!(rb.size(), 2);
    assert_eq!(rb.pop(), 2);
    assert_eq!(rb.pop(), 3);
    assert!(rb.empty());
}

#[test]
fn simple_ring_wrap_and_mask_formulas() {
    // wrap folds a counter back into [0, 2*N), mask into [0, N)
    assert_eq!(RingBufSimple::<u32, 4>::wrap(7), 7);
    assert_eq!(RingBufSimple::<u32, 4>::wrap(8), 0);
    assert_eq!(RingBufSimple::<u32, 4>::wrap(9), 1);
    assert_eq!(RingBufSimple::<u32, 4>::mask(3), 3);
    assert_eq!(RingBufSimple::<u32, 4>::mask(4), 0);
    assert_eq!(RingBufSimple::<u32, 4>::mask(6), 2);
    assert_eq!(RingBufSimple::<u32, 3>::wrap(6), 0);
    assert_eq!(RingBufSimple::<u32, 3>::mask(5), 2);
}

#[test]
fn simple_ring_full_at_wrapped_counters() {
    // drive the counters around the ring so the write counter numerically
    // falls below the read counter, then check the size is still right
    let mut rb: RingBufSimple<u32, 3> = RingBufSimple::new(0);
    for v in 0..3u32 {
        rb.push(v);
    }
    for v in 0..3u32 {
        assert_eq!(rb.pop(), v);
    }
    // read and write counters are both 3 now; three more pushes wrap the
    // write counter to 0 while the read counter stays at 3
    for v in 10..13u32 {
        rb.push(v);
    }
    assert!(rb.full());
    assert_eq!(rb.size(), 3);
    for v in 10..13u32 {
        assert_eq!(rb.pop(), v);
    }
    assert!(rb.empty());
}

#[test]
fn atomic_usize_store_then_load() {
    let mut a = AtomicUsize::new(5);
    assert_eq!(a.load(Ordering::Relaxed), 5);
    a.store(42, Ordering::SeqCst);
    assert_eq!(a.load(Ordering::Acquire), 42);
}
