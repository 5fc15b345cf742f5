//! Single-producer/single-consumer communication primitives for targets
//! without hardware atomic instructions.
//!
//! The crate provides a family of fixed-capacity structures that a producer
//! and a consumer share under a strict protocol discipline instead of a lock:
//!
//! * [`wrap_index::Index`] — a wraparound counter ranging over twice the
//!   capacity, which distinguishes a full ring from an empty one without any
//!   extra state;
//! * [`ringbuf_ref::RingBufRef`] — a ring buffer with a two-phase
//!   stage/commit write side and a peek/pop read side;
//! * [`ringbuf::RingBuf`] — a by-value ring buffer over copyable items;
//! * [`ringbuf_simple::RingBufSimple`] — the baseline ring buffer that
//!   demands exclusive access for every operation;
//! * [`shared_singleton::SharedSingleton`] and
//!   [`static_shared::StaticShared`] — single-slot handoff cells guarded by
//!   an explicit ownership tag;
//! * [`channel`] — a command queue composed with a pool of payload cells,
//!   exercising the primitives together.
//!
//! Every operation is bounded and non-blocking; `Full`, `Empty` and
//! wrong-owner conditions are reported as values, never raised.

pub mod atomics;
pub mod channel;
pub mod fifo;
pub mod ringbuf;
pub mod ringbuf_ref;
pub mod ringbuf_simple;
pub mod shared_singleton;
pub mod static_shared;
pub mod wrap_index;
