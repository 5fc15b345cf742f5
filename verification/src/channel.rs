//! A command channel composed from the primitives: one command ring and a
//! ping-pong pair of payload cells.
//!
//! The producer writes a payload into an ownership cell, hands the cell to
//! the consumer, and only then commits a command that names the cell, so a
//! published command never points at a payload the consumer does not own.
//! The consumer drains the ring, returning each named payload cell before
//! popping its command.  The channel invariant — every queued command names
//! a distinct consumer-owned payload slot, and every consumer-owned slot is
//! named by exactly one queued command — is proved here once and for all,
//! which is why the consumer needs no run-time check that a command's
//! payload is in the expected state.

use vstd::prelude::*;
use vstd::seq_lib::*;
use crate::ringbuf_ref::RingBufRef;
use crate::shared_singleton::SharedSingleton;

verus! {

/// Depth of the command ring of one channel.
pub const CMD_Q_DEPTH: usize = 4;

/// Number of payload cells of one channel; the producer ping-pongs between
/// them.
pub const CMD_PAYLOAD_DEPTH: usize = 2;

/// The one command type the example protocol issues.
pub const CMD_TYPE_PROCESS: u32 = 0;

/// A packed command header: bits `2..=0` carry the command type, bit `3`
/// the index of the payload cell the command refers to.
#[derive(Clone, Copy)]
pub struct Header {
    bits: u32,
}

impl Header {
    /// The packed word.
    pub closed spec fn spec_bits(self) -> u32 {
        self.bits
    }

    /// The command type, bits `2..=0`.
    pub open spec fn spec_cmd_type(self) -> u32 {
        self.spec_bits() & 0x7
    }

    /// The payload-cell index, bit `3`.
    pub open spec fn spec_cfg_idx(self) -> u32 {
        (self.spec_bits() >> 3) & 0x1
    }

    /// A header from a packed word.
    pub fn new(bits: u32) -> (r: Self)
        ensures
            r.spec_bits() == bits,
    {
        Header { bits }
    }

    /// Read the command type.
    pub fn cmd_type(&self) -> (r: u32)
        ensures
            r == self.spec_cmd_type(),
    {
        self.bits & 0x7
    }

    /// Read the payload-cell index.
    pub fn cfg_idx(&self) -> (r: u32)
        ensures
            r == self.spec_cfg_idx(),
    {
        (self.bits >> 3) & 0x1
    }

    /// Set the command type to the low three bits of `v`; the payload-cell
    /// index is untouched.
    pub fn set_cmd_type(&mut self, v: u32)
        ensures
            final(self).spec_cmd_type() == v & 0x7,
            final(self).spec_cfg_idx() == old(self).spec_cfg_idx(),
    {
        let bits = (self.bits & !0x7u32) | (v & 0x7);
        proof {
            let b = self.bits;
            assert(((b & !0x7u32) | (v & 0x7)) & 0x7 == v & 0x7) by (bit_vector);
            assert((((b & !0x7u32) | (v & 0x7)) >> 3) & 0x1 == (b >> 3) & 0x1) by (bit_vector);
        }
        self.bits = bits;
    }

    /// Set the payload-cell index to the low bit of `v`; the command type
    /// is untouched.
    pub fn set_cfg_idx(&mut self, v: u32)
        ensures
            final(self).spec_cfg_idx() == v & 0x1,
            final(self).spec_cmd_type() == old(self).spec_cmd_type(),
    {
        let bits = (self.bits & !0x8u32) | ((v & 0x1) << 3);
        proof {
            let b = self.bits;
            assert((((b & !0x8u32) | ((v & 0x1) << 3)) >> 3) & 0x1 == v & 0x1) by (bit_vector);
            assert(((b & !0x8u32) | ((v & 0x1) << 3)) & 0x7 == b & 0x7) by (bit_vector);
        }
        self.bits = bits;
    }
}

/// A packed timestamp word: bits `2..=0` the unit slot, bits `9..=3` the
/// slot, bits `31..=10` the system frame number.
#[derive(Clone, Copy)]
pub struct SysTime {
    bits: u32,
}

impl SysTime {
    /// The packed word.
    pub closed spec fn spec_bits(self) -> u32 {
        self.bits
    }

    /// The unit slot, bits `2..=0`.
    pub open spec fn spec_unit_slot(self) -> u32 {
        self.spec_bits() & 0x7
    }

    /// The slot, bits `9..=3`.
    pub open spec fn spec_slot(self) -> u32 {
        (self.spec_bits() >> 3) & 0x7f
    }

    /// The system frame number, bits `31..=10`.
    pub open spec fn spec_sfn(self) -> u32 {
        (self.spec_bits() >> 10) & 0x3fffff
    }

    /// A timestamp from a packed word.
    pub fn new(bits: u32) -> (r: Self)
        ensures
            r.spec_bits() == bits,
    {
        SysTime { bits }
    }

    /// Read the unit slot.
    pub fn unit_slot(&self) -> (r: u32)
        ensures
            r == self.spec_unit_slot(),
    {
        self.bits & 0x7
    }

    /// Read the slot.
    pub fn slot(&self) -> (r: u32)
        ensures
            r == self.spec_slot(),
    {
        (self.bits >> 3) & 0x7f
    }

    /// Read the system frame number.
    pub fn sfn(&self) -> (r: u32)
        ensures
            r == self.spec_sfn(),
    {
        (self.bits >> 10) & 0x3fffff
    }

    /// Read the whole packed word.
    pub fn all(&self) -> (r: u32)
        ensures
            r == self.spec_bits(),
    {
        self.bits
    }

    /// Set the unit slot to the low three bits of `v`; the other fields are
    /// untouched.
    pub fn set_unit_slot(&mut self, v: u32)
        ensures
            final(self).spec_unit_slot() == v & 0x7,
            final(self).spec_slot() == old(self).spec_slot(),
            final(self).spec_sfn() == old(self).spec_sfn(),
    {
        let bits = (self.bits & !0x7u32) | (v & 0x7);
        proof {
            let b = self.bits;
            assert(((b & !0x7u32) | (v & 0x7)) & 0x7 == v & 0x7) by (bit_vector);
            assert((((b & !0x7u32) | (v & 0x7)) >> 3) & 0x7f == (b >> 3) & 0x7f) by (bit_vector);
            assert((((b & !0x7u32) | (v & 0x7)) >> 10) & 0x3fffff == (b >> 10) & 0x3fffff)
                by (bit_vector);
        }
        self.bits = bits;
    }

    /// Set the slot to the low seven bits of `v`; the other fields are
    /// untouched.
    pub fn set_slot(&mut self, v: u32)
        ensures
            final(self).spec_slot() == v & 0x7f,
            final(self).spec_unit_slot() == old(self).spec_unit_slot(),
            final(self).spec_sfn() == old(self).spec_sfn(),
    {
        let bits = (self.bits & !0x3f8u32) | ((v & 0x7f) << 3);
        proof {
            let b = self.bits;
            assert((((b & !0x3f8u32) | ((v & 0x7f) << 3)) >> 3) & 0x7f == v & 0x7f)
                by (bit_vector);
            assert(((b & !0x3f8u32) | ((v & 0x7f) << 3)) & 0x7 == b & 0x7) by (bit_vector);
            assert((((b & !0x3f8u32) | ((v & 0x7f) << 3)) >> 10) & 0x3fffff == (b >> 10)
                & 0x3fffff) by (bit_vector);
        }
        self.bits = bits;
    }

    /// Set the system frame number to the low 22 bits of `v`; the other
    /// fields are untouched.
    pub fn set_sfn(&mut self, v: u32)
        ensures
            final(self).spec_sfn() == v & 0x3fffff,
            final(self).spec_unit_slot() == old(self).spec_unit_slot(),
            final(self).spec_slot() == old(self).spec_slot(),
    {
        let bits = (self.bits & 0x3ffu32) | ((v & 0x3fffff) << 10);
        proof {
            let b = self.bits;
            assert((((b & 0x3ffu32) | ((v & 0x3fffff) << 10)) >> 10) & 0x3fffff == v & 0x3fffff)
                by (bit_vector);
            assert(((b & 0x3ffu32) | ((v & 0x3fffff) << 10)) & 0x7 == b & 0x7) by (bit_vector);
            assert((((b & 0x3ffu32) | ((v & 0x3fffff) << 10)) >> 3) & 0x7f == (b >> 3) & 0x7f)
                by (bit_vector);
        }
        self.bits = bits;
    }

    /// Replace the whole packed word.
    pub fn set_all(&mut self, v: u32)
        ensures
            final(self).spec_bits() == v,
    {
        self.bits = v;
    }
}

/// A queued command: a packed header and a timestamp word.
#[derive(Clone, Copy)]
pub struct Command {
    pub header: Header,
    pub sys_time: SysTime,
}

/// The nested payload body.
pub struct SubCfg {
    pub sub_cfg_arr: [i32; 4],
}

/// The payload a command refers to, held in an ownership cell.
pub struct Cfg {
    pub id: u32,
    pub sub_cfg: SubCfg,
}

/// How many of the queued commands name payload cell `i`.
pub open spec fn payload_refs(cmds: Seq<Command>, i: int) -> nat
    decreases cmds.len(),
{
    if cmds.len() == 0 {
        0
    } else {
        (if cmds[0].header.spec_cfg_idx() == i {
            1nat
        } else {
            0nat
        }) + payload_refs(cmds.drop_first(), i)
    }
}

/// Appending a command adds its own payload reference and no other.
proof fn lemma_payload_refs_push(cmds: Seq<Command>, c: Command, i: int)
    ensures
        payload_refs(cmds.push(c), i) == payload_refs(cmds, i) + (if c.header.spec_cfg_idx()
            == i {
            1nat
        } else {
            0nat
        }),
    decreases cmds.len(),
{
    if cmds.len() == 0 {
        assert(cmds.push(c).drop_first() =~= Seq::<Command>::empty());
        assert(cmds.push(c)[0] == c);
        assert(payload_refs(Seq::<Command>::empty(), i) == 0);
        assert(payload_refs(cmds, i) == 0);
    } else {
        assert(cmds.push(c).drop_first() =~= cmds.drop_first().push(c));
        assert(cmds.push(c)[0] == cmds[0]);
        lemma_payload_refs_push(cmds.drop_first(), c, i);
    }
}

/// One channel: a command ring and its two payload cells.
pub struct Interface {
    cmd_q: RingBufRef<Command, CMD_Q_DEPTH>,
    payload0: SharedSingleton<Cfg>,
    payload1: SharedSingleton<Cfg>,
}

/// The producer's private bookkeeping: an iteration counter feeding the
/// timestamps and the payload cell it used last.
pub struct ProducerState {
    iter: u32,
    last_cfg_idx: u32,
}

impl ProducerState {
    /// The iteration counter.
    pub closed spec fn spec_iter(self) -> u32 {
        self.iter
    }

    /// The payload cell used by the latest production, `0` or `1`.
    pub closed spec fn last(self) -> u32 {
        self.last_cfg_idx
    }

    /// The remembered cell index is one of the two cells.
    pub open spec fn wf(self) -> bool {
        self.last() <= 1
    }

    /// Fresh producer bookkeeping.  The remembered index starts at `1` so
    /// that the first production targets cell `0`.
    pub fn new() -> (r: Self)
        ensures
            r.wf(),
            r.spec_iter() == 0,
            r.last() == 1,
    {
        ProducerState { iter: 0, last_cfg_idx: 1 }
    }

    /// Read the iteration counter.
    pub fn iter_count(&self) -> (r: u32)
        ensures
            r == self.spec_iter(),
    {
        self.iter
    }
}

impl Interface {
    /// The queued commands, oldest first.
    pub closed spec fn cmds(self) -> Seq<Command> {
        self.cmd_q@
    }

    /// Whether payload cell `i` is currently consumer-owned.
    pub closed spec fn payload_consumer_owned(self, i: int) -> bool {
        if i == 0 {
            !self.payload0.producer_owned()
        } else {
            !self.payload1.producer_owned()
        }
    }

    /// What payload cell `i` holds.
    pub closed spec fn payload_stored(self, i: int) -> Option<Cfg> {
        if i == 0 {
            self.payload0.stored()
        } else {
            self.payload1.stored()
        }
    }

    /// The channel invariant: the ring is well formed, and each payload
    /// cell is consumer-owned exactly when exactly one queued command names
    /// it.
    pub closed spec fn wf(self) -> bool {
        &&& self.cmd_q.wf()
        &&& forall|i: int|
            0 <= i < 2 ==> payload_refs(self.cmds(), i) == (if self.payload_consumer_owned(i) {
                1nat
            } else {
                0nat
            })
    }

    /// A fresh channel: empty ring, both payload cells producer-owned and
    /// unwritten.
    pub fn new() -> (r: Self)
        ensures
            r.wf(),
            r.cmds().len() == 0,
            forall|i: int| 0 <= i < 2 ==> !r.payload_consumer_owned(i),
            forall|i: int| 0 <= i < 2 ==> r.payload_stored(i) is None,
    {
        let r = Interface {
            cmd_q: RingBufRef::new(),
            payload0: SharedSingleton::new(),
            payload1: SharedSingleton::new(),
        };
        r
    }

    /// The number of queued commands.
    pub fn cmd_len(&self) -> (r: usize)
        requires
            self.wf(),
        ensures
            r == self.cmds().len(),
    {
        self.cmd_q.len()
    }

    /// Whether payload cell `idx` is currently consumer-owned.
    pub fn payload_is_consumer_owned(&self, idx: usize) -> (r: bool)
        requires
            idx < 2,
        ensures
            r == self.payload_consumer_owned(idx as int),
    {
        if idx == 0 {
            self.payload0.is_consumer_owned()
        } else {
            self.payload1.is_consumer_owned()
        }
    }

    /// One production opportunity.  The payload cell opposite the last used
    /// one is selected; if it is still consumer-owned the opportunity is
    /// dropped (backpressure — no error, the caller's scheduler will call
    /// again), and likewise if the command ring is full.  Otherwise the
    /// payload is written and handed to the consumer strictly before the
    /// command naming it is committed.
    pub fn producer_step(&mut self, state: &mut ProducerState) -> (produced: bool)
        requires
            old(self).wf(),
            old(state).wf(),
        ensures
            final(self).wf(),
            final(state).wf(),
            ({
                let sel = 1 - old(state).last();
                let iter = old(state).spec_iter();
                if old(self).payload_consumer_owned(sel as int) || old(self).cmds().len()
                    == CMD_Q_DEPTH {
                    &&& !produced
                    &&& *final(self) == *old(self)
                    &&& final(state).last() == old(state).last()
                    &&& final(state).spec_iter() == iter.wrapping_add(1)
                } else {
                    &&& produced
                    &&& final(self).cmds().len() == old(self).cmds().len() + 1
                    &&& final(self).cmds().drop_last() == old(self).cmds()
                    &&& final(self).cmds().last().header.spec_cfg_idx() == sel
                    &&& final(self).cmds().last().header.spec_cmd_type() == CMD_TYPE_PROCESS
                    &&& final(self).cmds().last().sys_time.spec_slot() == iter & 0x7f
                    &&& final(self).cmds().last().sys_time.spec_sfn() == (iter >> 7) & 0x3fffff
                    &&& final(self).payload_consumer_owned(sel as int)
                    &&& final(self).payload_consumer_owned(
                        old(state).last() as int,
                    ) == old(self).payload_consumer_owned(old(state).last() as int)
                    &&& final(self).payload_stored(sel as int) matches Some(cfg) && cfg.id
                        == iter.wrapping_add(1) && cfg.sub_cfg.sub_cfg_arr@[0]
                        == #[verifier::truncate] (iter as i32)
                    &&& final(state).last() == sel
                    &&& final(state).spec_iter() == iter.wrapping_add(2)
                }
            }),
    {
        let sel: u32 = 1 - state.last_cfg_idx;
        let busy = if sel == 0 {
            self.payload0.is_consumer_owned()
        } else {
            self.payload1.is_consumer_owned()
        };
        if busy {
            state.iter = state.iter.wrapping_add(1);
            return false;
        }
        if self.cmd_q.is_full() {
            state.iter = state.iter.wrapping_add(1);
            return false;
        }

        // Build the command: type, payload-cell index, timestamp.
        let mut header = Header::new(0);
        header.set_cmd_type(CMD_TYPE_PROCESS);
        header.set_cfg_idx(sel);
        let mut sys_time = SysTime::new(0);
        sys_time.set_slot(state.iter);
        sys_time.set_sfn(state.iter >> 7);
        let cmd = Command { header, sys_time };
        proof {
            assert(cmd.header.spec_cfg_idx() == sel) by {
                let s = sel;
                assert(s <= 1 ==> s & 0x1 == s) by (bit_vector);
            }
        }

        proof {
            self.cmd_q.lemma_len_bound();
            assert(cmd.header.spec_cmd_type() == CMD_TYPE_PROCESS) by {
                assert(0u32 & 0x7u32 == 0u32) by (bit_vector);
            }
        }
        // Stage the command in the ring's write slot.
        let staged = self.cmd_q.stage(cmd);
        proof {
            assert(staged is Ok);
        }

        // Fill the payload and hand its cell to the consumer before the
        // command that names it becomes visible.
        let cfg = Cfg {
            id: state.iter.wrapping_add(1),
            sub_cfg: SubCfg { sub_cfg_arr: [#[verifier::truncate] (state.iter as i32), 0, 0, 0] },
        };
        let wrote = if sel == 0 {
            self.payload0.write(cfg)
        } else {
            self.payload1.write(cfg)
        };
        proof {
            assert(wrote is Ok);
        }
        let handed = if sel == 0 {
            self.payload0.pass_to_consumer()
        } else {
            self.payload1.pass_to_consumer()
        };
        proof {
            assert(handed is Ok);
        }
        state.last_cfg_idx = sel;
        state.iter = state.iter.wrapping_add(1);

        // Publish the command.
        let committed = self.cmd_q.commit();
        proof {
            assert(committed is Ok);
        }
        state.iter = state.iter.wrapping_add(1);
        proof {
            let oldc = old(self).cmds();
            assert(self.cmds() == oldc.push(cmd));
            assert(self.cmds().drop_last() =~= oldc);
            assert forall|i: int| 0 <= i < 2 implies payload_refs(self.cmds(), i) == (
            if self.payload_consumer_owned(i) {
                1nat
            } else {
                0nat
            }) by {
                lemma_payload_refs_push(oldc, cmd, i);
            }
        }
        true
    }

    /// Drain every queued command, oldest first.  For each command the
    /// payload cell it names is returned to the producer — the channel
    /// invariant proves the cell is consumer-owned, so no run-time check is
    /// needed — and then the command is popped.  The drained commands are
    /// handed back in issuance order.
    pub fn consumer_step(&mut self) -> (drained: Vec<Command>)
        requires
            old(self).wf(),
        ensures
            final(self).wf(),
            drained@ == old(self).cmds(),
            final(self).cmds().len() == 0,
            forall|i: int| 0 <= i < 2 ==> !final(self).payload_consumer_owned(i),
            forall|i: int|
                0 <= i < 2 ==> final(self).payload_stored(i) == old(self).payload_stored(i),
    {
        let mut drained: Vec<Command> = Vec::new();
        while !self.cmd_q.is_empty()
            invariant
                self.wf(),
                old(self).cmds() == drained@ + self.cmds(),
                forall|i: int|
                    0 <= i < 2 ==> self.payload_stored(i) == old(self).payload_stored(i),
            decreases self.cmds().len(),
        {
            match self.cmd_q.peek() {
                Some(cref) => {
                    let c: Command = *cref;
                    let idx = c.header.cfg_idx();
                    proof {
                        let b = c.header.spec_bits();
                        assert((b >> 3) & 0x1 <= 1) by (bit_vector);
                        // the head command names cell `idx`, so the
                        // reference count of that cell is positive and the
                        // invariant makes it consumer-owned
                        assert(payload_refs(self.cmds(), idx as int) >= 1);
                        assert(self.payload_consumer_owned(idx as int));
                    }
                    let returned = if idx == 0 {
                        self.payload0.return_to_producer()
                    } else {
                        self.payload1.return_to_producer()
                    };
                    proof {
                        assert(returned is Ok);
                    }
                    let ghost before = self.cmds();
                    let popped = self.cmd_q.pop();
                    proof {
                        assert(popped is Ok);
                    }
                    drained.push(c);
                    proof {
                        assert(old(self).cmds() =~= drained@ + self.cmds());
                        assert forall|i: int| 0 <= i < 2 implies payload_refs(self.cmds(), i)
                            == (if self.payload_consumer_owned(i) {
                            1nat
                        } else {
                            0nat
                        }) by {
                            assert(payload_refs(before, i) == (if before[0].header.spec_cfg_idx()
                                == i {
                                1nat
                            } else {
                                0nat
                            }) + payload_refs(before.drop_first(), i));
                            assert(self.cmds() == before.drop_first());
                        }
                    }
                },
                None => {
                    proof {
                        assert(false);
                    }
                },
            }
        }
        proof {
            assert(old(self).cmds() =~= drained@);
            assert forall|i: int| 0 <= i < 2 implies !self.payload_consumer_owned(i) by {
                assert(payload_refs(self.cmds(), i) == 0);
            }
        }
        drained
    }
}

} // verus!
