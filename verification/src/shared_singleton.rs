//! The single-slot ownership-handoff cell.
//!
//! A `SharedSingleton<T>` holds one value and an explicit ownership tag.
//! The side named by the tag is the only side allowed to touch the slot:
//! the producer writes and then hands the cell to the consumer, the
//! consumer reads and then returns it.  The opposite side is allowed only
//! the operation that flips the tag toward it, and an operation attempted
//! by the wrong side fails without changing anything.  Unlike a borrow
//! checker or a lock, nothing here blocks: the tag alone carries the
//! exclusive-access discipline.

use vstd::prelude::*;

verus! {

/// Which side currently owns the slot.
#[derive(Clone, Copy)]
enum Owner {
    Producer,
    Consumer,
}

/// A single shared slot with an explicit ownership tag.  The cell starts
/// producer-owned and empty; it cannot be read until the producer has
/// written it and handed it over.
pub struct SharedSingleton<T> {
    owner: Owner,
    slot: Option<T>,
}

impl<T> SharedSingleton<T> {
    /// Whether the producer side currently owns the slot.
    pub closed spec fn producer_owned(self) -> bool {
        self.owner is Producer
    }

    /// What the slot holds; `None` until the first write.
    pub closed spec fn stored(self) -> Option<T> {
        self.slot
    }

    /// A fresh cell: producer-owned, nothing written yet.
    pub fn new() -> (r: Self)
        ensures
            r.producer_owned(),
            r.stored() is None,
    {
        SharedSingleton { owner: Owner::Producer, slot: None }
    }

    /// Whether the producer currently owns the slot.
    pub fn is_producer_owned(&self) -> (r: bool)
        ensures
            r == self.producer_owned(),
    {
        match self.owner {
            Owner::Producer => true,
            Owner::Consumer => false,
        }
    }

    /// Whether the consumer currently owns the slot.
    pub fn is_consumer_owned(&self) -> (r: bool)
        ensures
            r == !self.producer_owned(),
    {
        !self.is_producer_owned()
    }

    /// Store a value, allowed only while producer-owned; the tag does not
    /// move.  A refused write hands the value back unchanged.
    pub fn write(&mut self, val: T) -> (r: Result<(), T>)
        ensures
            old(self).producer_owned() ==> {
                &&& r is Ok
                &&& final(self).producer_owned()
                &&& final(self).stored() == Some(val)
            },
            !old(self).producer_owned() ==> {
                &&& r == Err::<(), T>(val)
                &&& *final(self) == *old(self)
            },
    {
        if self.is_producer_owned() {
            self.slot = Some(val);
            Ok(())
        } else {
            Err(val)
        }
    }

    /// Hand the slot to the consumer, allowed only while producer-owned.
    /// The stored value does not move.
    pub fn pass_to_consumer(&mut self) -> (r: Result<(), ()>)
        ensures
            old(self).producer_owned() ==> {
                &&& r is Ok
                &&& !final(self).producer_owned()
                &&& final(self).stored() == old(self).stored()
            },
            !old(self).producer_owned() ==> {
                &&& r is Err
                &&& *final(self) == *old(self)
            },
    {
        if self.is_producer_owned() {
            self.owner = Owner::Consumer;
            Ok(())
        } else {
            Err(())
        }
    }

    /// Borrow the stored value, allowed only while consumer-owned and once
    /// something has been written.
    pub fn read(&self) -> (r: Option<&T>)
        ensures
            !self.producer_owned() && self.stored() is Some ==> (r matches Some(v)
                && self.stored() == Some(*v)),
            self.producer_owned() || self.stored() is None ==> r is None,
    {
        if self.is_consumer_owned() {
            match &self.slot {
                Some(v) => Some(v),
                None => None,
            }
        } else {
            None
        }
    }

    /// Return the slot to the producer, allowed only while consumer-owned.
    /// The stored value does not move.
    pub fn return_to_producer(&mut self) -> (r: Result<(), ()>)
        ensures
            !old(self).producer_owned() ==> {
                &&& r is Ok
                &&& final(self).producer_owned()
                &&& final(self).stored() == old(self).stored()
            },
            old(self).producer_owned() ==> {
                &&& r is Err
                &&& *final(self) == *old(self)
            },
    {
        if self.is_consumer_owned() {
            self.owner = Owner::Producer;
            Ok(())
        } else {
            Err(())
        }
    }
}

} // verus!
