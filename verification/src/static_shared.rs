//! The precursor of [`crate::shared_singleton`]: a shared location whose
//! write side is published with an explicit `commit` and reclaimed with a
//! `release`, guarded by the same producer/consumer ownership tag.

use vstd::prelude::*;

verus! {

/// Which side currently owns the location.
#[derive(Clone, Copy)]
enum Owner {
    Producer,
    Consumer,
}

/// A single shared location with an explicit ownership tag.
pub struct StaticShared<T> {
    owner: Owner,
    slot: Option<T>,
}

impl<T> StaticShared<T> {
    /// Whether the producer side currently owns the location.
    pub closed spec fn producer_owned(self) -> bool {
        self.owner is Producer
    }

    /// What the location holds; `None` until the first write.
    pub closed spec fn stored(self) -> Option<T> {
        self.slot
    }

    /// A fresh location: producer-owned, nothing written yet.
    pub fn new() -> (r: Self)
        ensures
            r.producer_owned(),
            r.stored() is None,
    {
        StaticShared { owner: Owner::Producer, slot: None }
    }

    /// Store a value, allowed only while producer-owned; the tag does not
    /// move.  A refused write hands the value back unchanged.
    pub fn write(&mut self, val: T) -> (r: Result<(), T>)
        ensures
            old(self).producer_owned() ==> {
                &&& r is Ok
                &&& final(self).producer_owned()
                &&& final(self).stored() == Some(val)
            },
            !old(self).producer_owned() ==> {
                &&& r == Err::<(), T>(val)
                &&& *final(self) == *old(self)
            },
    {
        match self.owner {
            Owner::Producer => {
                self.slot = Some(val);
                Ok(())
            },
            Owner::Consumer => Err(val),
        }
    }

    /// Publish the location to the consumer, allowed only while
    /// producer-owned.  The stored value does not move.
    pub fn commit(&mut self) -> (r: Result<(), ()>)
        ensures
            old(self).producer_owned() ==> {
                &&& r is Ok
                &&& !final(self).producer_owned()
                &&& final(self).stored() == old(self).stored()
            },
            !old(self).producer_owned() ==> {
                &&& r is Err
                &&& *final(self) == *old(self)
            },
    {
        match self.owner {
            Owner::Producer => {
                self.owner = Owner::Consumer;
                Ok(())
            },
            Owner::Consumer => Err(()),
        }
    }

    /// Borrow the stored value, allowed only while consumer-owned and once
    /// something has been written.
    pub fn get(&self) -> (r: Option<&T>)
        ensures
            !self.producer_owned() && self.stored() is Some ==> (r matches Some(v)
                && self.stored() == Some(*v)),
            self.producer_owned() || self.stored() is None ==> r is None,
    {
        match self.owner {
            Owner::Consumer => match &self.slot {
                Some(v) => Some(v),
                None => None,
            },
            Owner::Producer => None,
        }
    }

    /// Release the location back to the producer, allowed only while
    /// consumer-owned.  The stored value does not move.
    pub fn release(&mut self) -> (r: Result<(), ()>)
        ensures
            !old(self).producer_owned() ==> {
                &&& r is Ok
                &&& final(self).producer_owned()
                &&& final(self).stored() == old(self).stored()
            },
            old(self).producer_owned() ==> {
                &&& r is Err
                &&& *final(self) == *old(self)
            },
    {
        match self.owner {
            Owner::Consumer => {
                self.owner = Owner::Producer;
                Ok(())
            },
            Owner::Producer => Err(()),
        }
    }
}

} // verus!
