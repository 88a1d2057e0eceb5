//! A fixed-capacity pool of reusable worker slots for the graph
//! backend.
//!
//! A slot stays acquired until the engine confirms its worker has
//! stopped; only then is it released and may serve a new intent.
//! Acquisition never blocks: when every slot is taken the caller gets
//! [`AudioError::PoolExhausted`] at once.

use vstd::prelude::*;

verus! {

use crate::AudioError;

/// A bounded set of worker slots; `true` marks a slot in use.
#[derive(Debug)]
pub struct WorkerPool {
    slots: Vec<bool>,
}

impl WorkerPool {
    /// One flag per slot: `true` while a live handle owns the worker.
    pub closed spec fn spec_slots(self) -> Seq<bool> {
        self.slots@
    }

    /// The fixed number of slots this pool was created with.
    pub open spec fn spec_capacity(self) -> nat {
        self.spec_slots().len()
    }

    /// Whether slot `i` is currently owned by a live handle.
    pub open spec fn slot_in_use(self, i: int) -> bool {
        0 <= i < self.spec_capacity() && self.spec_slots()[i]
    }

    /// Every slot is taken: the next acquisition fails.
    pub open spec fn all_in_use(self) -> bool {
        forall|i: int| 0 <= i < self.spec_capacity() ==> self.spec_slots()[i]
    }

    /// `i` is the lowest-numbered free slot.
    pub open spec fn is_first_free(self, i: int) -> bool {
        &&& 0 <= i < self.spec_capacity()
        &&& !self.spec_slots()[i]
        &&& forall|j: int| 0 <= j < i ==> self.spec_slots()[j]
    }

    /// A pool of `capacity` slots, all free.
    pub fn new(capacity: usize) -> (r: Self)
        ensures
            r.spec_capacity() == capacity,
            forall|i: int| 0 <= i < capacity ==> !r.spec_slots()[i],
    {
        let mut slots: Vec<bool> = Vec::new();
        let mut i: usize = 0;
        while i < capacity
            invariant
                i <= capacity,
                slots@.len() == i,
                forall|j: int| 0 <= j < i ==> !slots@[j],
            decreases capacity - i,
        {
            slots.push(false);
            i += 1;
        }
        WorkerPool { slots }
    }

    /// The fixed number of slots this pool was created with.
    pub fn capacity(&self) -> (r: usize)
        ensures
            r == self.spec_capacity(),
    {
        self.slots.len()
    }

    /// Take the lowest-numbered free slot, or fail immediately with
    /// `PoolExhausted` when every slot is in use. The failure mutates
    /// nothing and is surfaced, never retried.
    pub fn acquire(&mut self) -> (r: Result<usize, AudioError>)
        ensures
            match r {
                Ok(i) => {
                    &&& old(self).is_first_free(i as int)
                    &&& final(self).spec_slots() == old(self).spec_slots().update(i as int, true)
                },
                Err(e) => {
                    &&& e == AudioError::PoolExhausted
                    &&& old(self).all_in_use()
                    &&& *final(self) == *old(self)
                },
            },
            (r is Err) == old(self).all_in_use(),
    {
        let n = self.slots.len();
        let mut i: usize = 0;
        while i < n
            invariant
                self == old(self),
                n == self.slots@.len(),
                i <= n,
                forall|j: int| 0 <= j < i ==> self.slots@[j],
            decreases n - i,
        {
            if !self.slots[i] {
                self.slots[i] = true;
                proof {
                    assert(self.slots@ =~= old(self).slots@.update(i as int, true));
                }
                return Ok(i);
            }
            i += 1;
        }
        Err(AudioError::PoolExhausted)
    }

    /// Give a slot back once the engine has confirmed its worker
    /// stopped; the slot may then serve a new intent.
    pub fn release(&mut self, i: usize)
        requires
            old(self).slot_in_use(i as int),
        ensures
            final(self).spec_slots() == old(self).spec_slots().update(i as int, false),
    {
        self.slots[i] = false;
        proof {
            assert(self.slots@ =~= old(self).slots@.update(i as int, false));
        }
    }
}

} // verus!
