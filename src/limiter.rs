//! A counting pool of permits that bounds how many directory reads are in
//! progress at once.
use vstd::prelude::*;

verus! {

/// What a limiter holds: how many permits are out, and how many exist.
pub struct LimiterView {
    pub in_use: nat,
    pub capacity: nat,
}

pub struct ConcurrencyLimiter {
    in_use: usize,
    capacity: usize,
}

impl View for ConcurrencyLimiter {
    type V = LimiterView;

    closed spec fn view(&self) -> LimiterView {
        LimiterView { in_use: self.in_use as nat, capacity: self.capacity as nat }
    }
}

impl ConcurrencyLimiter {
    /// The pool's invariant: at least one permit exists, and no more are out
    /// than exist.
    pub open spec fn wf(&self) -> bool {
        &&& self@.capacity >= 1
        &&& self@.in_use <= self@.capacity
    }

    /// A pool of `capacity` permits, none of them out.
    pub fn new(capacity: usize) -> (r: Self)
        requires
            capacity >= 1,
        ensures
            r.wf(),
            r@.capacity == capacity,
            r@.in_use == 0,
    {
        ConcurrencyLimiter { in_use: 0, capacity }
    }

    /// Hands out a permit when one is free. Never more permits are out than
    /// the pool has.
    pub fn try_acquire(&mut self) -> (granted: bool)
        requires
            old(self).wf(),
        ensures
            final(self).wf(),
            granted == (old(self)@.in_use < old(self)@.capacity),
            final(self)@.capacity == old(self)@.capacity,
            final(self)@.in_use == old(self)@.in_use + if granted { 1nat } else { 0nat },
    {
        if self.in_use < self.capacity {
            self.in_use = self.in_use + 1;
            true
        } else {
            false
        }
    }

    /// Returns one permit to the pool.
    pub fn release(&mut self)
        requires
            old(self).wf(),
            old(self)@.in_use > 0,
        ensures
            final(self).wf(),
            final(self)@.capacity == old(self)@.capacity,
            final(self)@.in_use == old(self)@.in_use - 1,
    {
        self.in_use = self.in_use - 1;
    }

    /// How many permits are out.
    pub fn in_use(&self) -> (r: usize)
        ensures
            r == self@.in_use,
    {
        self.in_use
    }

    /// How many permits the pool has.
    pub fn capacity(&self) -> (r: usize)
        ensures
            r == self@.capacity,
    {
        self.capacity
    }

    /// How many permits are free.
    pub fn available(&self) -> (r: usize)
        requires
            self.wf(),
        ensures
            r == self@.capacity - self@.in_use,
    {
        self.capacity - self.in_use
    }
}

} // verus!
