//! The shared concurrency limiter: a counting permit pool sized to the
//! configured concurrency, never below one.

use vstd::prelude::*;

verus! {

/// A counting permit pool. Every transfer holds one permit while it moves
/// network data and hands it back when it finishes.
pub struct Limiter {
    pub available: usize,
    pub capacity: usize,
}

impl Limiter {
    /// The pool never hands out more than its capacity, and the capacity is
    /// at least one.
    pub open spec fn wf(&self) -> bool {
        self.available <= self.capacity && self.capacity >= 1
    }

    /// How many permits are held right now.
    pub open spec fn active(&self) -> int {
        self.capacity - self.available
    }

    /// A pool sized to the configured concurrency, at least one.
    pub fn new(concurrency: usize) -> (r: Self)
        ensures
            r.wf(),
            r.capacity == if concurrency >= 1 {
                concurrency as int
            } else {
                1
            },
            r.available == r.capacity,
    {
        let cap = if concurrency >= 1 {
            concurrency
        } else {
            1
        };
        Limiter { available: cap, capacity: cap }
    }

    /// Takes a permit when one is free; reports whether one was granted.
    pub fn try_acquire(&mut self) -> (got: bool)
        requires
            old(self).wf(),
        ensures
            final(self).wf(),
            final(self).capacity == old(self).capacity,
            got == (old(self).available > 0),
            got ==> final(self).available == old(self).available - 1,
            !got ==> final(self).available == old(self).available,
    {
        if self.available > 0 {
            self.available = self.available - 1;
            true
        } else {
            false
        }
    }

    /// Returns a permit to the pool.
    pub fn release(&mut self)
        requires
            old(self).wf(),
            old(self).available < old(self).capacity,
        ensures
            final(self).wf(),
            final(self).capacity == old(self).capacity,
            final(self).available == old(self).available + 1,
    {
        self.available = self.available + 1;
    }
}

/// Law: with the pool well formed, the number of held permits never exceeds
/// the configured capacity — no more executors move network data at once
/// than the concurrency allows.
pub proof fn lemma_active_at_most_capacity(l: Limiter)
    requires
        l.wf(),
    ensures
        0 <= l.active() <= l.capacity,
{
}

} // verus!
