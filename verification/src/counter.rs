//! The in-flight request counter: a shared gauge of requests currently
//! executing, bounded by the configured concurrency limit. A worker must
//! acquire a slot (an atomic check-then-increment, done under the caller's
//! mutual exclusion) before issuing a request, and releases it exactly once
//! when the request resolves, whatever its outcome.

use vstd::prelude::*;

verus! {

/// Counts requests currently outstanding, never exceeding the limit the
/// counter was created with.
pub struct InFlightCounter {
    in_flight: u32,
    limit: u32,
}

impl InFlightCounter {
    /// How many requests are outstanding right now.
    pub closed spec fn current(&self) -> int {
        self.in_flight as int
    }

    /// The configured concurrency limit.
    pub closed spec fn capacity(&self) -> int {
        self.limit as int
    }

    /// The counter's invariant: the number of outstanding requests never
    /// exceeds the configured limit.
    pub closed spec fn well_formed(&self) -> bool {
        self.in_flight <= self.limit
    }

    /// A fresh counter: nothing is in flight yet.
    pub fn new(limit: u32) -> (c: Self)
        ensures
            c.well_formed(),
            c.current() == 0,
            c.capacity() == limit as int,
    {
        InFlightCounter { in_flight: 0, limit }
    }

    /// Try to claim one concurrency slot. Succeeds exactly when a slot is
    /// free; on success the gauge rises by one, otherwise it is unchanged
    /// and the caller must wait and try again. Either way the gauge stays
    /// within the limit.
    pub fn try_acquire(&mut self) -> (acquired: bool)
        requires
            old(self).well_formed(),
        ensures
            final(self).well_formed(),
            final(self).capacity() == old(self).capacity(),
            acquired == (old(self).current() < old(self).capacity()),
            acquired ==> final(self).current() == old(self).current() + 1,
            !acquired ==> final(self).current() == old(self).current(),
    {
        if self.in_flight < self.limit {
            self.in_flight = self.in_flight + 1;
            true
        } else {
            false
        }
    }

    /// Give a slot back once the request has resolved. Called exactly once
    /// per dispatched attempt, whatever the outcome.
    pub fn release(&mut self)
        requires
            old(self).well_formed(),
            old(self).current() > 0,
        ensures
            final(self).well_formed(),
            final(self).capacity() == old(self).capacity(),
            final(self).current() == old(self).current() - 1,
    {
        self.in_flight = self.in_flight - 1;
    }

    /// Read the gauge, for diagnostics.
    pub fn current_count(&self) -> (n: u32)
        ensures
            n as int == self.current(),
    {
        self.in_flight
    }

    /// Read the configured limit.
    pub fn limit(&self) -> (n: u32)
        ensures
            n as int == self.capacity(),
    {
        self.limit
    }
}

} // verus!
