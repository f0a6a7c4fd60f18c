//! Park/unpark without a flag of its own: the awaited condition lives with the
//! caller.
use crate::waiter::{BlockingWaiter, ParkWaiter, WaitPhase, Waiter};
use vstd::prelude::*;

verus! {

/// Default number of probes with a pause before parking.
pub const DEFAULT_SPIN_ITERS: u32 = 512;

/// One consumer that may park.
#[derive(Debug, PartialEq, Eq, Structural)]
pub struct Park {
    pub waiter: ParkWaiter,
}

impl Default for Park {
    fn default() -> (p: Self)
        ensures
            p.waiter == ParkWaiter::initial(),
    {
        Self::new()
    }
}

impl Park {
    /// A parker with the default spin budget.
    pub fn new() -> (p: Self)
        ensures
            p.waiter == ParkWaiter::initial(),
    {
        Self::with_spin(DEFAULT_SPIN_ITERS)
    }

    /// A parker with its own spin budget; 0 parks right after the tight
    /// probes.
    pub fn with_spin(spin_iters: u32) -> (p: Self)
        ensures
            p.waiter == (ParkWaiter { spin_iters, ..ParkWaiter::initial() }),
    {
        Park { waiter: ParkWaiter::with_spin(spin_iters) }
    }

    /// Register the consumer.
    pub fn set_worker(&mut self)
        ensures
            final(self).waiter == old(self).waiter.bound(),
    {
        self.waiter.set_worker();
    }

    /// True iff a consumer has registered.
    pub fn has_worker(&self) -> (b: bool)
        ensures
            b == self.waiter.registered,
    {
        self.waiter.has_worker()
    }

    /// Wake the consumer if it parks.
    pub fn wake(&mut self)
        ensures
            final(self).waiter == old(self).waiter.woken(),
    {
        self.waiter.wake();
    }

    /// One operation of the consumer's wait, which starts at
    /// [`WaitPhase::Entry`].
    pub fn wait_until(&mut self, at: WaitPhase, ready: bool) -> (next: WaitPhase)
        requires
            old(self).waiter.registered || (at is Entry && ready),
        ensures
            (final(self).waiter, next) == old(self).waiter.probed(at, ready),
    {
        self.waiter.wait_until(at, ready)
    }
}

} // verus!
