//! Single-channel signal with its own flag.
//!
//! The plain form of [`crate::gate::signal::Signal`]: one `locked` flag, one
//! consumer that may park.
use crate::waiter::{BlockingWaiter, ParkWaiter, WaitPhase, Waiter, DEFAULT_SPIN_ITERS};
use vstd::prelude::*;

verus! {

/// A signal that is open while it is not locked.
#[derive(Debug, PartialEq, Eq, Structural)]
pub struct Signal {
    pub locked: bool,
    pub parker: ParkWaiter,
}

impl Default for Signal {
    fn default() -> (s: Self)
        ensures
            s == (Signal { locked: true, parker: ParkWaiter::initial() }),
    {
        Self::new()
    }
}

impl Signal {
    /// A closed signal with the default spin budget.
    pub fn new() -> (s: Self)
        ensures
            s == (Signal { locked: true, parker: ParkWaiter::initial() }),
    {
        Self::with_spin(DEFAULT_SPIN_ITERS)
    }

    /// A closed signal with its own spin budget.
    pub fn with_spin(spin_iters: u32) -> (s: Self)
        ensures
            s == (Signal {
                locked: true,
                parker: ParkWaiter { spin_iters, ..ParkWaiter::initial() },
            }),
    {
        Signal { locked: true, parker: ParkWaiter::with_spin(spin_iters) }
    }

    /// Register the consumer.
    pub fn set_worker(&mut self)
        ensures
            *final(self) == (Signal { parker: old(self).parker.bound(), ..*old(self) }),
    {
        self.parker.set_worker();
    }

    /// Open the signal and wake a parked consumer.
    pub fn release(&mut self)
        ensures
            *final(self) == (Signal { locked: false, parker: old(self).parker.woken() }),
    {
        self.locked = false;
        self.parker.wake();
    }

    /// Close the signal.
    pub fn lock(&mut self)
        ensures
            *final(self) == (Signal { locked: true, ..*old(self) }),
    {
        self.locked = true;
    }

    /// True iff the signal was released since it was last locked.
    pub fn is_open(&self) -> (b: bool)
        ensures
            b == !self.locked,
    {
        !self.locked
    }

    /// One operation of the consumer's wait for the signal to open, which
    /// starts at [`WaitPhase::Entry`]. The wait leaves the signal open.
    pub fn acquire(&mut self, at: WaitPhase) -> (next: WaitPhase)
        requires
            old(self).parker.registered || (at is Entry && !old(self).locked),
        ensures
            (final(self).parker, next) == old(self).parker.probed(at, !old(self).locked),
            final(self).locked == old(self).locked,
    {
        let ready: bool = self.is_open();
        self.parker.wait_until(at, ready)
    }
}

} // verus!
