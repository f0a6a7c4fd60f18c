//! A waiter for transports that are waited on elsewhere.
//!
//! A composite transport owns the one real waiter and runs its inner rings
//! with [`NoopWaiter`], whose `wake` does nothing. It is neither a
//! [`BlockingWaiter`](super::BlockingWaiter) nor an
//! [`AsyncWaiter`](super::AsyncWaiter): nobody can wait on it.
use super::Waiter;
use vstd::prelude::*;

verus! {

/// Waiter that nobody waits on.
#[derive(Debug, PartialEq, Eq, Structural)]
pub struct NoopWaiter;

impl Default for NoopWaiter {
    fn default() -> (w: Self)
        ensures
            w == NoopWaiter::initial(),
    {
        NoopWaiter
    }
}

impl Waiter for NoopWaiter {
    open spec fn initial() -> Self {
        NoopWaiter
    }

    open spec fn registered(self) -> bool {
        true
    }

    open spec fn bound(self) -> Self {
        self
    }

    open spec fn woken(self) -> Self {
        self
    }

    open spec fn owed(self) -> bool {
        false
    }

    open spec fn settled(self) -> Self {
        self
    }

    proof fn wake_is_idempotent(self) {
    }

    fn fresh() -> Self {
        NoopWaiter
    }

    fn set_worker(&mut self) {
    }

    fn has_worker(&self) -> bool {
        true
    }

    fn wake(&mut self) {
    }

    fn settle(&mut self) -> bool {
        false
    }
}

} // verus!
