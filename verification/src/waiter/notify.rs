//! Arm-then-await waiting for a task.
//!
//! A task that may suspend first *arms* the wake gate and creates its notification
//! future, then probes the awaited condition once more, and only then awaits.
//! A waker that finds the wake gate disarmed skips the notification: either the
//! task is not waiting, or it will arm later and its probe will see what the
//! waker has published. The wake gate counts live futures, so that a future that
//! is dropped in mid-await disarms exactly once.
use super::{AsyncWaiter, Waiter};
use vstd::prelude::*;

verus! {

/// Where a waiting task stands. Each phase is one operation: a probe of the
/// awaited condition, or a change of the wake gate.
#[derive(Debug, Clone, Copy, PartialEq, Eq, Structural)]
pub enum AwaitPhase {
    /// Probe: nothing has been tried yet.
    Entry,
    /// Arm the wake gate and create the notification future.
    Arm,
    /// Probe once more with the wake gate armed.
    Armed,
    /// Await the notification, which uses up the future and disarms the wake gate.
    Suspended,
    /// Probe after a notification.
    Woken,
    /// Drop the unused future, which disarms the wake gate.
    Leave,
    /// The condition was seen to hold.
    Done,
}

/// True iff a notification future is alive in this phase.
pub open spec fn future_alive(at: AwaitPhase) -> bool {
    at is Armed || at is Suspended || at is Leave
}

/// Count of the live notification futures.
#[derive(Debug, PartialEq, Eq, Structural)]
pub struct WakeGate {
    /// Notification futures alive.
    pub armed: usize,
    /// A notification has to be delivered.
    pub owed: bool,
}

impl WakeGate {
    /// A disarmed gate.
    pub fn new() -> (g: Self)
        ensures
            g == (WakeGate { armed: 0, owed: false }),
    {
        WakeGate { armed: 0, owed: false }
    }

    /// Arm the wake gate for one notification future.
    pub fn notified(&mut self)
        requires
            old(self).armed < usize::MAX,
        ensures
            *final(self) == (WakeGate { armed: (old(self).armed + 1) as usize, ..*old(self) }),
    {
        self.armed = self.armed + 1;
    }

    /// One notification future is gone: it completed, its task returned, or
    /// its task was cancelled.
    pub fn disarm(&mut self)
        requires
            old(self).armed > 0,
        ensures
            *final(self) == (WakeGate { armed: (old(self).armed - 1) as usize, ..*old(self) }),
    {
        self.armed = self.armed - 1;
    }

    /// Notify iff some future is alive.
    pub fn wake(&mut self)
        ensures
            *final(self) == (WakeGate { owed: old(self).owed || old(self).armed > 0, ..*old(self) }),
    {
        if self.armed != 0 {
            self.owed = true;
        }
    }
}

/// Waiter of one task.
#[derive(Debug, PartialEq, Eq, Structural)]
pub struct NotifyWaiter {
    pub inner: WakeGate,
}

impl Default for NotifyWaiter {
    fn default() -> (w: Self)
        ensures
            w == NotifyWaiter::initial(),
    {
        NotifyWaiter { inner: WakeGate::new() }
    }
}

impl NotifyWaiter {
    /// This waiter with `armed` futures alive.
    pub open spec fn with_armed(self, armed: int) -> Self {
        NotifyWaiter { inner: WakeGate { armed: armed as usize, ..self.inner } }
    }

    /// The task was dropped in phase `at`; its future, if it has one, is gone.
    pub fn cancel(&mut self, at: AwaitPhase)
        requires
            future_alive(at) ==> old(self).inner.armed > 0,
        ensures
            *final(self) == (if future_alive(at) {
                old(self).with_armed(old(self).inner.armed - 1)
            } else {
                *old(self)
            }),
    {
        if matches!(at, AwaitPhase::Armed | AwaitPhase::Suspended | AwaitPhase::Leave) {
            self.inner.disarm();
        }
    }
}

impl Waiter for NotifyWaiter {
    open spec fn initial() -> Self {
        NotifyWaiter { inner: WakeGate { armed: 0, owed: false } }
    }

    /// The runtime tracks its tasks itself.
    open spec fn registered(self) -> bool {
        true
    }

    open spec fn bound(self) -> Self {
        self
    }

    open spec fn woken(self) -> Self {
        NotifyWaiter {
            inner: WakeGate { owed: self.inner.owed || self.inner.armed > 0, ..self.inner },
        }
    }

    open spec fn owed(self) -> bool {
        self.inner.owed
    }

    open spec fn settled(self) -> Self {
        NotifyWaiter { inner: WakeGate { owed: false, ..self.inner } }
    }

    proof fn wake_is_idempotent(self) {
    }

    fn fresh() -> Self {
        NotifyWaiter { inner: WakeGate::new() }
    }

    fn set_worker(&mut self) {
    }

    fn has_worker(&self) -> bool {
        true
    }

    fn wake(&mut self) {
        self.inner.wake();
    }

    fn settle(&mut self) -> bool {
        let owed: bool = self.inner.owed;
        self.inner.owed = false;
        owed
    }
}

impl AsyncWaiter for NotifyWaiter {
    open spec fn can_poll(self, at: AwaitPhase) -> bool {
        &&& at is Arm ==> self.inner.armed < usize::MAX
        &&& future_alive(at) ==> self.inner.armed > 0
    }

    /// The wake gate is armed once per future and disarmed when that future is
    /// gone, and the probe that decides whether to suspend runs with the wake gate
    /// armed.
    open spec fn polled(self, at: AwaitPhase, ready: bool) -> (Self, AwaitPhase) {
        match at {
            AwaitPhase::Entry | AwaitPhase::Woken => if ready {
                (self, AwaitPhase::Done)
            } else {
                (self, AwaitPhase::Arm)
            },
            AwaitPhase::Arm => (self.with_armed(self.inner.armed + 1), AwaitPhase::Armed),
            AwaitPhase::Armed => if ready {
                (self, AwaitPhase::Leave)
            } else {
                (self, AwaitPhase::Suspended)
            },
            AwaitPhase::Suspended => (self.with_armed(self.inner.armed - 1), AwaitPhase::Woken),
            AwaitPhase::Leave => (self.with_armed(self.inner.armed - 1), AwaitPhase::Done),
            AwaitPhase::Done => (self, AwaitPhase::Done),
        }
    }

    fn wait_until(&mut self, at: AwaitPhase, ready: bool) -> AwaitPhase {
        match at {
            AwaitPhase::Entry | AwaitPhase::Woken => if ready {
                AwaitPhase::Done
            } else {
                AwaitPhase::Arm
            },
            AwaitPhase::Arm => {
                self.inner.notified();
                AwaitPhase::Armed
            },
            AwaitPhase::Armed => if ready {
                AwaitPhase::Leave
            } else {
                AwaitPhase::Suspended
            },
            AwaitPhase::Suspended => {
                self.inner.disarm();
                AwaitPhase::Woken
            },
            AwaitPhase::Leave => {
                self.inner.disarm();
                AwaitPhase::Done
            },
            AwaitPhase::Done => AwaitPhase::Done,
        }
    }
}

} // verus!
