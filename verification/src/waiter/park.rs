//! Spin-then-park waiting for an OS thread.
//!
//! The waiting thread probes the awaited condition in phases: once on entry,
//! [`TIGHT_SPIN`] times back to back, `spin_iters` times with a pause, then it
//! announces that it is about to park, probes once more, and from there on
//! probes after every return from `park`. The announcement stays up from the
//! moment it is made until a probe succeeds, and it is made *before* the last
//! probe: a waker that publishes its change too late for that probe finds the
//! announcement and delivers an unpark.
use super::{BlockingWaiter, Waiter};
use vstd::prelude::*;

verus! {

/// Default number of probes with a pause before parking.
pub const DEFAULT_SPIN_ITERS: u32 = 512;

/// Number of probes without a pause.
pub const TIGHT_SPIN: u32 = 64;

/// Where a waiting thread stands. Each phase is one memory operation: a probe
/// of the awaited condition, or a store to the announcement.
#[derive(Debug, Clone, Copy, PartialEq, Eq, Structural)]
pub enum WaitPhase {
    /// Probe: nothing has been tried yet.
    Entry,
    /// Probe; `left` tight probes remain.
    Tight { left: u32 },
    /// Pause, then probe; `left` such probes remain.
    Pause { left: u32 },
    /// Announce that the thread parks.
    Announce,
    /// Probe once more behind the announcement.
    Recheck,
    /// Park, then probe.
    Park,
    /// Take the announcement down.
    Leave,
    /// The condition was seen to hold.
    Done,
}

/// Where a thread stands that waits with a deadline.
#[derive(Debug, Clone, Copy, PartialEq, Eq, Structural)]
pub enum DeadlinePhase {
    /// Probe: nothing has been tried yet.
    Entry,
    /// Probe, then read the clock; `left` tight probes remain.
    Tight { left: u32 },
    /// Pause, probe, then read the clock; `left` such probes remain.
    Pause { left: u32 },
    /// Announce that the thread parks.
    Announce,
    /// Probe once more behind the announcement.
    Recheck,
    /// Read the clock before parking.
    Clock,
    /// Park until the deadline at the latest, then probe.
    Park,
    /// The deadline has passed; take the announcement down.
    Retire,
    /// Probe for the last time.
    LastLook,
    /// The condition holds; take the announcement down.
    Leave,
    /// The condition was seen to hold.
    Done,
    /// The deadline passed and the condition did not hold.
    TimedOut,
}

/// Waiter of one OS thread.
#[derive(Debug, PartialEq, Eq, Structural)]
pub struct ParkWaiter {
    /// The waiting thread has announced that it parks.
    pub parked: bool,
    /// A thread has registered.
    pub registered: bool,
    /// Probes with a pause before parking.
    pub spin_iters: u32,
    /// An unpark has to be delivered to the registered thread.
    pub owed: bool,
}

/// Phase after a probe in phase `at` has failed, for the phases that probe.
pub open spec fn after_miss(spin_iters: u32, at: WaitPhase) -> WaitPhase {
    match at {
        WaitPhase::Entry => WaitPhase::Tight { left: TIGHT_SPIN },
        WaitPhase::Tight { left } => if left > 1 {
            WaitPhase::Tight { left: (left - 1) as u32 }
        } else if spin_iters > 0 {
            WaitPhase::Pause { left: spin_iters }
        } else {
            WaitPhase::Announce
        },
        WaitPhase::Pause { left } => if left > 1 {
            WaitPhase::Pause { left: (left - 1) as u32 }
        } else {
            WaitPhase::Announce
        },
        WaitPhase::Recheck | WaitPhase::Park => WaitPhase::Park,
        _ => at,
    }
}

/// Phase after `at`, where a phase that probes finds the condition as
/// `ready`.
pub open spec fn next_phase(spin_iters: u32, at: WaitPhase, ready: bool) -> WaitPhase {
    match at {
        WaitPhase::Announce => WaitPhase::Recheck,
        WaitPhase::Leave | WaitPhase::Done => WaitPhase::Done,
        _ => if !ready {
            after_miss(spin_iters, at)
        } else if at is Recheck || at is Park {
            WaitPhase::Leave
        } else {
            WaitPhase::Done
        },
    }
}

/// True iff the announcement is up in this phase.
pub open spec fn announced(at: WaitPhase) -> bool {
    at is Recheck || at is Park || at is Leave
}

/// Phase after a probe in phase `at` has failed and the clock said `expired`,
/// for the phases of a wait with a deadline that probe.
pub open spec fn after_deadline_miss(spin_iters: u32, at: DeadlinePhase, expired: bool) -> DeadlinePhase {
    match at {
        DeadlinePhase::Entry => DeadlinePhase::Tight { left: TIGHT_SPIN },
        DeadlinePhase::Tight { left } => if expired {
            DeadlinePhase::TimedOut
        } else if left > 1 {
            DeadlinePhase::Tight { left: (left - 1) as u32 }
        } else if spin_iters > 0 {
            DeadlinePhase::Pause { left: spin_iters }
        } else {
            DeadlinePhase::Announce
        },
        DeadlinePhase::Pause { left } => if expired {
            DeadlinePhase::TimedOut
        } else if left > 1 {
            DeadlinePhase::Pause { left: (left - 1) as u32 }
        } else {
            DeadlinePhase::Announce
        },
        DeadlinePhase::Recheck | DeadlinePhase::Park => DeadlinePhase::Clock,
        DeadlinePhase::LastLook => DeadlinePhase::TimedOut,
        _ => at,
    }
}

/// Phase after `at` in a wait with a deadline, where a phase that probes finds
/// the condition as `ready` and a phase that reads the clock finds `expired`.
pub open spec fn next_deadline_phase(
    spin_iters: u32,
    at: DeadlinePhase,
    ready: bool,
    expired: bool,
) -> DeadlinePhase {
    match at {
        DeadlinePhase::Announce => DeadlinePhase::Recheck,
        DeadlinePhase::Clock => if expired {
            DeadlinePhase::Retire
        } else {
            DeadlinePhase::Park
        },
        DeadlinePhase::Retire => DeadlinePhase::LastLook,
        DeadlinePhase::Leave | DeadlinePhase::Done => DeadlinePhase::Done,
        DeadlinePhase::TimedOut => DeadlinePhase::TimedOut,
        _ => if !ready {
            after_deadline_miss(spin_iters, at, expired)
        } else if at is Recheck || at is Park {
            DeadlinePhase::Leave
        } else {
            DeadlinePhase::Done
        },
    }
}

/// True iff the announcement is up in this phase of a wait with a deadline.
pub open spec fn deadline_announced(at: DeadlinePhase) -> bool {
    at is Recheck || at is Clock || at is Park || at is Retire || at is Leave
}

impl Default for ParkWaiter {
    fn default() -> (w: Self)
        ensures
            w == ParkWaiter::initial(),
    {
        Self::with_spin(DEFAULT_SPIN_ITERS)
    }
}

impl ParkWaiter {
    /// A waiter with its own budget of probes before parking; with 0 the
    /// thread parks right after the tight probes.
    pub fn with_spin(spin_iters: u32) -> (w: Self)
        ensures
            w == (ParkWaiter { parked: false, registered: false, spin_iters, owed: false }),
    {
        ParkWaiter { parked: false, registered: false, spin_iters, owed: false }
    }

    /// One operation of a wait that gives up at a deadline. `ready` is what a
    /// phase that probes has seen, `expired` what a phase that reads the clock
    /// has seen.
    pub fn wait_until_deadline(&mut self, at: DeadlinePhase, ready: bool, expired: bool) -> (next:
        DeadlinePhase)
        requires
            old(self).registered || (at is Entry && ready),
        ensures
            next == next_deadline_phase(old(self).spin_iters, at, ready, expired),
            *final(self) == (ParkWaiter { parked: deadline_announced(next), ..*old(self) }),
    {
        let next: DeadlinePhase = match at {
            DeadlinePhase::Entry => if ready {
                DeadlinePhase::Done
            } else {
                DeadlinePhase::Tight { left: TIGHT_SPIN }
            },
            DeadlinePhase::Tight { left } => if ready {
                DeadlinePhase::Done
            } else if expired {
                DeadlinePhase::TimedOut
            } else if left > 1 {
                DeadlinePhase::Tight { left: left - 1 }
            } else if self.spin_iters > 0 {
                DeadlinePhase::Pause { left: self.spin_iters }
            } else {
                DeadlinePhase::Announce
            },
            DeadlinePhase::Pause { left } => if ready {
                DeadlinePhase::Done
            } else if expired {
                DeadlinePhase::TimedOut
            } else if left > 1 {
                DeadlinePhase::Pause { left: left - 1 }
            } else {
                DeadlinePhase::Announce
            },
            DeadlinePhase::Announce => DeadlinePhase::Recheck,
            DeadlinePhase::Recheck | DeadlinePhase::Park => if ready {
                DeadlinePhase::Leave
            } else {
                DeadlinePhase::Clock
            },
            DeadlinePhase::Clock => if expired {
                DeadlinePhase::Retire
            } else {
                DeadlinePhase::Park
            },
            DeadlinePhase::Retire => DeadlinePhase::LastLook,
            DeadlinePhase::LastLook => if ready {
                DeadlinePhase::Done
            } else {
                DeadlinePhase::TimedOut
            },
            DeadlinePhase::Leave | DeadlinePhase::Done => DeadlinePhase::Done,
            DeadlinePhase::TimedOut => DeadlinePhase::TimedOut,
        };
        self.parked = matches!(
            next,
            DeadlinePhase::Recheck | DeadlinePhase::Clock | DeadlinePhase::Park
                | DeadlinePhase::Retire | DeadlinePhase::Leave
        );
        next
    }
}

impl Waiter for ParkWaiter {
    open spec fn initial() -> Self {
        ParkWaiter { parked: false, registered: false, spin_iters: DEFAULT_SPIN_ITERS, owed: false }
    }

    open spec fn registered(self) -> bool {
        self.registered
    }

    open spec fn bound(self) -> Self {
        ParkWaiter { registered: true, ..self }
    }

    /// A wake reaches the thread iff it has announced that it parks and is
    /// registered.
    open spec fn woken(self) -> Self {
        ParkWaiter { owed: self.owed || (self.parked && self.registered), ..self }
    }

    open spec fn owed(self) -> bool {
        self.owed
    }

    open spec fn settled(self) -> Self {
        ParkWaiter { owed: false, ..self }
    }

    proof fn wake_is_idempotent(self) {
    }

    fn fresh() -> Self {
        Self::with_spin(DEFAULT_SPIN_ITERS)
    }

    fn set_worker(&mut self) {
        self.registered = true;
    }

    fn has_worker(&self) -> bool {
        self.registered
    }

    fn wake(&mut self) {
        if self.parked && self.registered {
            self.owed = true;
        }
    }

    fn settle(&mut self) -> bool {
        let owed: bool = self.owed;
        self.owed = false;
        owed
    }
}

impl BlockingWaiter for ParkWaiter {
    /// A wait ends at the first successful probe; from [`WaitPhase::Announce`]
    /// on, the announcement is taken down first.
    open spec fn probed(self, at: WaitPhase, ready: bool) -> (Self, WaitPhase) {
        let next = next_phase(self.spin_iters, at, ready);
        (ParkWaiter { parked: announced(next), ..self }, next)
    }

    fn wait_until(&mut self, at: WaitPhase, ready: bool) -> WaitPhase {
        let next: WaitPhase = match at {
            WaitPhase::Entry => if ready {
                WaitPhase::Done
            } else {
                WaitPhase::Tight { left: TIGHT_SPIN }
            },
            WaitPhase::Tight { left } => if ready {
                WaitPhase::Done
            } else if left > 1 {
                WaitPhase::Tight { left: left - 1 }
            } else if self.spin_iters > 0 {
                WaitPhase::Pause { left: self.spin_iters }
            } else {
                WaitPhase::Announce
            },
            WaitPhase::Pause { left } => if ready {
                WaitPhase::Done
            } else if left > 1 {
                WaitPhase::Pause { left: left - 1 }
            } else {
                WaitPhase::Announce
            },
            WaitPhase::Announce => WaitPhase::Recheck,
            WaitPhase::Recheck | WaitPhase::Park => if ready {
                WaitPhase::Leave
            } else {
                WaitPhase::Park
            },
            WaitPhase::Leave | WaitPhase::Done => WaitPhase::Done,
        };
        self.parked = matches!(next, WaitPhase::Recheck | WaitPhase::Park | WaitPhase::Leave);
        next
    }
}

} // verus!
