//! Wait/wake backends.
//!
//! A transport never blocks by itself. It holds one waiter per party that may
//! have to wait, tells it to `wake` after each change that party may be
//! waiting for, and leaves the sleeping to the runtime around it:
//!
//! - [`Waiter`] is the common surface: registration and `wake`.
//! - [`BlockingWaiter`] adds the spin-then-park protocol of an OS thread.
//! - [`AsyncWaiter`] adds the arm-then-await protocol of a task.
//!
//! A `wake` that finds somebody waiting leaves a delivery *owed*; the runtime
//! collects it with [`Waiter::settle`] and unparks the thread or notifies the
//! task. A wait is a sequence of single operations: probes of the awaited
//! condition and changes of the waiter. Each takes the protocol from one phase
//! to the next, and the phase says what the runtime does next.
use vstd::prelude::*;

pub mod no_lost_wake;
pub mod noop;
pub mod notify;
pub mod park;

pub use noop::NoopWaiter;
pub use notify::{AwaitPhase, NotifyWaiter, WakeGate};
pub use park::{DeadlinePhase, ParkWaiter, WaitPhase, DEFAULT_SPIN_ITERS};

verus! {

/// Outcome of one pass of a blocking operation: finished with a result, or
/// nothing to do until the awaited condition holds. A pass that has to wait
/// hands back what the next pass needs.
#[derive(Debug, PartialEq, Eq)]
pub enum Step<R, K> {
    Done(R),
    Wait(K),
}

/// Common surface of every backend.
pub trait Waiter: Sized {
    /// A waiter nobody has registered with.
    spec fn initial() -> Self;

    /// True iff whoever waits here can be reached by a wake.
    spec fn registered(self) -> bool;

    /// This waiter after its party has registered.
    spec fn bound(self) -> Self;

    /// This waiter after one wake.
    spec fn woken(self) -> Self;

    /// True iff a wake still has to be delivered by the runtime.
    spec fn owed(self) -> bool;

    /// This waiter after the runtime has collected what was owed.
    spec fn settled(self) -> Self;

    /// Registration survives a wake, and a wake twice is a wake once.
    proof fn wake_is_idempotent(self)
        ensures
            self.woken().woken() == self.woken(),
            self.woken().registered() == self.registered(),
            self.bound().registered(),
            !self.settled().owed(),
    ;

    /// Construct an unregistered waiter.
    fn fresh() -> (w: Self)
        ensures
            w == Self::initial(),
    ;

    /// Register the party that will wait here.
    fn set_worker(&mut self)
        ensures
            *final(self) == old(self).bound(),
    ;

    /// True iff a party has registered, or none has to.
    fn has_worker(&self) -> (b: bool)
        ensures
            b == self.registered(),
    ;

    /// Wake whoever waits here. Callers publish the awaited change first.
    fn wake(&mut self)
        ensures
            *final(self) == old(self).woken(),
    ;

    /// Collect the delivery that a wake has left owed.
    fn settle(&mut self) -> (b: bool)
        ensures
            b == old(self).owed(),
            *final(self) == old(self).settled(),
    ;
}

/// A backend whose party blocks an OS thread.
pub trait BlockingWaiter: Waiter {
    /// The waiter and the phase after phase `at`, where a probe came out as
    /// `ready`.
    spec fn probed(self, at: WaitPhase, ready: bool) -> (Self, WaitPhase);

    /// One operation of a wait, which starts at [`WaitPhase::Entry`] and is
    /// over at [`WaitPhase::Done`]. Only a thread whose condition holds on
    /// entry can do without registration.
    fn wait_until(&mut self, at: WaitPhase, ready: bool) -> (next: WaitPhase)
        requires
            old(self).registered() || (at is Entry && ready),
        ensures
            (*final(self), next) == old(self).probed(at, ready),
    ;
}

/// A backend whose party is a task.
pub trait AsyncWaiter: Waiter {
    /// The waiter is armed as phase `at` expects, with room to arm it once
    /// more where that phase arms it.
    spec fn can_poll(self, at: AwaitPhase) -> bool;

    /// The waiter and the phase after phase `at`, where a probe came out as
    /// `ready`.
    spec fn polled(self, at: AwaitPhase, ready: bool) -> (Self, AwaitPhase);

    /// One operation of a wait, which starts at [`AwaitPhase::Entry`] and is
    /// over at [`AwaitPhase::Done`].
    fn wait_until(&mut self, at: AwaitPhase, ready: bool) -> (next: AwaitPhase)
        requires
            old(self).can_poll(at),
        ensures
            (*final(self), next) == old(self).polled(at, ready),
    ;
}

} // verus!
