//! Single-use signal without a payload.
//!
//! A [`Sender`] either releases the signal or is dropped; a [`Receiver`] waits
//! for one of the two, with or without a deadline.
use crate::waiter::{AsyncWaiter, BlockingWaiter, ParkWaiter, Step, Waiter};
use core::marker::PhantomData;
use vstd::prelude::*;

verus! {

/// What has become of the signal.
#[derive(Debug, Clone, Copy, PartialEq, Eq, Structural)]
pub enum OneState {
    /// The sender has done nothing yet.
    Pending,
    /// The sender has released the signal.
    Released,
    /// The sender is gone and never released the signal.
    Closed,
}

/// Why a wait did not end with a release.
#[derive(Debug, Clone, Copy, PartialEq, Eq, Structural)]
pub enum AcquireError {
    /// The sender is gone and never released the signal.
    Closed,
    /// The deadline passed first.
    TimedOut,
}

/// State that sender and receiver share.
pub struct OneSignal<W: Waiter = ParkWaiter> {
    pub state: OneState,
    pub waiter: W,
}

impl<W: Waiter> OneSignal<W> {
    /// A pending signal with its unique sender and receiver.
    pub fn new() -> (r: (Self, Sender<W>, Receiver<W>))
        ensures
            r.0.state is Pending,
            r.0.waiter == W::initial(),
    {
        (
            OneSignal { state: OneState::Pending, waiter: W::fresh() },
            Sender { shared: PhantomData },
            Receiver { shared: PhantomData },
        )
    }

    /// What a receiver waits for.
    pub fn is_settled(&self) -> (b: bool)
        ensures
            b == !(self.state is Pending),
    {
        self.state != OneState::Pending
    }
}

/// The side that releases, once.
pub struct Sender<W: Waiter> {
    shared: PhantomData<W>,
}

impl<W: Waiter> Sender<W> {
    /// Release the signal and wake the receiver.
    pub fn release(self, signal: &mut OneSignal<W>)
        ensures
            *final(signal) == (OneSignal {
                state: OneState::Released,
                waiter: old(signal).waiter.woken(),
            }),
    {
        signal.state = OneState::Released;
        signal.waiter.wake();
    }

    /// Go away without a release; the receiver is woken.
    pub fn close(self, signal: &mut OneSignal<W>)
        ensures
            *final(signal) == (OneSignal {
                state: OneState::Closed,
                waiter: old(signal).waiter.woken(),
            }),
    {
        signal.state = OneState::Closed;
        signal.waiter.wake();
    }
}

/// The side that waits, once.
pub struct Receiver<W: Waiter> {
    shared: PhantomData<W>,
}

/// How a wait ends in each state; `None` while the signal is pending.
pub open spec fn acquire_outcome(state: OneState) -> Option<Result<(), AcquireError>> {
    match state {
        OneState::Pending => None,
        OneState::Released => Some(Ok(())),
        OneState::Closed => Some(Err(AcquireError::Closed)),
    }
}

impl<W: Waiter> Receiver<W> {
    /// Register the receiver.
    pub fn bind(&self, signal: &mut OneSignal<W>)
        ensures
            *final(signal) == (OneSignal { waiter: old(signal).waiter.bound(), ..*old(signal) }),
    {
        signal.waiter.set_worker();
    }

    /// Look without waiting: `Ok(Some(()))` iff released, `Err(Closed)` iff the
    /// sender is gone, `Ok(None)` iff pending.
    pub fn try_acquire(&self, signal: &OneSignal<W>) -> (r: Result<Option<()>, AcquireError>)
        ensures
            r == (match signal.state {
                OneState::Pending => Ok(None),
                OneState::Released => Ok(Some(())),
                OneState::Closed => Err(AcquireError::Closed),
            }),
    {
        match signal.state {
            OneState::Released => Ok(Some(())),
            OneState::Closed => Err(AcquireError::Closed),
            OneState::Pending => Ok(None),
        }
    }
}

impl<W: BlockingWaiter> Receiver<W> {
    /// One pass of a blocking wait: done once the signal is settled,
    /// otherwise the receiver comes back for the next pass.
    pub fn acquire(self, signal: &OneSignal<W>) -> (r: Step<Result<(), AcquireError>, Self>)
        ensures
            r == (match acquire_outcome(signal.state) {
                Some(o) => Step::Done(o),
                None => Step::Wait(self),
            }),
    {
        match signal.state {
            OneState::Released => Step::Done(Ok(())),
            OneState::Closed => Step::Done(Err(AcquireError::Closed)),
            OneState::Pending => Step::Wait(self),
        }
    }
}

impl<W: AsyncWaiter> Receiver<W> {
    /// One pass of an awaited wait.
    pub fn acquire_async(self, signal: &OneSignal<W>) -> (r: Step<Result<(), AcquireError>, Self>)
        ensures
            r == (match acquire_outcome(signal.state) {
                Some(o) => Step::Done(o),
                None => Step::Wait(self),
            }),
    {
        match signal.state {
            OneState::Released => Step::Done(Ok(())),
            OneState::Closed => Step::Done(Err(AcquireError::Closed)),
            OneState::Pending => Step::Wait(self),
        }
    }
}

impl Receiver<ParkWaiter> {
    /// The end of a wait with a deadline, which ran through
    /// [`ParkWaiter::wait_until_deadline`]; `timed_out` says how that ended. A
    /// signal that is settled by now counts, even after the deadline.
    pub fn acquire_timeout(self, signal: &OneSignal<ParkWaiter>, timed_out: bool) -> (r: Result<
        (),
        AcquireError,
    >)
        requires
            timed_out || !(signal.state is Pending),
        ensures
            r == (match acquire_outcome(signal.state) {
                Some(o) => o,
                None => Err(AcquireError::TimedOut),
            }),
    {
        match signal.state {
            OneState::Released => Ok(()),
            OneState::Closed => Err(AcquireError::Closed),
            OneState::Pending => Err(AcquireError::TimedOut),
        }
    }
}

} // verus!
