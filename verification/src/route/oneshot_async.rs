//! A slot for a single reply whose receiver is a task.
//!
//! Unlike [`OneShot`](super::oneshot::OneShot), delivering always notifies,
//! whether or not anybody waits; a notification that nobody waits for stays
//! as a permit for the next wait.
pub use super::oneshot::Closed;
use super::oneshot::{after_take, take_outcome, SlotState};
use crate::waiter::Step;
use core::marker::PhantomData;
use vstd::prelude::*;

verus! {

/// The slot that both handles share.
pub struct OneShotAsync<T> {
    pub state: SlotState<T>,
    /// A notification has to be delivered.
    pub owed: bool,
}

/// Handle that delivers the value.
pub struct Sender<T> {
    shared: PhantomData<T>,
}

/// Handle that receives the value.
pub struct Receiver<T> {
    shared: PhantomData<T>,
}

impl<T> OneShotAsync<T> {
    /// An empty slot with its two handles.
    pub fn new() -> (r: (Self, Sender<T>, Receiver<T>))
        ensures
            r.0 == (OneShotAsync { state: SlotState::<T>::Empty, owed: false }),
    {
        (
            OneShotAsync { state: SlotState::Empty, owed: false },
            Sender { shared: PhantomData },
            Receiver { shared: PhantomData },
        )
    }

    /// Collect the notification that is owed to the receiver.
    pub fn settle(&mut self) -> (b: bool)
        ensures
            b == old(self).owed,
            *final(self) == (OneShotAsync { owed: false, ..*old(self) }),
    {
        let owed: bool = self.owed;
        self.owed = false;
        owed
    }
}

impl<T> Sender<T> {
    /// Deliver the value and notify the receiver. A sender is there only as
    /// long as its slot is empty.
    pub fn send(self, slot: &mut OneShotAsync<T>, v: T)
        requires
            old(slot).state is Empty,
        ensures
            *final(slot) == (OneShotAsync { state: SlotState::Full(v), owed: true }),
    {
        slot.state = SlotState::Full(v);
        slot.owed = true;
    }

    /// Leave without sending and notify the receiver.
    pub fn close(self, slot: &mut OneShotAsync<T>)
        requires
            old(slot).state is Empty,
        ensures
            *final(slot) == (OneShotAsync { state: SlotState::<T>::Closed, owed: true }),
    {
        slot.state = SlotState::Closed;
        slot.owed = true;
    }
}

impl<T> Receiver<T> {
    /// One pass of an awaited receive, made after the notification future was
    /// created: done with the value or with [`Closed`]; otherwise the receiver
    /// comes back and that future is awaited.
    pub fn recv(self, slot: &mut OneShotAsync<T>) -> (r: Step<Result<T, Closed>, Self>)
        ensures
            r == (match take_outcome(old(slot).state) {
                Some(taken) => Step::Done(taken),
                None => Step::Wait(self),
            }),
            *final(slot) == (OneShotAsync { state: after_take(old(slot).state), ..*old(slot) }),
    {
        match self.try_take(slot) {
            Some(taken) => Step::Done(taken),
            None => Step::Wait(self),
        }
    }

    /// Take the value without waiting: `None` while it is pending.
    pub fn try_recv(&self, slot: &mut OneShotAsync<T>) -> (r: Option<Result<T, Closed>>)
        ensures
            r == take_outcome(old(slot).state),
            *final(slot) == (OneShotAsync { state: after_take(old(slot).state), ..*old(slot) }),
    {
        self.try_take(slot)
    }

    fn try_take(&self, slot: &mut OneShotAsync<T>) -> (r: Option<Result<T, Closed>>)
        ensures
            r == take_outcome(old(slot).state),
            *final(slot) == (OneShotAsync { state: after_take(old(slot).state), ..*old(slot) }),
    {
        slot.state.take()
    }
}

} // verus!
