//! Single-slot pipe whose consumer is a task.
//!
//! Unlike [`Pipe`](super::Pipe), every send notifies, whether or not anybody
//! waits; a notification that nobody waits for stays as a permit for the next
//! wait.
use crate::waiter::Step;
use vstd::prelude::*;

verus! {

/// A slot for one value.
#[derive(Debug)]
pub struct PipeAsync<T> {
    /// The value in flight.
    pub slot: Option<T>,
    /// A notification has to be delivered.
    pub owed: bool,
}

impl<T> Default for PipeAsync<T> {
    fn default() -> (p: Self)
        ensures
            p == (PipeAsync { slot: None::<T>, owed: false }),
    {
        Self::new()
    }
}

impl<T> PipeAsync<T> {
    /// An empty pipe.
    pub fn new() -> (p: Self)
        ensures
            p == (PipeAsync { slot: None::<T>, owed: false }),
    {
        PipeAsync { slot: None, owed: false }
    }

    /// Send one value through an empty pipe and notify the consumer.
    pub fn send(&mut self, v: T)
        requires
            old(self).slot is None,
        ensures
            *final(self) == (PipeAsync { slot: Some(v), owed: true }),
    {
        self.slot = Some(v);
        self.owed = true;
    }

    /// Take the value, if there is one.
    pub fn try_recv(&mut self) -> (r: Option<T>)
        ensures
            r == old(self).slot,
            *final(self) == (PipeAsync { slot: None::<T>, owed: old(self).owed }),
    {
        self.slot.take()
    }

    /// One pass of an awaited receive, made after the notification future was
    /// created: done with the value, otherwise that future is awaited.
    pub fn recv(&mut self) -> (r: Step<T, ()>)
        ensures
            r == (match old(self).slot {
                Some(v) => Step::Done(v),
                None => Step::Wait(()),
            }),
            *final(self) == (PipeAsync { slot: None::<T>, owed: old(self).owed }),
    {
        match self.try_recv() {
            Some(v) => Step::Done(v),
            None => Step::Wait(()),
        }
    }

    /// True iff a value is pending.
    pub fn has_data(&self) -> (b: bool)
        ensures
            b == (self.slot is Some),
    {
        self.slot.is_some()
    }

    /// Collect the notification that is owed to the consumer.
    pub fn settle(&mut self) -> (b: bool)
        ensures
            b == old(self).owed,
            *final(self) == (PipeAsync { owed: false, ..*old(self) }),
    {
        let owed: bool = self.owed;
        self.owed = false;
        owed
    }
}

} // verus!
