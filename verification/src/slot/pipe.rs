//! Single-slot pipe between one producer and one consumer, generic over how
//! the consumer waits.
use crate::waiter::{AsyncWaiter, BlockingWaiter, ParkWaiter, Step, Waiter};
use vstd::prelude::*;

verus! {

/// Observer of a [`Pipe`].
pub trait PipeHook<T>: Sized {
    /// This observer after it has seen `v` being sent.
    spec fn after_send(self, v: T) -> Self;

    /// This observer after it has seen `v` being received.
    spec fn after_recv(self, v: T) -> Self;

    /// Called before the value is written to the slot.
    fn on_send(&mut self, v: &T)
        ensures
            *final(self) == old(self).after_send(*v),
    ;

    /// Called after the value is taken from the slot.
    fn on_recv(&mut self, v: &T)
        ensures
            *final(self) == old(self).after_recv(*v),
    ;
}

/// Observer that does nothing.
#[derive(Debug, Clone, Copy, PartialEq, Eq, Structural)]
pub struct NoHook;

impl Default for NoHook {
    fn default() -> (h: Self)
        ensures
            h == NoHook,
    {
        NoHook
    }
}

impl<T> PipeHook<T> for NoHook {
    open spec fn after_send(self, v: T) -> Self {
        self
    }

    open spec fn after_recv(self, v: T) -> Self {
        self
    }

    fn on_send(&mut self, v: &T) {
    }

    fn on_recv(&mut self, v: &T) {
    }
}

/// A slot for one value.
pub struct Pipe<T, H: PipeHook<T> = NoHook, W: Waiter = ParkWaiter> {
    /// Where the consumer waits for data.
    pub waiter: W,
    /// The value in flight.
    pub slot: Option<T>,
    pub hook: H,
}

impl<T, W: Waiter> Pipe<T, NoHook, W> {
    /// An empty pipe without an observer.
    pub fn new() -> (p: Self)
        ensures
            p == (Pipe { waiter: W::initial(), slot: None::<T>, hook: NoHook }),
    {
        Self::with_hook(NoHook)
    }
}

impl<T, W: Waiter> Default for Pipe<T, NoHook, W> {
    fn default() -> (p: Self)
        ensures
            p == (Pipe { waiter: W::initial(), slot: None::<T>, hook: NoHook }),
    {
        Self::new()
    }
}

impl<T, H: PipeHook<T>, W: Waiter> Pipe<T, H, W> {
    /// This pipe after `v` was sent through it.
    pub open spec fn after_send(self, v: T) -> Self {
        Pipe { waiter: self.waiter.woken(), slot: Some(v), hook: self.hook.after_send(v) }
    }

    /// This pipe after an attempt to receive.
    pub open spec fn after_recv(self) -> Self {
        match self.slot {
            Some(v) => Pipe { slot: None, hook: self.hook.after_recv(v), ..self },
            None => self,
        }
    }

    /// An empty pipe with an observer.
    pub fn with_hook(hook: H) -> (p: Self)
        ensures
            p == (Pipe { waiter: W::initial(), slot: None::<T>, hook }),
    {
        Pipe { waiter: W::fresh(), slot: None, hook }
    }

    /// The waiter of this pipe.
    pub fn waiter(&self) -> (w: &W)
        ensures
            *w == self.waiter,
    {
        &self.waiter
    }

    /// The observer of this pipe.
    pub fn hook(&self) -> (h: &H)
        ensures
            *h == self.hook,
    {
        &self.hook
    }

    /// Register the consumer.
    pub fn set_consumer(&mut self)
        ensures
            *final(self) == (Pipe { waiter: old(self).waiter.bound(), ..*old(self) }),
    {
        self.waiter.set_worker();
    }

    /// Send one value through an empty pipe and wake the consumer.
    pub fn send(&mut self, v: T)
        requires
            old(self).slot is None,
        ensures
            *final(self) == old(self).after_send(v),
    {
        self.hook.on_send(&v);
        self.slot = Some(v);
        self.waiter.wake();
    }

    /// Take the value, if there is one.
    pub fn try_recv(&mut self) -> (r: Option<T>)
        ensures
            r == old(self).slot,
            *final(self) == old(self).after_recv(),
    {
        match self.slot.take() {
            Some(v) => {
                self.hook.on_recv(&v);
                Some(v)
            },
            None => None,
        }
    }

    /// True iff a value is pending.
    pub fn has_data(&self) -> (b: bool)
        ensures
            b == (self.slot is Some),
    {
        self.slot.is_some()
    }
}

impl<T, H: PipeHook<T>, W: BlockingWaiter> Pipe<T, H, W> {
    /// One pass of a blocking receive: done with the value, otherwise the next
    /// pass is due when the pipe has data.
    pub fn recv(&mut self) -> (r: Step<T, ()>)
        ensures
            r == (match old(self).slot {
                Some(v) => Step::Done(v),
                None => Step::Wait(()),
            }),
            *final(self) == old(self).after_recv(),
    {
        match self.try_recv() {
            Some(v) => Step::Done(v),
            None => Step::Wait(()),
        }
    }
}

impl<T, H: PipeHook<T>, W: AsyncWaiter> Pipe<T, H, W> {
    /// One pass of an awaited receive.
    pub fn recv_async(&mut self) -> (r: Step<T, ()>)
        ensures
            r == (match old(self).slot {
                Some(v) => Step::Done(v),
                None => Step::Wait(()),
            }),
            *final(self) == old(self).after_recv(),
    {
        match self.try_recv() {
            Some(v) => Step::Done(v),
            None => Step::Wait(()),
        }
    }
}

/// What is received is what was sent: a send followed by a receive gives the
/// value back, empties the pipe, and shows it to the observer on both ways.
pub proof fn recv_gives_what_was_sent<T, H: PipeHook<T>, W: Waiter>(p: Pipe<T, H, W>, v: T)
    requires
        p.slot is None,
    ensures
        p.after_send(v).slot == Some(v),
        p.after_send(v).after_recv().slot is None,
        p.after_send(v).after_recv().hook == p.hook.after_send(v).after_recv(v),
{
}

} // verus!
