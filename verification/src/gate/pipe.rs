//! Single-slot pipe between one producer and one consumer, built on a
//! [`Signal`].
//!
//! The producer writes the slot and opens the signal; the consumer takes the
//! slot and closes the signal. A [`PipeHook`] observes both.
use super::signal::{OwnedBool, Signal};
use crate::waiter::{BlockingWaiter, ParkWaiter, Step, WaitPhase, Waiter};
use vstd::prelude::*;

verus! {

/// Observer of a [`Pipe`].
pub trait PipeHook<T>: Sized {
    /// This observer after it has seen `v` being sent.
    spec fn after_send(self, v: T) -> Self;

    /// This observer after it has seen `v` being received.
    spec fn after_recv(self, v: T) -> Self;

    /// Called before the value is written to the slot.
    fn on_send(&mut self, v: &T)
        ensures
            *final(self) == old(self).after_send(*v),
    ;

    /// Called after the value is taken from the slot.
    fn on_recv(&mut self, v: &T)
        ensures
            *final(self) == old(self).after_recv(*v),
    ;
}

/// Observer that does nothing.
#[derive(Debug, Clone, Copy, PartialEq, Eq, Structural)]
pub struct NoHook;

impl Default for NoHook {
    fn default() -> (h: Self)
        ensures
            h == NoHook,
    {
        NoHook
    }
}

impl<T> PipeHook<T> for NoHook {
    open spec fn after_send(self, v: T) -> Self {
        self
    }

    open spec fn after_recv(self, v: T) -> Self {
        self
    }

    fn on_send(&mut self, v: &T) {
    }

    fn on_recv(&mut self, v: &T) {
    }
}

/// A slot for one value, with the signal that says whether it is full.
pub struct Pipe<T, H: PipeHook<T> = NoHook> {
    pub signal: Signal<OwnedBool>,
    pub slot: Option<T>,
    pub hook: H,
}

impl<T> Pipe<T, NoHook> {
    /// An empty pipe without an observer.
    pub fn new() -> (p: Self)
        ensures
            p.wf(),
            p.slot is None,
            p.signal.parker == ParkWaiter::initial(),
    {
        Self::with_hook(NoHook)
    }
}

impl<T> Default for Pipe<T, NoHook> {
    fn default() -> (p: Self)
        ensures
            p.wf(),
            p.slot is None,
            p.signal.parker == ParkWaiter::initial(),
    {
        Self::new()
    }
}

impl<T, H: PipeHook<T>> Pipe<T, H> {
    /// Validity: the signal is open exactly while the slot is full.
    pub open spec fn wf(&self) -> bool {
        self.slot is Some <==> !self.signal.source.locked
    }

    /// An empty pipe with an observer.
    pub fn with_hook(hook: H) -> (p: Self)
        ensures
            p.wf(),
            p.slot is None,
            p.signal.parker == ParkWaiter::initial(),
            p.hook == hook,
    {
        Pipe { signal: Signal::new(), slot: None, hook }
    }

    /// The signal of this pipe.
    pub fn signal(&self) -> (s: &Signal<OwnedBool>)
        ensures
            *s == self.signal,
    {
        &self.signal
    }

    /// The observer of this pipe.
    pub fn hook(&self) -> (h: &H)
        ensures
            *h == self.hook,
    {
        &self.hook
    }

    /// Register the consumer.
    pub fn set_consumer(&mut self)
        ensures
            *final(self) == (Pipe {
                signal: Signal {
                    parker: old(self).signal.parker.bound(),
                    ..old(self).signal
                },
                ..*old(self)
            }),
    {
        self.signal.set_worker();
    }

    /// Send one value through an empty pipe and wake the consumer.
    pub fn send(&mut self, v: T)
        requires
            old(self).wf(),
            old(self).slot is None,
        ensures
            final(self).wf(),
            final(self).slot == Some(v),
            final(self).hook == old(self).hook.after_send(v),
            final(self).signal.parker == old(self).signal.parker.woken(),
    {
        self.hook.on_send(&v);
        self.slot = Some(v);
        self.signal.release(&mut ());
    }

    /// Take the value, if there is one.
    pub fn try_recv(&mut self) -> (r: Option<T>)
        requires
            old(self).wf(),
        ensures
            final(self).wf(),
            r == old(self).slot,
            final(self).slot is None,
            final(self).hook == (match old(self).slot {
                Some(v) => old(self).hook.after_recv(v),
                None => old(self).hook,
            }),
            final(self).signal.parker == old(self).signal.parker,
    {
        if !self.signal.is_open(&()) {
            return None;
        }
        let v: T = self.slot.take().unwrap();
        self.signal.lock(&mut ());
        self.hook.on_recv(&v);
        Some(v)
    }

    /// One pass of a blocking receive: done with the value, otherwise the next
    /// pass is due when the pipe has data.
    pub fn recv(&mut self) -> (r: Step<T, ()>)
        requires
            old(self).wf(),
        ensures
            final(self).wf(),
            r == (match old(self).slot {
                Some(v) => Step::Done(v),
                None => Step::Wait(()),
            }),
            final(self).slot is None,
            final(self).hook == (match old(self).slot {
                Some(v) => old(self).hook.after_recv(v),
                None => old(self).hook,
            }),
            final(self).signal.parker == old(self).signal.parker,
    {
        match self.try_recv() {
            Some(v) => Step::Done(v),
            None => Step::Wait(()),
        }
    }

    /// One operation of the consumer's wait for data, which starts at
    /// [`WaitPhase::Entry`].
    pub fn wait_data(&mut self, at: WaitPhase) -> (next: WaitPhase)
        requires
            old(self).wf(),
            old(self).signal.parker.registered || (at is Entry && old(self).slot is Some),
        ensures
            final(self).wf(),
            (final(self).signal.parker, next) == old(self).signal.parker.probed(
                at,
                old(self).slot is Some,
            ),
            final(self).slot == old(self).slot,
            final(self).hook == old(self).hook,
    {
        self.signal.acquire(&(), at)
    }

    /// True iff a value is pending.
    pub fn has_data(&self) -> (b: bool)
        requires
            self.wf(),
        ensures
            b == (self.slot is Some),
    {
        self.signal.is_open(&())
    }
}

} // verus!
