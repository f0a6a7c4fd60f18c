//! Bounded ring that both sides address directly.
//!
//! [`Ring2`] has no handles and cannot be closed: the one producer and the one
//! consumer call it by agreement. Each side's copy of the other side's cursor
//! lives inside the ring.
use crate::arith::{ahead, is_pow2};
use crate::ring_buf::RingBuf;
use super::ring::{after_recv, after_send};
use crate::waiter::{AsyncWaiter, BlockingWaiter, ParkWaiter, Step, Waiter};
use vstd::prelude::*;

verus! {

/// Bounded queue of at most `CAP` items.
pub struct Ring2<T, const CAP: usize, W: Waiter = ParkWaiter> {
    pub buf: RingBuf<T, CAP>,
    /// Where the producer waits while the ring is full.
    pub not_full: W,
    /// Where the consumer waits while the ring is empty.
    pub not_empty: W,
    /// The producer's copy of the read cursor.
    pub cached_tail: usize,
    /// The consumer's copy of the write cursor.
    pub cached_head: usize,
}

impl<T, const CAP: usize, W: Waiter> View for Ring2<T, CAP, W> {
    type V = Seq<T>;

    /// The items in flight, oldest first.
    open spec fn view(&self) -> Seq<T> {
        self.buf@
    }
}

impl<T, const CAP: usize, W: Waiter> Ring2<T, CAP, W> {
    /// Validity: neither side's copy of a cursor is ahead of that cursor.
    pub open spec fn wf(&self) -> bool {
        &&& self.buf.wf()
        &&& self@.len() <= ahead(self.buf.head(), self.cached_tail) <= CAP
        &&& ahead(self.cached_head, self.buf.tail()) <= self@.len()
    }

    /// An empty ring. `CAP` is a power of two.
    pub fn new() -> (r: Self)
        requires
            is_pow2(CAP as int),
        ensures
            r.wf(),
            r@ == Seq::<T>::empty(),
            r.not_full == W::initial(),
            r.not_empty == W::initial(),
    {
        Ring2 {
            buf: RingBuf::new(),
            not_full: W::fresh(),
            not_empty: W::fresh(),
            cached_tail: 0,
            cached_head: 0,
        }
    }

    /// Register the producer.
    pub fn set_producer(&mut self)
        ensures
            old(self).wf() ==> final(self).wf(),
            final(self)@ == old(self)@,
            *final(self) == (Ring2 { not_full: old(self).not_full.bound(), ..*old(self) }),
    {
        self.not_full.set_worker();
    }

    /// Register the consumer.
    pub fn set_consumer(&mut self)
        ensures
            old(self).wf() ==> final(self).wf(),
            final(self)@ == old(self)@,
            *final(self) == (Ring2 { not_empty: old(self).not_empty.bound(), ..*old(self) }),
    {
        self.not_empty.set_worker();
    }

    /// Number of slots.
    pub fn capacity(&self) -> (n: usize)
        ensures
            n == CAP,
    {
        CAP
    }

    /// Number of items in flight.
    pub fn len(&self) -> (n: usize)
        requires
            self.wf(),
        ensures
            n == self@.len(),
    {
        self.buf.len()
    }

    /// True iff nothing is in flight.
    pub fn is_empty(&self) -> (b: bool)
        requires
            self.wf(),
        ensures
            b == (self@.len() == 0),
    {
        self.len() == 0
    }

    /// True iff every slot is occupied.
    pub fn is_full(&self) -> (b: bool)
        requires
            self.wf(),
        ensures
            b == (self@.len() == CAP),
    {
        self.len() >= CAP
    }

    /// Send without waiting. A full ring hands the value back; an accepted
    /// value wakes the consumer.
    pub fn try_send(&mut self, value: T) -> (r: Result<(), T>)
        requires
            old(self).wf(),
        ensures
            final(self).wf(),
            r == (if old(self)@.len() < CAP {
                Ok(())
            } else {
                Err(value)
            }),
            final(self)@ == after_send(old(self)@, CAP as int, value),
            final(self).not_full == old(self).not_full,
            final(self).not_empty == (if r is Ok {
                old(self).not_empty.woken()
            } else {
                old(self).not_empty
            }),
    {
        let head: usize = self.buf.head_cursor();
        if head.wrapping_sub(self.cached_tail) >= CAP {
            let latest: usize = self.buf.tail_cursor();
            self.cached_tail = latest;
            if head.wrapping_sub(latest) >= CAP {
                return Err(value);
            }
        }
        self.buf.push(value);
        self.not_empty.wake();
        Ok(())
    }

    /// Receive without waiting. A received item wakes the producer.
    pub fn try_recv(&mut self) -> (r: Option<T>)
        requires
            old(self).wf(),
        ensures
            final(self).wf(),
            r == (if old(self)@.len() > 0 {
                Some(old(self)@[0])
            } else {
                None
            }),
            final(self)@ == after_recv(old(self)@),
            final(self).not_empty == old(self).not_empty,
            final(self).not_full == (if r is Some {
                old(self).not_full.woken()
            } else {
                old(self).not_full
            }),
    {
        let tail: usize = self.buf.tail_cursor();
        if self.cached_head == tail {
            let latest: usize = self.buf.head_cursor();
            self.cached_head = latest;
            if latest == tail {
                return None;
            }
        }
        let v: T = self.buf.pop();
        self.not_full.wake();
        Some(v)
    }
}

impl<T, const CAP: usize, W: BlockingWaiter> Ring2<T, CAP, W> {
    /// One pass of a blocking send: done when the value is accepted,
    /// otherwise the value comes back and the next pass is due when the ring
    /// is not full.
    pub fn send(&mut self, value: T) -> (r: Step<(), T>)
        requires
            old(self).wf(),
        ensures
            final(self).wf(),
            r == (if old(self)@.len() < CAP {
                Step::Done(())
            } else {
                Step::Wait(value)
            }),
            final(self)@ == after_send(old(self)@, CAP as int, value),
            final(self).not_full == old(self).not_full,
            final(self).not_empty == (if r is Done {
                old(self).not_empty.woken()
            } else {
                old(self).not_empty
            }),
    {
        match self.try_send(value) {
            Ok(_) => Step::Done(()),
            Err(v) => Step::Wait(v),
        }
    }

    /// One pass of a blocking receive: done with an item, otherwise the next
    /// pass is due when the ring is not empty.
    pub fn recv(&mut self) -> (r: Step<T, ()>)
        requires
            old(self).wf(),
        ensures
            final(self).wf(),
            r == (if old(self)@.len() > 0 {
                Step::Done(old(self)@[0])
            } else {
                Step::Wait(())
            }),
            final(self)@ == after_recv(old(self)@),
            final(self).not_empty == old(self).not_empty,
            final(self).not_full == (if r is Done {
                old(self).not_full.woken()
            } else {
                old(self).not_full
            }),
    {
        match self.try_recv() {
            Some(v) => Step::Done(v),
            None => Step::Wait(()),
        }
    }
}

impl<T, const CAP: usize, W: AsyncWaiter> Ring2<T, CAP, W> {
    /// One pass of an awaited send.
    pub fn send_async(&mut self, value: T) -> (r: Step<(), T>)
        requires
            old(self).wf(),
        ensures
            final(self).wf(),
            r == (if old(self)@.len() < CAP {
                Step::Done(())
            } else {
                Step::Wait(value)
            }),
            final(self)@ == after_send(old(self)@, CAP as int, value),
            final(self).not_full == old(self).not_full,
            final(self).not_empty == (if r is Done {
                old(self).not_empty.woken()
            } else {
                old(self).not_empty
            }),
    {
        match self.try_send(value) {
            Ok(_) => Step::Done(()),
            Err(v) => Step::Wait(v),
        }
    }

    /// One pass of an awaited receive.
    pub fn recv_async(&mut self) -> (r: Step<T, ()>)
        requires
            old(self).wf(),
        ensures
            final(self).wf(),
            r == (if old(self)@.len() > 0 {
                Step::Done(old(self)@[0])
            } else {
                Step::Wait(())
            }),
            final(self)@ == after_recv(old(self)@),
            final(self).not_empty == old(self).not_empty,
            final(self).not_full == (if r is Done {
                old(self).not_full.woken()
            } else {
                old(self).not_full
            }),
    {
        match self.try_recv() {
            Some(v) => Step::Done(v),
            None => Step::Wait(()),
        }
    }
}

} // verus!
