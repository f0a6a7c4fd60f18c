//! Bounded single-producer single-consumer queue with split handles.
//!
//! The lean sibling of [`Ring`](super::Ring): the same cursors, copies and
//! disconnect rules, without the bulk operations.
use crate::arith::{ahead, forward, is_pow2};
use crate::ring_buf::RingBuf;
use super::ring::{after_recv, after_send};
use crate::waiter::{AsyncWaiter, BlockingWaiter, ParkWaiter, Step, Waiter};
use core::marker::PhantomData;
use vstd::prelude::*;

verus! {

/// Why a send was refused. The refused value is handed back.
#[derive(Debug, PartialEq, Eq)]
pub enum TrySendErrorSpsc2<T> {
    /// The ring is full.
    Full(T),
    /// The ring is full and closed: no space will ever free up.
    Closed(T),
}

/// Why nothing was received.
#[derive(Debug, Clone, Copy, PartialEq, Eq, Structural)]
pub enum TryRecvErrorSpsc2 {
    /// The ring is empty; the producer may still send.
    Empty,
    /// The ring is empty and closed: no more items will ever arrive.
    Closed,
}

/// State that the two handles share.
pub struct Spsc2<T, const CAP: usize, W: Waiter = ParkWaiter> {
    pub buf: RingBuf<T, CAP>,
    /// Where the producer waits while the ring is full.
    pub not_full: W,
    /// Where the consumer waits while the ring is empty.
    pub not_empty: W,
    /// Set for good when either handle is closed.
    pub closed: bool,
}

/// Result of sending `value` into a ring of `cap` slots that holds `items`.
pub open spec fn send_outcome<T>(items: Seq<T>, cap: int, closed: bool, value: T) -> Result<
    (),
    TrySendErrorSpsc2<T>,
> {
    if items.len() < cap {
        Ok(())
    } else if closed {
        Err(TrySendErrorSpsc2::Closed(value))
    } else {
        Err(TrySendErrorSpsc2::Full(value))
    }
}

/// Result of receiving from a ring that holds `items`.
pub open spec fn recv_outcome<T>(items: Seq<T>, closed: bool) -> Result<T, TryRecvErrorSpsc2> {
    if items.len() > 0 {
        Ok(items[0])
    } else if closed {
        Err(TryRecvErrorSpsc2::Closed)
    } else {
        Err(TryRecvErrorSpsc2::Empty)
    }
}

impl<T, const CAP: usize, W: Waiter> View for Spsc2<T, CAP, W> {
    type V = Seq<T>;

    /// The items in flight, oldest first.
    open spec fn view(&self) -> Seq<T> {
        self.buf@
    }
}

impl<T, const CAP: usize, W: Waiter> Spsc2<T, CAP, W> {
    /// Validity of the shared state.
    pub open spec fn wf(&self) -> bool {
        self.buf.wf()
    }

    /// A fresh ring with its unique handles. `CAP` is a power of two.
    pub fn new() -> (r: (Self, ProducerSpsc2<T, CAP, W>, ConsumerSpsc2<T, CAP, W>))
        requires
            is_pow2(CAP as int),
        ensures
            r.0.wf(),
            r.0@ == Seq::<T>::empty(),
            !r.0.closed,
            r.0.not_full == W::initial(),
            r.0.not_empty == W::initial(),
            r.1.wf(r.0),
            r.1.used(r.0) == 0,
            r.1.worker() is None,
            r.2.wf(r.0),
            r.2.known(r.0) == 0,
            r.2.worker() is None,
    {
        let ring: Spsc2<T, CAP, W> = Spsc2 {
            buf: RingBuf::new(),
            not_full: W::fresh(),
            not_empty: W::fresh(),
            closed: false,
        };
        (
            ring,
            ProducerSpsc2 { cached_tail: 0, worker: None, shared: PhantomData },
            ConsumerSpsc2 { cached_head: 0, worker: None, shared: PhantomData },
        )
    }

    /// Number of items in flight.
    pub fn len(&self) -> (n: usize)
        requires
            self.wf(),
        ensures
            n == self@.len(),
    {
        self.buf.len()
    }

    /// True iff nothing is in flight.
    pub fn is_empty(&self) -> (b: bool)
        requires
            self.wf(),
        ensures
            b == (self@.len() == 0),
    {
        self.buf.len() == 0
    }

    /// True iff every slot is occupied.
    pub fn is_full(&self) -> (b: bool)
        requires
            self.wf(),
        ensures
            b == (self@.len() == CAP),
    {
        self.buf.len() >= CAP
    }

    /// True once either handle has been closed.
    pub fn is_closed(&self) -> (b: bool)
        ensures
            b == self.closed,
    {
        self.closed
    }

    /// Mark the ring closed and wake both sides.
    fn close(&mut self)
        ensures
            *final(self) == (Spsc2 {
                closed: true,
                not_full: old(self).not_full.woken(),
                not_empty: old(self).not_empty.woken(),
                ..*old(self)
            }),
    {
        self.closed = true;
        self.not_full.wake();
        self.not_empty.wake();
    }

    /// What a blocked sender waits for: room, or the end of the ring.
    pub open spec fn send_ready(&self) -> bool {
        self@.len() < CAP || self.closed
    }

    /// What a blocked receiver waits for: an item, or the end of the ring.
    pub open spec fn recv_ready(&self) -> bool {
        self@.len() > 0 || self.closed
    }

    /// True iff a blocked sender has something to do.
    pub fn can_send(&self) -> (b: bool)
        requires
            self.wf(),
        ensures
            b == self.send_ready(),
    {
        !self.is_full() || self.is_closed()
    }

    /// True iff a blocked receiver has something to do.
    pub fn can_recv(&self) -> (b: bool)
        requires
            self.wf(),
        ensures
            b == self.recv_ready(),
    {
        !self.is_empty() || self.is_closed()
    }
}

/// Sending handle of a [`Spsc2`].
pub struct ProducerSpsc2<T, const CAP: usize, W: Waiter = ParkWaiter> {
    /// Private copy of the read cursor, refreshed when it says "full".
    cached_tail: usize,
    /// Thread that last registered as the blocked sender.
    worker: Option<u64>,
    shared: PhantomData<(T, W)>,
}

impl<T, const CAP: usize, W: Waiter> ProducerSpsc2<T, CAP, W> {
    /// The private copy of the read cursor.
    pub closed spec fn cached_tail(&self) -> usize {
        self.cached_tail
    }

    /// The thread that last registered as the blocked sender.
    pub closed spec fn worker(&self) -> Option<u64> {
        self.worker
    }

    /// Occupied slots as far as this handle knows: never fewer than there
    /// are, and never more than the ring has.
    pub open spec fn used(&self, ring: Spsc2<T, CAP, W>) -> int {
        ahead(ring.buf.head(), self.cached_tail())
    }

    /// This handle belongs to `ring`.
    pub open spec fn wf(&self, ring: Spsc2<T, CAP, W>) -> bool {
        &&& ring.wf()
        &&& ring@.len() <= self.used(ring) <= CAP
    }

    /// Occupied slots as far as this handle knows once it has refreshed its
    /// copy of the read cursor where that copy says "full".
    pub open spec fn refreshed(&self, ring: Spsc2<T, CAP, W>) -> int {
        if self.used(ring) >= CAP {
            ring@.len() as int
        } else {
            self.used(ring)
        }
    }

    /// Number of slots.
    pub fn capacity(&self) -> (n: usize)
        ensures
            n == CAP,
    {
        CAP
    }

    /// Number of items in flight.
    pub fn len(&self, ring: &Spsc2<T, CAP, W>) -> (n: usize)
        requires
            ring.wf(),
        ensures
            n == ring@.len(),
    {
        ring.len()
    }

    /// True iff nothing is in flight.
    pub fn is_empty(&self, ring: &Spsc2<T, CAP, W>) -> (b: bool)
        requires
            ring.wf(),
        ensures
            b == (ring@.len() == 0),
    {
        ring.is_empty()
    }

    /// True iff every slot is occupied.
    pub fn is_full(&self, ring: &Spsc2<T, CAP, W>) -> (b: bool)
        requires
            ring.wf(),
        ensures
            b == (ring@.len() == CAP),
    {
        ring.is_full()
    }

    /// True once the ring has been closed.
    pub fn is_closed(&self, ring: &Spsc2<T, CAP, W>) -> (b: bool)
        ensures
            b == ring.closed,
    {
        ring.is_closed()
    }

    /// Send without waiting. A refused value comes back, as `Closed` iff the
    /// ring is full and closed; a ring with room accepts values even after
    /// it was closed. An accepted value wakes the consumer.
    pub fn try_send(&mut self, ring: &mut Spsc2<T, CAP, W>, value: T) -> (r: Result<
        (),
        TrySendErrorSpsc2<T>,
    >)
        requires
            old(self).wf(*old(ring)),
        ensures
            final(self).wf(*final(ring)),
            r == send_outcome(old(ring)@, CAP as int, old(ring).closed, value),
            final(ring)@ == after_send(old(ring)@, CAP as int, value),
            r is Ok ==> final(ring).buf.head() == forward(old(ring).buf.head(), 1),
            r is Ok ==> final(ring).not_empty == old(ring).not_empty.woken(),
            r is Err ==> *final(ring) == *old(ring),
            final(ring).buf.tail() == old(ring).buf.tail(),
            final(ring).not_full == old(ring).not_full,
            final(ring).closed == old(ring).closed,
            final(self).used(*final(ring)) == old(self).refreshed(*old(ring)) + (if r is Ok {
                1int
            } else {
                0
            }),
            final(self).worker() == old(self).worker(),
    {
        let head: usize = ring.buf.head_cursor();
        if head.wrapping_sub(self.cached_tail) >= CAP {
            self.cached_tail = ring.buf.tail_cursor();
            if head.wrapping_sub(self.cached_tail) >= CAP {
                return Err(
                    if ring.is_closed() {
                        TrySendErrorSpsc2::Closed(value)
                    } else {
                        TrySendErrorSpsc2::Full(value)
                    },
                );
            }
        }
        ring.buf.push(value);
        ring.not_empty.wake();
        Ok(())
    }

    /// Register `thread` as the blocked sender unless it already is. Returns
    /// true iff it was not.
    pub fn register(&mut self, ring: &mut Spsc2<T, CAP, W>, thread: u64) -> (moved: bool)
        ensures
            moved == (old(self).worker() != Some(thread)),
            final(self).worker() == Some(thread),
            final(self).cached_tail() == old(self).cached_tail(),
            *final(ring) == (if moved {
                Spsc2 { not_full: old(ring).not_full.bound(), ..*old(ring) }
            } else {
                *old(ring)
            }),
    {
        let known: bool = match self.worker {
            Some(w) => w == thread,
            None => false,
        };
        if !known {
            self.worker = Some(thread);
            ring.not_full.set_worker();
        }
        !known
    }

    /// Close this handle: the ring is closed and both sides are woken.
    pub fn close(self, ring: &mut Spsc2<T, CAP, W>)
        ensures
            *final(ring) == (Spsc2 {
                closed: true,
                not_full: old(ring).not_full.woken(),
                not_empty: old(ring).not_empty.woken(),
                ..*old(ring)
            }),
    {
        ring.close();
    }
}

impl<T, const CAP: usize, W: BlockingWaiter> ProducerSpsc2<T, CAP, W> {
    /// One pass of a blocking send by `thread`. It is done with `Ok` when the
    /// value is accepted and with `Err` when the ring is full and closed;
    /// otherwise the value comes back, `thread` is registered, and the next
    /// pass is due when [`Spsc2::can_send`] holds.
    pub fn send(&mut self, ring: &mut Spsc2<T, CAP, W>, value: T, thread: u64) -> (r: Step<
        Result<(), T>,
        T,
    >)
        requires
            old(self).wf(*old(ring)),
        ensures
            final(self).wf(*final(ring)),
            r == (match send_outcome(old(ring)@, CAP as int, old(ring).closed, value) {
                Ok(_) => Step::Done(Ok(())),
                Err(TrySendErrorSpsc2::Closed(v)) => Step::Done(Err(v)),
                Err(TrySendErrorSpsc2::Full(v)) => Step::Wait(v),
            }),
            r is Wait <==> !old(ring).send_ready(),
            final(ring)@ == after_send(old(ring)@, CAP as int, value),
            final(ring).closed == old(ring).closed,
            final(ring).buf.tail() == old(ring).buf.tail(),
            final(self).used(*final(ring)) == old(self).refreshed(*old(ring)) + (if r == Step::<
                Result<(), T>,
                T,
            >::Done(Ok(())) {
                1int
            } else {
                0
            }),
            final(self).worker() == (if r is Wait {
                Some(thread)
            } else {
                old(self).worker()
            }),
            final(ring).not_full == (if r is Wait && old(self).worker() != Some(thread) {
                old(ring).not_full.bound()
            } else {
                old(ring).not_full
            }),
            final(ring).not_empty == (if r == Step::<Result<(), T>, T>::Done(Ok(())) {
                old(ring).not_empty.woken()
            } else {
                old(ring).not_empty
            }),
            r is Wait ==> !final(ring).send_ready(),
    {
        match self.try_send(ring, value) {
            Ok(_) => Step::Done(Ok(())),
            Err(TrySendErrorSpsc2::Closed(v)) => Step::Done(Err(v)),
            Err(TrySendErrorSpsc2::Full(v)) => {
                let _ = self.register(ring, thread);
                Step::Wait(v)
            },
        }
    }
}

impl<T, const CAP: usize, W: AsyncWaiter> ProducerSpsc2<T, CAP, W> {
    /// One pass of an awaited send: [`ProducerSpsc2::send`] without registration.
    pub fn send_async(&mut self, ring: &mut Spsc2<T, CAP, W>, value: T) -> (r: Step<
        Result<(), T>,
        T,
    >)
        requires
            old(self).wf(*old(ring)),
        ensures
            final(self).wf(*final(ring)),
            r == (match send_outcome(old(ring)@, CAP as int, old(ring).closed, value) {
                Ok(_) => Step::Done(Ok(())),
                Err(TrySendErrorSpsc2::Closed(v)) => Step::Done(Err(v)),
                Err(TrySendErrorSpsc2::Full(v)) => Step::Wait(v),
            }),
            r is Wait <==> !old(ring).send_ready(),
            final(ring)@ == after_send(old(ring)@, CAP as int, value),
            final(ring).closed == old(ring).closed,
            final(ring).buf.tail() == old(ring).buf.tail(),
            final(self).used(*final(ring)) == old(self).refreshed(*old(ring)) + (if r == Step::<
                Result<(), T>,
                T,
            >::Done(Ok(())) {
                1int
            } else {
                0
            }),
            final(ring).not_full == old(ring).not_full,
            final(ring).not_empty == (if r == Step::<Result<(), T>, T>::Done(Ok(())) {
                old(ring).not_empty.woken()
            } else {
                old(ring).not_empty
            }),
            final(self).worker() == old(self).worker(),
    {
        match self.try_send(ring, value) {
            Ok(_) => Step::Done(Ok(())),
            Err(TrySendErrorSpsc2::Closed(v)) => Step::Done(Err(v)),
            Err(TrySendErrorSpsc2::Full(v)) => Step::Wait(v),
        }
    }
}

/// Receiving handle of a [`Spsc2`].
pub struct ConsumerSpsc2<T, const CAP: usize, W: Waiter = ParkWaiter> {
    /// Private copy of the write cursor, refreshed when it says "empty".
    cached_head: usize,
    /// Thread that last registered as the blocked receiver.
    worker: Option<u64>,
    shared: PhantomData<(T, W)>,
}

impl<T, const CAP: usize, W: Waiter> ConsumerSpsc2<T, CAP, W> {
    /// The private copy of the write cursor.
    pub closed spec fn cached_head(&self) -> usize {
        self.cached_head
    }

    /// The thread that last registered as the blocked receiver.
    pub closed spec fn worker(&self) -> Option<u64> {
        self.worker
    }

    /// Items in flight as far as this handle knows: never more than there
    /// are.
    pub open spec fn known(&self, ring: Spsc2<T, CAP, W>) -> int {
        ahead(self.cached_head(), ring.buf.tail())
    }

    /// This handle belongs to `ring`.
    pub open spec fn wf(&self, ring: Spsc2<T, CAP, W>) -> bool {
        &&& ring.wf()
        &&& self.known(ring) <= ring@.len()
    }

    /// Number of slots.
    pub fn capacity(&self) -> (n: usize)
        ensures
            n == CAP,
    {
        CAP
    }

    /// Number of items in flight.
    pub fn len(&self, ring: &Spsc2<T, CAP, W>) -> (n: usize)
        requires
            ring.wf(),
        ensures
            n == ring@.len(),
    {
        ring.len()
    }

    /// True iff nothing is in flight.
    pub fn is_empty(&self, ring: &Spsc2<T, CAP, W>) -> (b: bool)
        requires
            ring.wf(),
        ensures
            b == (ring@.len() == 0),
    {
        ring.is_empty()
    }

    /// True iff every slot is occupied.
    pub fn is_full(&self, ring: &Spsc2<T, CAP, W>) -> (b: bool)
        requires
            ring.wf(),
        ensures
            b == (ring@.len() == CAP),
    {
        ring.is_full()
    }

    /// True once the ring has been closed. Items may still be in flight.
    pub fn is_closed(&self, ring: &Spsc2<T, CAP, W>) -> (b: bool)
        ensures
            b == ring.closed,
    {
        ring.is_closed()
    }

    /// Receive without waiting. `Closed` comes only from a closed ring that
    /// is drained. A received item wakes the producer.
    pub fn try_recv(&mut self, ring: &mut Spsc2<T, CAP, W>) -> (r: Result<T, TryRecvErrorSpsc2>)
        requires
            old(self).wf(*old(ring)),
        ensures
            final(self).wf(*final(ring)),
            r == recv_outcome(old(ring)@, old(ring).closed),
            final(ring)@ == after_recv(old(ring)@),
            r is Ok ==> final(ring).buf.tail() == forward(old(ring).buf.tail(), 1),
            r is Ok ==> final(ring).not_full == old(ring).not_full.woken(),
            r is Err ==> *final(ring) == *old(ring),
            final(ring).buf.head() == old(ring).buf.head(),
            final(ring).not_empty == old(ring).not_empty,
            final(ring).closed == old(ring).closed,
            final(self).known(*final(ring)) == (if old(ring)@.len() == 0 {
                0
            } else if old(self).known(*old(ring)) > 0 {
                old(self).known(*old(ring)) - 1
            } else {
                old(ring)@.len() - 1
            }),
            final(self).worker() == old(self).worker(),
    {
        let tail: usize = ring.buf.tail_cursor();
        if self.cached_head == tail {
            self.cached_head = ring.buf.head_cursor();
            if self.cached_head == tail {
                if !ring.is_closed() {
                    return Err(TryRecvErrorSpsc2::Empty);
                }
                self.cached_head = ring.buf.head_cursor();
                if self.cached_head == tail {
                    return Err(TryRecvErrorSpsc2::Closed);
                }
            }
        }
        let v: T = ring.buf.pop();
        ring.not_full.wake();
        Ok(v)
    }

    /// Register `thread` as the blocked receiver unless it already is.
    /// Returns true iff it was not.
    pub fn register(&mut self, ring: &mut Spsc2<T, CAP, W>, thread: u64) -> (moved: bool)
        ensures
            moved == (old(self).worker() != Some(thread)),
            final(self).worker() == Some(thread),
            final(self).cached_head() == old(self).cached_head(),
            *final(ring) == (if moved {
                Spsc2 { not_empty: old(ring).not_empty.bound(), ..*old(ring) }
            } else {
                *old(ring)
            }),
    {
        let known: bool = match self.worker {
            Some(w) => w == thread,
            None => false,
        };
        if !known {
            self.worker = Some(thread);
            ring.not_empty.set_worker();
        }
        !known
    }

    /// Close this handle: the ring is closed and both sides are woken.
    pub fn close(self, ring: &mut Spsc2<T, CAP, W>)
        ensures
            *final(ring) == (Spsc2 {
                closed: true,
                not_full: old(ring).not_full.woken(),
                not_empty: old(ring).not_empty.woken(),
                ..*old(ring)
            }),
    {
        ring.close();
    }
}

impl<T, const CAP: usize, W: BlockingWaiter> ConsumerSpsc2<T, CAP, W> {
    /// One pass of a blocking receive by `thread`. It is done with an item,
    /// or with `None` when the ring is closed and drained; otherwise `thread`
    /// is registered and the next pass is due when [`Spsc2::can_recv`] holds.
    pub fn recv(&mut self, ring: &mut Spsc2<T, CAP, W>, thread: u64) -> (r: Step<Option<T>, ()>)
        requires
            old(self).wf(*old(ring)),
        ensures
            final(self).wf(*final(ring)),
            r == (match recv_outcome(old(ring)@, old(ring).closed) {
                Ok(v) => Step::Done(Some(v)),
                Err(TryRecvErrorSpsc2::Closed) => Step::Done(None),
                Err(TryRecvErrorSpsc2::Empty) => Step::Wait(()),
            }),
            r is Wait <==> !old(ring).recv_ready(),
            final(ring)@ == after_recv(old(ring)@),
            final(ring).closed == old(ring).closed,
            final(ring).buf.head() == old(ring).buf.head(),
            final(self).known(*final(ring)) == (if old(ring)@.len() == 0 {
                0
            } else if old(self).known(*old(ring)) > 0 {
                old(self).known(*old(ring)) - 1
            } else {
                old(ring)@.len() - 1
            }),
            final(self).worker() == (if r is Wait {
                Some(thread)
            } else {
                old(self).worker()
            }),
            final(ring).not_empty == (if r is Wait && old(self).worker() != Some(thread) {
                old(ring).not_empty.bound()
            } else {
                old(ring).not_empty
            }),
            final(ring).not_full == (if old(ring)@.len() > 0 {
                old(ring).not_full.woken()
            } else {
                old(ring).not_full
            }),
            r is Wait ==> !final(ring).recv_ready(),
    {
        match self.try_recv(ring) {
            Ok(v) => Step::Done(Some(v)),
            Err(TryRecvErrorSpsc2::Closed) => Step::Done(None),
            Err(TryRecvErrorSpsc2::Empty) => {
                let _ = self.register(ring, thread);
                Step::Wait(())
            },
        }
    }
}

impl<T, const CAP: usize, W: AsyncWaiter> ConsumerSpsc2<T, CAP, W> {
    /// One pass of an awaited receive: [`ConsumerSpsc2::recv`] without
    /// registration.
    pub fn recv_async(&mut self, ring: &mut Spsc2<T, CAP, W>) -> (r: Step<Option<T>, ()>)
        requires
            old(self).wf(*old(ring)),
        ensures
            final(self).wf(*final(ring)),
            r == (match recv_outcome(old(ring)@, old(ring).closed) {
                Ok(v) => Step::Done(Some(v)),
                Err(TryRecvErrorSpsc2::Closed) => Step::Done(None),
                Err(TryRecvErrorSpsc2::Empty) => Step::Wait(()),
            }),
            r is Wait <==> !old(ring).recv_ready(),
            final(ring)@ == after_recv(old(ring)@),
            final(ring).closed == old(ring).closed,
            final(ring).buf.head() == old(ring).buf.head(),
            final(self).known(*final(ring)) == (if old(ring)@.len() == 0 {
                0
            } else if old(self).known(*old(ring)) > 0 {
                old(self).known(*old(ring)) - 1
            } else {
                old(ring)@.len() - 1
            }),
            final(ring).not_empty == old(ring).not_empty,
            final(ring).not_full == (if old(ring)@.len() > 0 {
                old(ring).not_full.woken()
            } else {
                old(ring).not_full
            }),
            final(self).worker() == old(self).worker(),
    {
        match self.try_recv(ring) {
            Ok(v) => Step::Done(Some(v)),
            Err(TryRecvErrorSpsc2::Closed) => Step::Done(None),
            Err(TryRecvErrorSpsc2::Empty) => Step::Wait(()),
        }
    }
}

} // verus!
