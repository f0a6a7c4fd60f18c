//! Many producers, one consumer, with a wake only when it is due.
//!
//! Like [`super::mpsc`], but a producer wakes the consumer only when its ring
//! was empty before it wrote: a consumer that still had items of this ring in
//! front of it has seen no reason to sleep. Everything else is as there, so
//! the shared state and the handles hold those of an [`Mpsc`].
use super::hub::Shutdown;
use super::mpsc::{woken_all, Mpsc, MpscConsumer, MpscProducer, MpscShutdown};
use super::queues::{all_empty, joined};
use crate::arith::is_pow2;
use crate::stream::ring::TrySendError;
use crate::waiter::{AsyncWaiter, BlockingWaiter, NotifyWaiter, ParkWaiter, Step, Waiter};
use vstd::prelude::*;

verus! {

/// Most producers that one channel can have.
pub const MAX_MPSC2_PRODUCERS: usize = 255;

/// State that all handles share.
pub struct Mpsc2<T, const CAP: usize, W: Waiter = ParkWaiter> {
    pub inner: Mpsc<T, CAP, W>,
}

impl<T, const CAP: usize, W: Waiter> View for Mpsc2<T, CAP, W> {
    type V = Seq<Seq<T>>;

    /// The items in flight, by producer.
    open spec fn view(&self) -> Seq<Seq<T>> {
        self.inner@
    }
}

impl<T, const CAP: usize, W: Waiter> Mpsc2<T, CAP, W> {
    /// Validity of the shared state.
    pub open spec fn wf(&self) -> bool {
        self.inner.wf()
    }

    /// What a blocked receiver waits for: an item, or the end of the channel.
    pub open spec fn recv_ready(&self) -> bool {
        self.inner.recv_ready()
    }

    /// A channel with `m` producers and one consumer. `CAP` is a power of two.
    pub fn new(m: usize) -> (r: (
        Self,
        Vec<Mpsc2Producer<T, CAP, W>>,
        Mpsc2Consumer<T, CAP, W>,
        Mpsc2Shutdown<W>,
    ))
        requires
            0 < m <= MAX_MPSC2_PRODUCERS,
            is_pow2(CAP as int),
        ensures
            r.0.wf(),
            r.0@.len() == m,
            all_empty(r.0@),
            !r.0.inner.shutdown,
            r.0.inner.live_producers == m,
            forall|i: int| #[trigger] r.0.inner.live@.contains(i) <==> 0 <= i < m,
            r.0.inner.fanin_waiter == W::initial(),
            forall|i: int|
                0 <= i < m ==> (#[trigger] r.0.inner.producer_waiters@[i]) == W::initial()
                    && !r.0.inner.rings@[i].closed,
            r.1@.len() == m,
            forall|i: int|
                0 <= i < m ==> (#[trigger] r.1@[i]).wf(r.0) && r.1@[i].idx() == i
                    && r.1@[i].used(r.0) == 0,
            r.2.wf(r.0),
    {
        let (inner, plain, consumer, shutdown) = Mpsc::<T, CAP, W>::new(m);
        let mut producers: Vec<Mpsc2Producer<T, CAP, W>> = Vec::new();
        let ghost all = plain@;
        for p in it: plain
            invariant
                it.seq() == all,
                producers@.len() == it.index(),
                forall|j: int|
                    0 <= j < producers@.len() ==> (#[trigger] producers@[j]).base() == all[j],
        {
            producers.push(Mpsc2Producer { inner: p });
        }
        let channel: Mpsc2<T, CAP, W> = Mpsc2 { inner };
        assert forall|i: int| 0 <= i < m implies (#[trigger] producers@[i]).wf(channel)
            && producers@[i].idx() == i && producers@[i].used(channel) == 0 by {
            assert(all[i].wf(inner) && all[i].idx() == i);
        }
        (channel, producers, Mpsc2Consumer { inner: consumer }, Mpsc2Shutdown { inner: shutdown })
    }

    /// True iff a blocked receiver has something to do.
    pub fn can_recv(&self) -> (b: bool)
        requires
            self.wf(),
        ensures
            b == self.recv_ready(),
    {
        self.inner.can_recv()
    }
}

/// Sending handle of one ring.
pub struct Mpsc2Producer<T, const CAP: usize, W: Waiter = ParkWaiter> {
    inner: MpscProducer<T, CAP, W>,
}

impl<T, const CAP: usize, W: Waiter> Mpsc2Producer<T, CAP, W> {
    /// The producer that wakes with every value.
    pub closed spec fn base(&self) -> MpscProducer<T, CAP, W> {
        self.inner
    }

    /// Index of this producer.
    pub open spec fn idx(&self) -> int {
        self.base().idx()
    }

    /// Occupied slots of this producer's ring as far as it knows.
    pub open spec fn used(&self, ch: Mpsc2<T, CAP, W>) -> int {
        self.base().used(ch.inner)
    }

    /// This handle belongs to `ch` and is not gone.
    pub open spec fn wf(&self, ch: Mpsc2<T, CAP, W>) -> bool {
        self.base().wf(ch.inner)
    }

    /// What a blocked sender waits for: room, or shutdown.
    pub open spec fn send_ready(&self, ch: Mpsc2<T, CAP, W>) -> bool {
        self.base().send_ready(ch.inner)
    }

    /// A value of this producer is accepted: there is room, and no shutdown.
    pub open spec fn fits(&self, ch: Mpsc2<T, CAP, W>) -> bool {
        self.base().fits(ch.inner)
    }

    /// Nothing of this producer is in flight.
    pub open spec fn finds_empty(&self, ch: Mpsc2<T, CAP, W>) -> bool {
        ch@[self.idx()].len() == 0
    }

    /// What this producer knows of its ring after it has offered a value: a
    /// value that is accepted has it look how far the consumer is.
    pub open spec fn used_after(&self, ch: Mpsc2<T, CAP, W>) -> int {
        if self.fits(ch) {
            ch@[self.idx()].len() as int + 1
        } else {
            self.base().used_after(ch.inner)
        }
    }

    /// The channel `next` after `value` was offered to `ch`: the consumer is
    /// woken iff the value was accepted into an empty ring.
    pub open spec fn offered(
        &self,
        ch: Mpsc2<T, CAP, W>,
        value: T,
        next: Mpsc2<T, CAP, W>,
    ) -> bool {
        self.base().offered(ch.inner, value, self.fits(ch) && self.finds_empty(ch), next.inner)
    }

    /// How a pass of a blocking send of `value` through `ch` ends, and the
    /// channel `next` after it.
    pub open spec fn sent(
        &self,
        ch: Mpsc2<T, CAP, W>,
        value: T,
        next: Mpsc2<T, CAP, W>,
        r: Step<(), T>,
    ) -> bool {
        &&& r == (if self.send_ready(ch) {
            Step::Done(())
        } else {
            Step::Wait(value)
        })
        &&& self.offered(ch, value, next)
    }

    /// Register this producer.
    pub fn bind(&self, ch: &mut Mpsc2<T, CAP, W>)
        requires
            self.wf(*old(ch)),
        ensures
            self.wf(*final(ch)),
            final(ch).inner.producer_waiters@ == old(ch).inner.producer_waiters@.update(
                self.idx(),
                old(ch).inner.producer_waiters@[self.idx()].bound(),
            ),
            final(ch).inner == (Mpsc {
                producer_waiters: final(ch).inner.producer_waiters,
                ..old(ch).inner
            }),
    {
        self.inner.bind(&mut ch.inner);
    }

    /// Index of this producer.
    pub fn index(&self) -> (i: usize)
        ensures
            i == self.idx(),
    {
        self.inner.index()
    }

    /// Slots of this producer's ring.
    pub fn capacity(&self) -> (n: usize)
        ensures
            n == CAP,
    {
        CAP
    }

    /// Put one value into this producer's ring, and wake the consumer if the
    /// ring was empty.
    fn write(&mut self, ch: &mut Mpsc2<T, CAP, W>, value: T) -> (r: Result<(), TrySendError<T>>)
        requires
            old(self).wf(*old(ch)),
            !old(ch).inner.shutdown,
        ensures
            final(self).wf(*final(ch)),
            final(self).idx() == old(self).idx(),
            r == (if old(self).fits(*old(ch)) {
                Ok(())
            } else if old(ch).inner.rings@[old(self).idx()].closed {
                Err(TrySendError::Closed(value))
            } else {
                Err(TrySendError::Full(value))
            }),
            old(self).offered(*old(ch), value, *final(ch)),
            final(self).used(*final(ch)) == old(self).used_after(*old(ch)),
    {
        let r: Result<(), TrySendError<T>> = self.inner.write(&mut ch.inner, value);
        if r.is_ok() && self.inner.is_alone(&ch.inner, 1) {
            proof {
                old(self).base().lemma_put_and_wake(old(ch).inner, seq![value], ch.inner);
            }
            ch.inner.fanin_waiter.wake();
        }
        r
    }

    /// Send without waiting. The value comes back iff the channel is shut
    /// down or this producer's ring is full; a value that is accepted into an
    /// empty ring wakes the consumer.
    pub fn try_send(&mut self, ch: &mut Mpsc2<T, CAP, W>, value: T) -> (r: Result<(), T>)
        requires
            old(self).wf(*old(ch)),
        ensures
            final(self).wf(*final(ch)),
            final(self).idx() == old(self).idx(),
            r == (if old(self).fits(*old(ch)) {
                Ok(())
            } else {
                Err(value)
            }),
            old(self).offered(*old(ch), value, *final(ch)),
            final(self).used(*final(ch)) == old(self).used_after(*old(ch)),
    {
        if ch.inner.shutdown {
            proof {
                self.base().lemma_put_nothing(ch.inner);
            }
            return Err(value);
        }
        match self.write(ch, value) {
            Ok(_) => Ok(()),
            Err(TrySendError::Full(v)) => Err(v),
            Err(TrySendError::Closed(v)) => Err(v),
        }
    }

    /// Send as many items as there is room for, as far as this producer knows
    /// of room. Nothing is sent after shutdown; the consumer is woken if the
    /// ring was empty. Returns how many were sent.
    pub fn try_send_bulk(&mut self, ch: &mut Mpsc2<T, CAP, W>, items: &mut Vec<T>) -> (n: usize)
        requires
            old(self).wf(*old(ch)),
        ensures
            final(self).wf(*final(ch)),
            final(self).idx() == old(self).idx(),
            n == old(self).base().bulk(old(ch).inner, old(items)@),
            final(items)@ == old(items)@.take(old(items)@.len() - n),
            old(self).base().put(
                old(ch).inner,
                old(items)@.skip(old(items)@.len() - n).reverse(),
                n > 0 && old(self).finds_empty(*old(ch)),
                final(ch).inner,
            ),
            final(self).used(*final(ch)) == (if n > 0 {
                old(ch)@[old(self).idx()].len() + n
            } else if old(ch).inner.shutdown || old(items)@.len() == 0 {
                old(self).used(*old(ch))
            } else {
                old(self).base().refreshed(old(ch).inner)
            }),
    {
        let n: usize = self.inner.write_bulk(&mut ch.inner, items);
        if n > 0 && self.inner.is_alone(&ch.inner, n) {
            proof {
                old(self).base().lemma_put_and_wake(
                    old(ch).inner,
                    old(items)@.skip(old(items)@.len() - n).reverse(),
                    ch.inner,
                );
            }
            ch.inner.fanin_waiter.wake();
        }
        n
    }

    fn send_pass(&mut self, ch: &mut Mpsc2<T, CAP, W>, value: T) -> (r: Step<(), T>)
        requires
            old(self).wf(*old(ch)),
        ensures
            final(self).wf(*final(ch)),
            final(self).idx() == old(self).idx(),
            old(self).sent(*old(ch), value, *final(ch), r),
            final(self).used(*final(ch)) == old(self).used_after(*old(ch)),
    {
        if ch.inner.shutdown {
            proof {
                self.base().lemma_put_nothing(ch.inner);
            }
            return Step::Done(());
        }
        match self.try_send(ch, value) {
            Ok(_) => Step::Done(()),
            Err(v) => Step::Wait(v),
        }
    }

    /// True iff a blocked sender has something to do.
    pub fn can_send(&self, ch: &Mpsc2<T, CAP, W>) -> (b: bool)
        requires
            self.wf(*ch),
        ensures
            b == self.send_ready(*ch),
    {
        self.inner.can_send(&ch.inner)
    }

    /// Leave the channel; see [`MpscProducer::close`].
    pub fn close(self, ch: &mut Mpsc2<T, CAP, W>)
        requires
            self.wf(*old(ch)),
        ensures
            self.base().left(old(ch).inner, final(ch).inner),
    {
        self.inner.close(&mut ch.inner);
    }
}

impl<T, const CAP: usize, W: BlockingWaiter> Mpsc2Producer<T, CAP, W> {
    /// One pass of a blocking send. It is done when the value is accepted, or
    /// dropped because the channel is shut down; otherwise the value comes
    /// back and the next pass is due when [`Mpsc2Producer::can_send`] holds.
    pub fn send(&mut self, ch: &mut Mpsc2<T, CAP, W>, value: T) -> (r: Step<(), T>)
        requires
            old(self).wf(*old(ch)),
        ensures
            final(self).wf(*final(ch)),
            final(self).idx() == old(self).idx(),
            old(self).sent(*old(ch), value, *final(ch), r),
            final(self).used(*final(ch)) == old(self).used_after(*old(ch)),
    {
        self.send_pass(ch, value)
    }
}

impl<T, const CAP: usize, W: AsyncWaiter> Mpsc2Producer<T, CAP, W> {
    /// One pass of an awaited send.
    pub fn send_async(&mut self, ch: &mut Mpsc2<T, CAP, W>, value: T) -> (r: Step<(), T>)
        requires
            old(self).wf(*old(ch)),
        ensures
            final(self).wf(*final(ch)),
            final(self).idx() == old(self).idx(),
            old(self).sent(*old(ch), value, *final(ch), r),
            final(self).used(*final(ch)) == old(self).used_after(*old(ch)),
    {
        self.send_pass(ch, value)
    }
}

impl<T, const CAP: usize> Mpsc2Producer<T, CAP, NotifyWaiter> {
    /// One pass of an awaited send that also gives up, and drops the value,
    /// when the ring is full and closed: nobody will make room.
    pub fn send_async_send(&mut self, ch: &mut Mpsc2<T, CAP, NotifyWaiter>, value: T) -> (r: Step<
        (),
        T,
    >)
        requires
            old(self).wf(*old(ch)),
        ensures
            final(self).wf(*final(ch)),
            final(self).idx() == old(self).idx(),
            r == (if old(self).send_ready(*old(ch)) || old(
                ch,
            ).inner.rings@[old(self).idx()].closed {
                Step::Done(())
            } else {
                Step::Wait(value)
            }),
            old(self).offered(*old(ch), value, *final(ch)),
            final(self).used(*final(ch)) == old(self).used_after(*old(ch)),
    {
        if ch.inner.shutdown {
            proof {
                self.base().lemma_put_nothing(ch.inner);
            }
            return Step::Done(());
        }
        match self.write(ch, value) {
            Ok(_) => Step::Done(()),
            Err(TrySendError::Full(v)) => Step::Wait(v),
            Err(TrySendError::Closed(_v)) => Step::Done(()),
        }
    }
}

/// Receiving handle of all rings.
pub struct Mpsc2Consumer<T, const CAP: usize, W: Waiter = ParkWaiter> {
    inner: MpscConsumer<T, CAP, W>,
}

impl<T, const CAP: usize, W: Waiter> Mpsc2Consumer<T, CAP, W> {
    /// The consumer of the channel that wakes with every value.
    pub closed spec fn base(&self) -> MpscConsumer<T, CAP, W> {
        self.inner
    }

    /// This handle belongs to `ch`.
    pub open spec fn wf(&self, ch: Mpsc2<T, CAP, W>) -> bool {
        self.base().wf(ch.inner)
    }

    /// Register the consumer.
    pub fn bind(&self, ch: &mut Mpsc2<T, CAP, W>)
        ensures
            final(ch).inner == (Mpsc {
                fanin_waiter: old(ch).inner.fanin_waiter.bound(),
                ..old(ch).inner
            }),
    {
        self.inner.bind(&mut ch.inner);
    }

    /// Slots per producer.
    pub fn capacity_per_producer(&self) -> (n: usize)
        ensures
            n == CAP,
    {
        CAP
    }

    /// Slots of all producers.
    pub fn total_capacity(&self, ch: &Mpsc2<T, CAP, W>) -> (n: usize)
        requires
            ch@.len() * CAP <= usize::MAX,
        ensures
            n == ch@.len() * CAP,
    {
        self.inner.total_capacity(&ch.inner)
    }

    /// Take one item without waiting, from the first producer that has any.
    pub fn try_recv(&mut self, ch: &mut Mpsc2<T, CAP, W>) -> (r: Option<T>)
        requires
            old(self).wf(*old(ch)),
        ensures
            final(self).wf(*final(ch)),
            MpscConsumer::took(old(ch).inner, final(ch).inner, r),
            r is None <==> all_empty(old(ch)@),
    {
        self.inner.try_recv(&mut ch.inner)
    }

    /// Take everything in flight, producer by producer, and append it to
    /// `out`. Every producer that had items is woken. Returns how many items
    /// were taken.
    pub fn try_recv_batch(&mut self, ch: &mut Mpsc2<T, CAP, W>, out: &mut Vec<T>) -> (n: usize)
        requires
            old(self).wf(*old(ch)),
        ensures
            final(self).wf(*final(ch)),
            MpscConsumer::drained(old(ch).inner, final(ch).inner),
            n == joined(old(ch)@, old(ch)@.len() as int).len(),
            final(out)@ == old(out)@ + joined(old(ch)@, old(ch)@.len() as int),
            n == 0 <==> all_empty(old(ch)@),
    {
        self.inner.try_recv_batch(&mut ch.inner, out)
    }

    /// Leave the channel: every ring is closed.
    pub fn close(self, ch: &mut Mpsc2<T, CAP, W>)
        requires
            self.wf(*old(ch)),
        ensures
            MpscConsumer::left(old(ch).inner, final(ch).inner),
    {
        self.inner.close(&mut ch.inner);
    }
}

impl<T, const CAP: usize, W: BlockingWaiter> Mpsc2Consumer<T, CAP, W> {
    /// One pass of a blocking receive. It is done with an item, or with
    /// [`Shutdown`] when the channel has ended and is drained; otherwise the
    /// next pass is due when [`Mpsc2::can_recv`] holds.
    pub fn recv(&mut self, ch: &mut Mpsc2<T, CAP, W>) -> (r: Step<Result<T, Shutdown>, ()>)
        requires
            old(self).wf(*old(ch)),
        ensures
            final(self).wf(*final(ch)),
            MpscConsumer::received(old(ch).inner, final(ch).inner, r),
    {
        self.inner.recv(&mut ch.inner)
    }

    /// One pass of a blocking batch receive: like [`Mpsc2Consumer::recv`], but
    /// everything in flight is appended to `out`, and the result is how much
    /// that was.
    pub fn recv_batch(&mut self, ch: &mut Mpsc2<T, CAP, W>, out: &mut Vec<T>) -> (r: Step<
        Result<usize, Shutdown>,
        (),
    >)
        requires
            old(self).wf(*old(ch)),
        ensures
            final(self).wf(*final(ch)),
            MpscConsumer::received_batch(
                old(ch).inner,
                final(ch).inner,
                joined(old(ch)@, old(ch)@.len() as int),
                r,
            ),
            final(out)@ == old(out)@ + joined(old(ch)@, old(ch)@.len() as int),
    {
        self.inner.recv_batch(&mut ch.inner, out)
    }
}

impl<T, const CAP: usize, W: AsyncWaiter> Mpsc2Consumer<T, CAP, W> {
    /// One pass of an awaited receive; see [`Mpsc2Consumer::recv`].
    pub fn recv_async(&mut self, ch: &mut Mpsc2<T, CAP, W>) -> (r: Step<Result<T, Shutdown>, ()>)
        requires
            old(self).wf(*old(ch)),
        ensures
            final(self).wf(*final(ch)),
            MpscConsumer::received(old(ch).inner, final(ch).inner, r),
    {
        self.inner.recv_async(&mut ch.inner)
    }

    /// One pass of an awaited batch receive; see [`Mpsc2Consumer::recv_batch`].
    pub fn recv_batch_async(&mut self, ch: &mut Mpsc2<T, CAP, W>, out: &mut Vec<T>) -> (r: Step<
        Result<usize, Shutdown>,
        (),
    >)
        requires
            old(self).wf(*old(ch)),
        ensures
            final(self).wf(*final(ch)),
            MpscConsumer::received_batch(
                old(ch).inner,
                final(ch).inner,
                joined(old(ch)@, old(ch)@.len() as int),
                r,
            ),
            final(out)@ == old(out)@ + joined(old(ch)@, old(ch)@.len() as int),
    {
        self.inner.recv_batch_async(&mut ch.inner, out)
    }
}

impl<T, const CAP: usize> Mpsc2Consumer<T, CAP, NotifyWaiter> {
    /// One pass of an awaited receive, made after the notification future was
    /// created.
    pub fn recv_async_send(&mut self, ch: &mut Mpsc2<T, CAP, NotifyWaiter>) -> (r: Step<
        Result<T, Shutdown>,
        (),
    >)
        requires
            old(self).wf(*old(ch)),
        ensures
            final(self).wf(*final(ch)),
            MpscConsumer::received(old(ch).inner, final(ch).inner, r),
    {
        self.inner.recv_async_send(&mut ch.inner)
    }

    /// One pass of an awaited batch receive, made after the notification
    /// future was created.
    pub fn recv_batch_async_send(
        &mut self,
        ch: &mut Mpsc2<T, CAP, NotifyWaiter>,
        out: &mut Vec<T>,
    ) -> (r: Step<Result<usize, Shutdown>, ()>)
        requires
            old(self).wf(*old(ch)),
        ensures
            final(self).wf(*final(ch)),
            MpscConsumer::received_batch(
                old(ch).inner,
                final(ch).inner,
                joined(old(ch)@, old(ch)@.len() as int),
                r,
            ),
            final(out)@ == old(out)@ + joined(old(ch)@, old(ch)@.len() as int),
    {
        self.inner.recv_batch_async_send(&mut ch.inner, out)
    }
}

/// Handle that ends a channel.
pub struct Mpsc2Shutdown<W: Waiter = ParkWaiter> {
    inner: MpscShutdown<W>,
}

impl<W: Waiter> Clone for Mpsc2Shutdown<W> {
    fn clone(&self) -> Self {
        Mpsc2Shutdown { inner: self.inner.clone() }
    }
}

impl<W: Waiter> Mpsc2Shutdown<W> {
    /// Shut the channel down and wake everybody.
    pub fn signal<T, const CAP: usize>(&self, ch: &mut Mpsc2<T, CAP, W>)
        requires
            old(ch).wf(),
        ensures
            final(ch).wf(),
            final(ch).inner.shutdown,
            final(ch).inner.fanin_waiter == old(ch).inner.fanin_waiter.woken(),
            final(ch).inner.producer_waiters@ == woken_all(old(ch).inner.producer_waiters@),
            final(ch).inner.rings == old(ch).inner.rings,
            final(ch).inner.live_producers == old(ch).inner.live_producers,
            final(ch).inner.live == old(ch).inner.live,
    {
        self.inner.signal(&mut ch.inner);
    }

    /// True iff the channel was shut down.
    pub fn is_signaled<T, const CAP: usize>(&self, ch: &Mpsc2<T, CAP, W>) -> (b: bool)
        ensures
            b == ch.inner.shutdown,
    {
        self.inner.is_signaled(&ch.inner)
    }
}

} // verus!
