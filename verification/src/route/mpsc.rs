//! Many producers, one consumer: one ring per producer.
//!
//! [`Mpsc::new`] builds the shared channel with its producers, its consumer
//! and a shutdown handle. Every producer writes its own ring, so producers do
//! not get in each other's way; the consumer scans the rings in index order.
//! The consumer waits on one waiter for all rings, each producer on a waiter
//! of its own for room in its ring.
//!
//! The channel ends when it is shut down or when the last producer is gone.
//! What is in flight by then is still delivered.
use super::hub::Shutdown;
use super::pool::MpscProducerPool;
use super::queues::{all_empty, any_ready, first_nonempty, joined, lemma_all_empty_same, lemma_first_nonempty_is, lemma_joined_empty, lemma_joined_grows, taken_at};
use crate::arith::is_pow2;
use crate::stream::ring::{bulk_take, lemma_none_moved, send_outcome, Consumer, Producer, Ring, TrySendError};
use crate::waiter::{AsyncWaiter, BlockingWaiter, NoopWaiter, NotifyWaiter, ParkWaiter, Step, Waiter};
use core::marker::PhantomData;
use vstd::prelude::*;

verus! {

/// Most producers that one channel can have.
pub const MAX_MPSC_PRODUCERS: usize = 255;

/// State that all handles share.
pub struct Mpsc<T, const CAP: usize, W: Waiter = ParkWaiter> {
    /// One ring per producer.
    pub rings: Vec<Ring<T, CAP, NoopWaiter>>,
    /// Where the consumer waits for items.
    pub fanin_waiter: W,
    /// Where each producer waits for room.
    pub producer_waiters: Vec<W>,
    /// Producers that are not gone.
    pub live_producers: usize,
    pub shutdown: bool,
    /// Indices of the producers that are not gone.
    pub live: Ghost<Set<int>>,
}

impl<T, const CAP: usize, W: Waiter> View for Mpsc<T, CAP, W> {
    type V = Seq<Seq<T>>;

    /// The items in flight, by producer.
    open spec fn view(&self) -> Seq<Seq<T>> {
        Seq::new(self.rings@.len(), |i: int| self.rings@[i]@)
    }
}

/// The waiters after the one of producer `i` was woken.
pub open spec fn woken_at<W: Waiter>(ws: Seq<W>, i: int) -> Seq<W> {
    ws.update(i, ws[i].woken())
}

/// The waiters after those of the producers with items in flight were woken.
pub open spec fn woken_ready<T, W: Waiter>(ws: Seq<W>, qs: Seq<Seq<T>>) -> Seq<W> {
    Seq::new(
        ws.len(),
        |i: int|
            if qs[i].len() > 0 {
                ws[i].woken()
            } else {
                ws[i]
            },
    )
}

/// All waiters woken.
pub open spec fn woken_all<W: Waiter>(ws: Seq<W>) -> Seq<W> {
    Seq::new(ws.len(), |i: int| ws[i].woken())
}

impl<T, const CAP: usize, W: Waiter> Mpsc<T, CAP, W> {
    /// Validity of the shared state.
    pub open spec fn wf(&self) -> bool {
        &&& 0 < self.rings@.len() <= MAX_MPSC_PRODUCERS
        &&& self.producer_waiters@.len() == self.rings@.len()
        &&& forall|i: int| 0 <= i < self.rings@.len() ==> (#[trigger] self.rings@[i]).wf()
        &&& self.live@.finite()
        &&& self.live@.len() == self.live_producers
    }

    /// Shut down, or left by every producer: nothing more will be sent.
    pub open spec fn closed(&self) -> bool {
        self.shutdown || self.live_producers == 0
    }

    /// Closed and drained: there is nothing left to wait for.
    pub open spec fn finished(&self) -> bool {
        self.closed() && all_empty(self@)
    }

    /// The write side of every ring is as it was in `before`.
    pub open spec fn writers_kept(&self, before: Self) -> bool {
        &&& self.rings@.len() == before.rings@.len()
        &&& forall|i: int|
            #![trigger self.rings@[i]]
            0 <= i < self.rings@.len() ==> {
                &&& self.rings@[i].buf.head() == before.rings@[i].buf.head()
                &&& self.rings@[i]@.len() <= before.rings@[i]@.len()
                &&& self.rings@[i].closed == before.rings@[i].closed
            }
    }

    /// At most ring `at` was written: its items may have grown at the end, and
    /// nothing else of any ring is other than in `before`.
    pub open spec fn written_at(&self, before: Self, at: int) -> bool {
        &&& self.rings@.len() == before.rings@.len()
        &&& forall|i: int|
            #![trigger self.rings@[i]]
            0 <= i < self.rings@.len() ==> {
                &&& self.rings@[i].buf.tail() == before.rings@[i].buf.tail()
                &&& before.rings@[i]@.len() <= self.rings@[i]@.len()
                &&& self.rings@[i].closed == before.rings@[i].closed
                &&& i != at ==> self.rings@[i] == before.rings@[i]
            }
    }

    /// A channel with `m` producers and one consumer. `CAP` is a power of two.
    pub fn new(m: usize) -> (r: (
        Self,
        Vec<MpscProducer<T, CAP, W>>,
        MpscConsumer<T, CAP, W>,
        MpscShutdown<W>,
    ))
        requires
            0 < m <= MAX_MPSC_PRODUCERS,
            is_pow2(CAP as int),
        ensures
            r.0.wf(),
            r.0@.len() == m,
            all_empty(r.0@),
            !r.0.shutdown,
            r.0.live_producers == m,
            forall|i: int| #[trigger] r.0.live@.contains(i) <==> 0 <= i < m,
            r.0.fanin_waiter == W::initial(),
            forall|i: int|
                0 <= i < m ==> (#[trigger] r.0.producer_waiters@[i]) == W::initial()
                    && !r.0.rings@[i].closed,
            r.1@.len() == m,
            forall|i: int|
                0 <= i < m ==> (#[trigger] r.1@[i]).wf(r.0) && r.1@[i].idx() == i
                    && r.1@[i].used(r.0) == 0,
            r.2.wf(r.0),
    {
        let mut rings: Vec<Ring<T, CAP, NoopWaiter>> = Vec::new();
        let mut producers: Vec<MpscProducer<T, CAP, W>> = Vec::new();
        let mut ring_consumers: Vec<Consumer<T, CAP, NoopWaiter>> = Vec::new();
        let mut producer_waiters: Vec<W> = Vec::new();
        let ghost mut live: Set<int> = Set::empty();
        let mut i: usize = 0;
        while i < m
            invariant
                i <= m,
                is_pow2(CAP as int),
                rings@.len() == i,
                producers@.len() == i,
                ring_consumers@.len() == i,
                producer_waiters@.len() == i,
                live.finite(),
                live.len() == i,
                forall|j: int| #[trigger] live.contains(j) <==> 0 <= j < i,
                forall|j: int|
                    #![trigger rings@[j]]
                    #![trigger producers@[j]]
                    #![trigger ring_consumers@[j]]
                    #![trigger producer_waiters@[j]]
                    0 <= j < i ==> {
                        &&& rings@[j].wf()
                        &&& rings@[j]@.len() == 0
                        &&& !rings@[j].closed
                        &&& producers@[j].idx() == j
                        &&& producers@[j].ring().wf(rings@[j])
                        &&& producers@[j].ring().used(rings@[j]) == 0
                        &&& ring_consumers@[j].wf(rings@[j])
                        &&& producer_waiters@[j] == W::initial()
                    },
            decreases m - i,
        {
            let (ring, p, c) = Ring::<T, CAP, NoopWaiter>::new();
            rings.push(ring);
            producers.push(MpscProducer { ring_producer: p, my_idx: i, shared: PhantomData });
            ring_consumers.push(c);
            producer_waiters.push(W::fresh());
            proof {
                live = live.insert(i as int);
            }
            i = i + 1;
        }
        let channel: Mpsc<T, CAP, W> = Mpsc {
            rings,
            fanin_waiter: W::fresh(),
            producer_waiters,
            live_producers: m,
            shutdown: false,
            live: Ghost(live),
        };
        (
            channel,
            producers,
            MpscConsumer { ring_consumers, shared: PhantomData },
            MpscShutdown { shared: PhantomData },
        )
    }

    /// A channel whose producers are leased from a pool.
    pub fn producer_pool(m: usize) -> (r: (
        Self,
        MpscProducerPool<T, CAP, W>,
        MpscConsumer<T, CAP, W>,
        MpscShutdown<W>,
    ))
        requires
            0 < m <= MAX_MPSC_PRODUCERS,
            is_pow2(CAP as int),
        ensures
            r.0.wf(),
            r.0@.len() == m,
            all_empty(r.0@),
            !r.0.shutdown,
            r.0.live_producers == m,
            forall|i: int| #[trigger] r.0.live@.contains(i) <==> 0 <= i < m,
            r.0.fanin_waiter == W::initial(),
            forall|i: int|
                0 <= i < m ==> (#[trigger] r.0.producer_waiters@[i]) == W::initial()
                    && !r.0.rings@[i].closed,
            r.1.wf(),
            r.1.m() == m,
            forall|i: int|
                #![trigger r.1.leased(i)]
                #![trigger r.1.producer(i)]
                0 <= i < m ==> !r.1.leased(i) && r.1.producer(i).wf(r.0) && r.1.producer(i).idx()
                    == i,
            r.2.wf(r.0),
    {
        let (channel, producers, consumer, shutdown) = Self::new(m);
        (channel, Self::pool_from_producers(producers), consumer, shutdown)
    }

    /// A pool of the given producers, none of them leased.
    pub fn pool_from_producers(producers: Vec<MpscProducer<T, CAP, W>>) -> (pool: MpscProducerPool<
        T,
        CAP,
        W,
    >)
        requires
            0 < producers@.len() <= MAX_MPSC_PRODUCERS,
        ensures
            pool.wf(),
            pool.m() == producers@.len(),
            forall|i: int|
                #![trigger pool.leased(i)]
                #![trigger pool.producer(i)]
                0 <= i < producers@.len() ==> !pool.leased(i) && pool.producer(i) == producers@[i],
    {
        MpscProducerPool::of(producers)
    }

    /// What a blocked receiver waits for: an item, or the end of the channel.
    pub open spec fn recv_ready(&self) -> bool {
        any_ready(self@) || self.finished()
    }

    /// True iff some ring has an item.
    fn any_ring_has_work(&self) -> (b: bool)
        requires
            self.wf(),
        ensures
            b == any_ready(self@),
            b == !all_empty(self@),
    {
        let mut i: usize = 0;
        while i < self.rings.len()
            invariant
                self.wf(),
                i <= self.rings@.len(),
                forall|j: int| 0 <= j < i ==> (#[trigger] self@[j]).len() == 0,
            decreases self.rings@.len() - i,
        {
            if !self.rings[i].is_empty() {
                assert(self@[i as int].len() > 0);
                return true;
            }
            assert(self@[i as int].len() == 0);
            i = i + 1;
        }
        false
    }

    /// True iff the channel has ended and every ring is drained.
    fn is_finished(&self) -> (b: bool)
        requires
            self.wf(),
        ensures
            b == self.finished(),
    {
        self.is_closed() && !self.any_ring_has_work()
    }

    /// True iff nothing more will be sent.
    fn is_closed(&self) -> (b: bool)
        ensures
            b == self.closed(),
    {
        self.shutdown || self.live_producers == 0
    }

    /// True iff a blocked receiver has something to do.
    pub fn can_recv(&self) -> (b: bool)
        requires
            self.wf(),
        ensures
            b == self.recv_ready(),
    {
        self.any_ring_has_work() || self.is_finished()
    }
}

/// Sending handle of one ring.
pub struct MpscProducer<T, const CAP: usize, W: Waiter = ParkWaiter> {
    ring_producer: Producer<T, CAP, NoopWaiter>,
    my_idx: usize,
    shared: PhantomData<W>,
}

impl<T, const CAP: usize, W: Waiter> MpscProducer<T, CAP, W> {
    /// Index of this producer.
    pub closed spec fn idx(&self) -> int {
        self.my_idx as int
    }

    /// The handle of this producer's ring.
    pub closed spec fn ring(&self) -> Producer<T, CAP, NoopWaiter> {
        self.ring_producer
    }

    /// Occupied slots of this producer's ring as far as it knows.
    pub open spec fn used(&self, ch: Mpsc<T, CAP, W>) -> int {
        self.ring().used(ch.rings@[self.idx()])
    }

    /// Occupied slots of this producer's ring as far as it knows once it has
    /// refreshed its copy of the read cursor where that copy says "full".
    pub open spec fn refreshed(&self, ch: Mpsc<T, CAP, W>) -> int {
        self.ring().refreshed(ch.rings@[self.idx()])
    }

    /// This handle belongs to `ch` and is not gone.
    pub open spec fn wf(&self, ch: Mpsc<T, CAP, W>) -> bool {
        &&& ch.wf()
        &&& 0 <= self.idx() < ch.rings@.len()
        &&& ch.live@.contains(self.idx())
        &&& self.ring().wf(ch.rings@[self.idx()])
    }

    /// What a blocked sender waits for: room, or shutdown.
    pub open spec fn send_ready(&self, ch: Mpsc<T, CAP, W>) -> bool {
        ch.shutdown || ch@[self.idx()].len() < CAP
    }

    /// A value of this producer is accepted: there is room, and no shutdown.
    pub open spec fn fits(&self, ch: Mpsc<T, CAP, W>) -> bool {
        !ch.shutdown && ch@[self.idx()].len() < CAP
    }

    /// What this producer knows of its ring after it has offered a value.
    pub open spec fn used_after(&self, ch: Mpsc<T, CAP, W>) -> int {
        if ch.shutdown {
            self.used(ch)
        } else if self.fits(ch) {
            self.refreshed(ch) + 1
        } else {
            self.refreshed(ch)
        }
    }

    /// The channel `next` after `items` were put into this producer's ring of
    /// `ch`, with the consumer woken iff `wake`: nothing else changes.
    pub open spec fn put(
        &self,
        ch: Mpsc<T, CAP, W>,
        items: Seq<T>,
        wake: bool,
        next: Mpsc<T, CAP, W>,
    ) -> bool {
        &&& next@ == ch@.update(self.idx(), ch@[self.idx()] + items)
        &&& items.len() == 0 ==> next.rings@ == ch.rings@
        &&& next.fanin_waiter == (if wake {
            ch.fanin_waiter.woken()
        } else {
            ch.fanin_waiter
        })
        &&& next.written_at(ch, self.idx())
        &&& next.producer_waiters == ch.producer_waiters
        &&& next.live_producers == ch.live_producers
        &&& next.live == ch.live
        &&& next.shutdown == ch.shutdown
    }

    /// The channel `next` after `value` was offered to `ch` with the consumer
    /// woken iff `wake`.
    pub open spec fn offered(
        &self,
        ch: Mpsc<T, CAP, W>,
        value: T,
        wake: bool,
        next: Mpsc<T, CAP, W>,
    ) -> bool {
        self.put(
            ch,
            if self.fits(ch) {
                seq![value]
            } else {
                Seq::empty()
            },
            wake,
            next,
        )
    }

    /// Offering nothing changes nothing.
    pub(crate) proof fn lemma_put_nothing(&self, ch: Mpsc<T, CAP, W>)
        requires
            self.wf(ch),
        ensures
            self.put(ch, Seq::empty(), false, ch),
    {
        assert(ch@[self.idx()] + Seq::<T>::empty() =~= ch@[self.idx()]);
        assert(ch@ =~= ch@.update(self.idx(), ch@[self.idx()] + Seq::<T>::empty()));
    }

    /// Waking the consumer after something was put changes nothing else.
    pub(crate) proof fn lemma_put_and_wake(
        &self,
        ch: Mpsc<T, CAP, W>,
        items: Seq<T>,
        quiet: Mpsc<T, CAP, W>,
    )
        requires
            self.put(ch, items, false, quiet),
        ensures
            self.put(
                ch,
                items,
                true,
                Mpsc { fanin_waiter: quiet.fanin_waiter.woken(), ..quiet },
            ),
    {
        let loud = Mpsc { fanin_waiter: quiet.fanin_waiter.woken(), ..quiet };
        assert(loud@ =~= quiet@);
    }

    /// Register this producer.
    pub fn bind(&self, ch: &mut Mpsc<T, CAP, W>)
        requires
            self.wf(*old(ch)),
        ensures
            self.wf(*final(ch)),
            final(ch).producer_waiters@ == old(ch).producer_waiters@.update(
                self.idx(),
                old(ch).producer_waiters@[self.idx()].bound(),
            ),
            *final(ch) == (Mpsc { producer_waiters: final(ch).producer_waiters, ..*old(ch) }),
    {
        ch.producer_waiters[self.my_idx].set_worker();
    }

    /// Index of this producer.
    pub fn index(&self) -> (i: usize)
        ensures
            i == self.idx(),
    {
        self.my_idx
    }

    /// Slots of this producer's ring.
    pub fn capacity(&self) -> (n: usize)
        ensures
            n == CAP,
    {
        CAP
    }

    /// Items of this producer in flight.
    pub fn pending(&self, ch: &Mpsc<T, CAP, W>) -> (n: usize)
        requires
            self.wf(*ch),
        ensures
            n == ch@[self.idx()].len(),
    {
        self.ring_producer.len(&ch.rings[self.my_idx])
    }

    /// Free slots of this producer's ring.
    pub fn available(&self, ch: &Mpsc<T, CAP, W>) -> (n: usize)
        requires
            self.wf(*ch),
        ensures
            n == CAP - ch@[self.idx()].len(),
    {
        CAP.saturating_sub(self.pending(ch))
    }

    /// Put one value into this producer's ring without waking the consumer.
    pub(crate) fn write(&mut self, ch: &mut Mpsc<T, CAP, W>, value: T) -> (r: Result<
        (),
        TrySendError<T>,
    >)
        requires
            old(self).wf(*old(ch)),
            !old(ch).shutdown,
        ensures
            final(self).wf(*final(ch)),
            final(self).idx() == old(self).idx(),
            r == send_outcome(
                old(ch)@[old(self).idx()],
                CAP as int,
                old(ch).rings@[old(self).idx()].closed,
                value,
            ),
            old(self).offered(*old(ch), value, false, *final(ch)),
            final(self).used(*final(ch)) == old(self).used_after(*old(ch)),
    {
        let r: Result<(), TrySendError<T>> = self.ring_producer.try_send(
            &mut ch.rings[self.my_idx],
            value,
        );
        proof {
            let at = self.idx();
            if r is Ok {
                assert(old(ch)@[at].push(value) =~= old(ch)@[at] + seq![value]);
            } else {
                assert(ch.rings@ =~= old(ch).rings@);
                assert(old(ch)@[at] + Seq::<T>::empty() =~= old(ch)@[at]);
            }
            assert(ch@ =~= old(ch)@.update(at, ch@[at]));
        }
        r
    }

    /// Put as many items into this producer's ring as it knows room for,
    /// without waking the consumer; see [`Producer::try_send_bulk`].
    pub(crate) fn write_bulk(&mut self, ch: &mut Mpsc<T, CAP, W>, items: &mut Vec<T>) -> (n: usize)
        requires
            old(self).wf(*old(ch)),
        ensures
            final(self).wf(*final(ch)),
            final(self).idx() == old(self).idx(),
            n == old(self).bulk(*old(ch), old(items)@),
            final(items)@ == old(items)@.take(old(items)@.len() - n),
            old(self).put(
                *old(ch),
                old(items)@.skip(old(items)@.len() - n).reverse(),
                false,
                *final(ch),
            ),
            final(self).used(*final(ch)) == (if old(ch).shutdown || old(items)@.len() == 0 {
                old(self).used(*old(ch))
            } else {
                old(self).refreshed(*old(ch)) + n
            }),
    {
        if items.is_empty() || ch.shutdown {
            proof {
                lemma_none_moved(items@);
                self.lemma_put_nothing(*ch);
            }
            return 0;
        }
        let n: usize = self.ring_producer.try_send_bulk(&mut ch.rings[self.my_idx], items);
        proof {
            let at = self.idx();
            assert(ch@ =~= old(ch)@.update(at, ch@[at]));
            if n == 0 {
                lemma_none_moved(old(items)@);
                assert(ch.rings@[at] == old(ch).rings@[at]);
                assert(ch.rings@ =~= old(ch).rings@);
            }
        }
        n
    }

    /// True iff exactly `n` items of this producer are in flight: what it sent
    /// last found its ring empty. Refreshes its copy of the read cursor.
    pub(crate) fn is_alone(&mut self, ch: &Mpsc<T, CAP, W>, n: usize) -> (b: bool)
        requires
            old(self).wf(*ch),
        ensures
            final(self).wf(*ch),
            final(self).idx() == old(self).idx(),
            b == (ch@[old(self).idx()].len() == n),
            final(self).used(*ch) == ch@[old(self).idx()].len(),
    {
        self.ring_producer.should_notify_consumer(&ch.rings[self.my_idx], n)
    }

    /// How many of `items` a bulk send moves: as many as there is room for, as
    /// far as this producer knows of room; none after shutdown.
    pub open spec fn bulk(&self, ch: Mpsc<T, CAP, W>, items: Seq<T>) -> int {
        if ch.shutdown {
            0
        } else {
            bulk_take(items.len() as int, CAP - self.refreshed(ch))
        }
    }

    /// Send without waiting. The value comes back iff the channel is shut
    /// down or this producer's ring is full; an accepted value wakes the
    /// consumer.
    pub fn try_send(&mut self, ch: &mut Mpsc<T, CAP, W>, value: T) -> (r: Result<(), T>)
        requires
            old(self).wf(*old(ch)),
        ensures
            final(self).wf(*final(ch)),
            final(self).idx() == old(self).idx(),
            r == (if old(self).fits(*old(ch)) {
                Ok(())
            } else {
                Err(value)
            }),
            old(self).offered(*old(ch), value, r is Ok, *final(ch)),
            final(self).used(*final(ch)) == old(self).used_after(*old(ch)),
    {
        if ch.shutdown {
            proof {
                self.lemma_put_nothing(*ch);
            }
            return Err(value);
        }
        match self.write(ch, value) {
            Ok(_) => {
                proof {
                    old(self).lemma_put_and_wake(*old(ch), seq![value], *ch);
                }
                ch.fanin_waiter.wake();
                Ok(())
            },
            Err(TrySendError::Full(v)) => Err(v),
            Err(TrySendError::Closed(v)) => Err(v),
        }
    }

    /// Send as many items as there is room for, as far as this producer knows
    /// of room; see [`Producer::try_send_bulk`]. Nothing is sent after
    /// shutdown. Returns how many were sent.
    pub fn try_send_bulk(&mut self, ch: &mut Mpsc<T, CAP, W>, items: &mut Vec<T>) -> (n: usize)
        requires
            old(self).wf(*old(ch)),
        ensures
            final(self).wf(*final(ch)),
            final(self).idx() == old(self).idx(),
            n == old(self).bulk(*old(ch), old(items)@),
            final(items)@ == old(items)@.take(old(items)@.len() - n),
            old(self).put(
                *old(ch),
                old(items)@.skip(old(items)@.len() - n).reverse(),
                n > 0,
                *final(ch),
            ),
            final(self).used(*final(ch)) == (if old(ch).shutdown || old(items)@.len() == 0 {
                old(self).used(*old(ch))
            } else {
                old(self).refreshed(*old(ch)) + n
            }),
    {
        let n: usize = self.write_bulk(ch, items);
        if n > 0 {
            proof {
                old(self).lemma_put_and_wake(
                    *old(ch),
                    old(items)@.skip(old(items)@.len() - n).reverse(),
                    *ch,
                );
            }
            ch.fanin_waiter.wake();
        }
        n
    }

    /// One pass of a blocking send. It is done when the value is accepted, or
    /// dropped because the channel is shut down; otherwise the value comes
    /// back and the next pass is due when [`MpscProducer::can_send`] holds.
    fn send_pass(&mut self, ch: &mut Mpsc<T, CAP, W>, value: T) -> (r: Step<(), T>)
        requires
            old(self).wf(*old(ch)),
        ensures
            final(self).wf(*final(ch)),
            final(self).idx() == old(self).idx(),
            old(self).sent(*old(ch), value, *final(ch), r),
            final(self).used(*final(ch)) == old(self).used_after(*old(ch)),
    {
        if ch.shutdown {
            proof {
                self.lemma_put_nothing(*ch);
            }
            return Step::Done(());
        }
        match self.try_send(ch, value) {
            Ok(_) => Step::Done(()),
            Err(v) => Step::Wait(v),
        }
    }

    /// How a pass of a blocking send of `value` through `ch` ends, and the
    /// channel `next` after it.
    pub open spec fn sent(
        &self,
        ch: Mpsc<T, CAP, W>,
        value: T,
        next: Mpsc<T, CAP, W>,
        r: Step<(), T>,
    ) -> bool {
        &&& r == (if self.send_ready(ch) {
            Step::Done(())
        } else {
            Step::Wait(value)
        })
        &&& self.offered(ch, value, self.fits(ch), next)
    }

    /// True iff a blocked sender has something to do.
    pub fn can_send(&self, ch: &Mpsc<T, CAP, W>) -> (b: bool)
        requires
            self.wf(*ch),
        ensures
            b == self.send_ready(*ch),
    {
        ch.shutdown || !self.ring_producer.is_full(&ch.rings[self.my_idx])
    }

    /// The channel `next` after this producer has left `ch`: its ring is
    /// closed, and the consumer is woken if no producer is left.
    pub open spec fn left(&self, ch: Mpsc<T, CAP, W>, next: Mpsc<T, CAP, W>) -> bool {
        &&& next.wf()
        &&& next@ == ch@
        &&& next.live_producers == ch.live_producers - 1
        &&& next.live@ == ch.live@.remove(self.idx())
        &&& next.fanin_waiter == (if next.live_producers == 0 {
            ch.fanin_waiter.woken()
        } else {
            ch.fanin_waiter
        })
        &&& next.rings@ == ch.rings@.update(
            self.idx(),
            Ring { closed: true, ..ch.rings@[self.idx()] },
        )
        &&& next.producer_waiters == ch.producer_waiters
        &&& next.shutdown == ch.shutdown
    }

    /// Leave the channel: the ring is closed, and the consumer is woken if
    /// this was the last producer.
    pub fn close(self, ch: &mut Mpsc<T, CAP, W>)
        requires
            self.wf(*old(ch)),
        ensures
            self.left(*old(ch), *final(ch)),
    {
        let idx: usize = self.my_idx;
        self.ring_producer.close(&mut ch.rings[idx]);
        proof {
            if ch.live_producers == 0 {
                assert(ch.live@.remove(idx as int).len() < ch.live@.len());
            }
        }
        ch.live_producers = ch.live_producers - 1;
        ch.live = Ghost(ch.live@.remove(idx as int));
        if ch.live_producers == 0 {
            ch.fanin_waiter.wake();
        }
        assert(ch@ =~= old(ch)@);
    }
}

impl<T, const CAP: usize, W: BlockingWaiter> MpscProducer<T, CAP, W> {
    /// One pass of a blocking send. It is done when the value is accepted, or
    /// dropped because the channel is shut down; otherwise the value comes
    /// back and the next pass is due when [`MpscProducer::can_send`] holds.
    pub fn send(&mut self, ch: &mut Mpsc<T, CAP, W>, value: T) -> (r: Step<(), T>)
        requires
            old(self).wf(*old(ch)),
        ensures
            final(self).wf(*final(ch)),
            final(self).idx() == old(self).idx(),
            old(self).sent(*old(ch), value, *final(ch), r),
            final(self).used(*final(ch)) == old(self).used_after(*old(ch)),
    {
        self.send_pass(ch, value)
    }
}

impl<T, const CAP: usize, W: AsyncWaiter> MpscProducer<T, CAP, W> {
    /// One pass of an awaited send.
    pub fn send_async(&mut self, ch: &mut Mpsc<T, CAP, W>, value: T) -> (r: Step<(), T>)
        requires
            old(self).wf(*old(ch)),
        ensures
            final(self).wf(*final(ch)),
            final(self).idx() == old(self).idx(),
            old(self).sent(*old(ch), value, *final(ch), r),
            final(self).used(*final(ch)) == old(self).used_after(*old(ch)),
    {
        self.send_pass(ch, value)
    }
}

impl<T, const CAP: usize> MpscProducer<T, CAP, NotifyWaiter> {
    /// One pass of an awaited send that also gives up, and drops the value,
    /// when the ring is full and closed: nobody will make room.
    pub fn send_async_send(&mut self, ch: &mut Mpsc<T, CAP, NotifyWaiter>, value: T) -> (r: Step<
        (),
        T,
    >)
        requires
            old(self).wf(*old(ch)),
        ensures
            final(self).wf(*final(ch)),
            final(self).idx() == old(self).idx(),
            r == (if old(self).send_ready(*old(ch)) || old(ch).rings@[old(self).idx()].closed {
                Step::Done(())
            } else {
                Step::Wait(value)
            }),
            old(self).offered(*old(ch), value, old(self).fits(*old(ch)), *final(ch)),
            final(self).used(*final(ch)) == old(self).used_after(*old(ch)),
    {
        if ch.shutdown {
            proof {
                self.lemma_put_nothing(*ch);
            }
            return Step::Done(());
        }
        match self.write(ch, value) {
            Ok(_) => {
                proof {
                    old(self).lemma_put_and_wake(*old(ch), seq![value], *ch);
                }
                ch.fanin_waiter.wake();
                Step::Done(())
            },
            Err(TrySendError::Full(v)) => Step::Wait(v),
            Err(TrySendError::Closed(_v)) => Step::Done(()),
        }
    }
}

/// Receiving handle of all rings.
pub struct MpscConsumer<T, const CAP: usize, W: Waiter = ParkWaiter> {
    ring_consumers: Vec<Consumer<T, CAP, NoopWaiter>>,
    shared: PhantomData<W>,
}

impl<T, const CAP: usize, W: Waiter> MpscConsumer<T, CAP, W> {
    /// The handles of the rings.
    pub closed spec fn rings(&self) -> Seq<Consumer<T, CAP, NoopWaiter>> {
        self.ring_consumers@
    }

    /// This handle belongs to `ch`.
    pub open spec fn wf(&self, ch: Mpsc<T, CAP, W>) -> bool {
        &&& ch.wf()
        &&& self.rings().len() == ch.rings@.len()
        &&& forall|i: int|
            0 <= i < ch.rings@.len() ==> (#[trigger] self.rings()[i]).wf(ch.rings@[i])
    }

    /// Register the consumer.
    pub fn bind(&self, ch: &mut Mpsc<T, CAP, W>)
        ensures
            *final(ch) == (Mpsc { fanin_waiter: old(ch).fanin_waiter.bound(), ..*old(ch) }),
    {
        ch.fanin_waiter.set_worker();
    }

    /// Slots per producer.
    pub fn capacity_per_producer(&self) -> (n: usize)
        ensures
            n == CAP,
    {
        CAP
    }

    /// Slots of all producers.
    pub fn total_capacity(&self, ch: &Mpsc<T, CAP, W>) -> (n: usize)
        requires
            ch.rings@.len() * CAP <= usize::MAX,
        ensures
            n == ch.rings@.len() * CAP,
    {
        ch.rings.len() * CAP
    }

    /// Items in flight.
    pub fn pending(&self, ch: &Mpsc<T, CAP, W>) -> (n: usize)
        requires
            ch.wf(),
            joined(ch@, ch@.len() as int).len() <= usize::MAX,
        ensures
            n == joined(ch@, ch@.len() as int).len(),
    {
        let mut total: usize = 0;
        let mut i: usize = 0;
        while i < ch.rings.len()
            invariant
                ch.wf(),
                joined(ch@, ch@.len() as int).len() <= usize::MAX,
                i <= ch.rings@.len(),
                total == joined(ch@, i as int).len(),
            decreases ch.rings@.len() - i,
        {
            proof {
                lemma_joined_grows(ch@, i + 1, ch@.len() as int);
                assert(joined(ch@, i + 1) == joined(ch@, i as int) + ch@[i as int]);
            }
            total = total + ch.rings[i].len();
            i = i + 1;
        }
        total
    }

    /// True iff nothing more will be sent. Items may still be in flight.
    pub fn is_closed(&self, ch: &Mpsc<T, CAP, W>) -> (b: bool)
        ensures
            b == ch.closed(),
    {
        ch.is_closed()
    }

    /// How taking one item from `ch` ends, and the channel `next` after it:
    /// the item is the oldest of the first producer that has any, and that
    /// producer is woken.
    pub open spec fn took(ch: Mpsc<T, CAP, W>, next: Mpsc<T, CAP, W>, r: Option<T>) -> bool {
        let at = first_nonempty(ch@, 0);
        &&& if at < ch@.len() {
            &&& r == Some(ch@[at][0])
            &&& next@ == taken_at(ch@, at)
            &&& next.producer_waiters@ == woken_at(ch.producer_waiters@, at)
        } else {
            &&& r is None
            &&& next@ == ch@
            &&& next.producer_waiters@ == ch.producer_waiters@
        }
        &&& next.writers_kept(ch)
        &&& next.fanin_waiter == ch.fanin_waiter
        &&& next.live_producers == ch.live_producers
        &&& next.live == ch.live
        &&& next.shutdown == ch.shutdown
    }

    /// Take one item without waiting, from the first producer that has any.
    pub fn try_recv(&mut self, ch: &mut Mpsc<T, CAP, W>) -> (r: Option<T>)
        requires
            old(self).wf(*old(ch)),
        ensures
            final(self).wf(*final(ch)),
            Self::took(*old(ch), *final(ch), r),
            r is None <==> all_empty(old(ch)@),
    {
        let m: usize = ch.rings.len();
        let mut idx: usize = 0;
        while idx < m
            invariant
                idx <= m,
                m == old(ch).rings@.len(),
                old(ch).wf(),
                self.wf(*ch),
                ch.rings@.len() == m,
                ch.rings@ == old(ch).rings@,
                ch.producer_waiters == old(ch).producer_waiters,
                ch.fanin_waiter == old(ch).fanin_waiter,
                ch.live_producers == old(ch).live_producers,
                ch.live == old(ch).live,
                ch.shutdown == old(ch).shutdown,
                forall|j: int| 0 <= j < idx ==> (#[trigger] old(ch)@[j]).len() == 0,
            decreases m - idx,
        {
            match self.ring_consumers[idx].try_recv(&mut ch.rings[idx]) {
                Ok(v) => {
                    ch.producer_waiters[idx].wake();
                    proof {
                        assert(old(ch)@[idx as int].len() > 0);
                        lemma_first_nonempty_is(old(ch)@, 0, idx as int);
                        assert(ch@ =~= taken_at(old(ch)@, idx as int));
                        assert(ch.producer_waiters@ =~= woken_at(
                            old(ch).producer_waiters@,
                            idx as int,
                        ));
                        assert(!all_empty(old(ch)@));
                    }
                    return Some(v);
                },
                Err(_) => {
                    assert(old(ch)@[idx as int].len() == 0);
                    assert(ch.rings@ =~= old(ch).rings@);
                },
            }
            idx = idx + 1;
        }
        proof {
            lemma_first_nonempty_is(old(ch)@, 0, m as int);
            assert(ch@ =~= old(ch)@);
        }
        None
    }

    /// The channel `next` after everything in flight in `ch` was taken.
    pub open spec fn drained(ch: Mpsc<T, CAP, W>, next: Mpsc<T, CAP, W>) -> bool {
        &&& next@ == Seq::new(ch@.len(), |i: int| Seq::<T>::empty())
        &&& next.producer_waiters@ == woken_ready(ch.producer_waiters@, ch@)
        &&& next.writers_kept(ch)
        &&& next.fanin_waiter == ch.fanin_waiter
        &&& next.live_producers == ch.live_producers
        &&& next.live == ch.live
        &&& next.shutdown == ch.shutdown
    }

    /// Take everything in flight, producer by producer, and append it to
    /// `out`. Every producer that had items is woken. Returns how many items
    /// were taken.
    pub fn try_recv_batch(&mut self, ch: &mut Mpsc<T, CAP, W>, out: &mut Vec<T>) -> (n: usize)
        requires
            old(self).wf(*old(ch)),
        ensures
            final(self).wf(*final(ch)),
            Self::drained(*old(ch), *final(ch)),
            n == joined(old(ch)@, old(ch)@.len() as int).len(),
            final(out)@ == old(out)@ + joined(old(ch)@, old(ch)@.len() as int),
            n == 0 <==> all_empty(old(ch)@),
    {
        let m: usize = ch.rings.len();
        let ghost qs = ch@;
        let mut total: usize = 0;
        let mut idx: usize = 0;
        assert(out@ =~= old(out)@ + joined(qs, 0));
        while idx < m
            invariant
                idx <= m,
                m == old(ch).rings@.len(),
                qs == old(ch)@,
                old(ch).wf(),
                old(self).wf(*old(ch)),
                ch.rings@.len() == m,
                ch.producer_waiters@.len() == m,
                self.rings().len() == m,
                forall|j: int|
                    #![trigger ch.rings@[j]]
                    0 <= j < m ==> {
                        &&& ch.rings@[j].wf()
                        &&& self.rings()[j].wf(ch.rings@[j])
                        &&& ch.rings@[j].buf.head() == old(ch).rings@[j].buf.head()
                        &&& ch.rings@[j].closed == old(ch).rings@[j].closed
                        &&& j < idx ==> ch.rings@[j]@ == Seq::<T>::empty()
                        &&& j >= idx ==> ch.rings@[j] == old(ch).rings@[j]
                    },
                forall|j: int|
                    0 <= j < m ==> (#[trigger] ch.producer_waiters@[j]) == (if j < idx
                        && qs[j].len() > 0 {
                        old(ch).producer_waiters@[j].woken()
                    } else {
                        old(ch).producer_waiters@[j]
                    }),
                ch.fanin_waiter == old(ch).fanin_waiter,
                ch.live_producers == old(ch).live_producers,
                ch.live == old(ch).live,
                ch.shutdown == old(ch).shutdown,
                out@ == old(out)@ + joined(qs, idx as int),
                total == joined(qs, idx as int).len(),
            decreases m - idx,
        {
            let n: usize = self.ring_consumers[idx].drain(&mut ch.rings[idx], out);
            proof {
                assert(joined(qs, idx + 1) == joined(qs, idx as int) + qs[idx as int]);
                assert(out@ =~= old(out)@ + joined(qs, idx + 1));
                assert(out.len() == out@.len());
            }
            if n > 0 {
                total = total + n;
                ch.producer_waiters[idx].wake();
            }
            idx = idx + 1;
        }
        proof {
            assert(ch@ =~= Seq::new(qs.len(), |i: int| Seq::<T>::empty()));
            assert(ch.producer_waiters@ =~= woken_ready(old(ch).producer_waiters@, qs));
            lemma_joined_empty(qs, m as int);
        }
        total
    }

    /// How a pass of a blocking receive ends, and the channel `next` after it.
    pub open spec fn received(
        ch: Mpsc<T, CAP, W>,
        next: Mpsc<T, CAP, W>,
        r: Step<Result<T, Shutdown>, ()>,
    ) -> bool {
        if any_ready(ch@) {
            &&& r is Done
            &&& r->Done_0 is Ok
            &&& Self::took(ch, next, Some(r->Done_0->Ok_0))
        } else {
            &&& r == (if ch.closed() {
                Step::Done(Err(Shutdown))
            } else {
                Step::<Result<T, Shutdown>, ()>::Wait(())
            })
            &&& Self::took(ch, next, None)
        }
    }

    fn recv_pass(&mut self, ch: &mut Mpsc<T, CAP, W>) -> (r: Step<Result<T, Shutdown>, ()>)
        requires
            old(self).wf(*old(ch)),
        ensures
            final(self).wf(*final(ch)),
            Self::received(*old(ch), *final(ch), r),
    {
        proof {
            super::queues::lemma_first_nonempty(ch@, 0);
        }
        match self.try_recv(ch) {
            Some(v) => Step::Done(Ok(v)),
            None => if ch.is_finished() {
                Step::Done(Err(Shutdown))
            } else {
                Step::Wait(())
            },
        }
    }

    /// How a pass of a blocking batch receive ends, the channel `next` after
    /// it, and what it has appended.
    pub open spec fn received_batch(
        ch: Mpsc<T, CAP, W>,
        next: Mpsc<T, CAP, W>,
        appended: Seq<T>,
        r: Step<Result<usize, Shutdown>, ()>,
    ) -> bool {
        &&& Self::drained(ch, next)
        &&& appended == joined(ch@, ch@.len() as int)
        &&& if any_ready(ch@) {
            &&& r is Done
            &&& r->Done_0 is Ok
            &&& r->Done_0->Ok_0 == appended.len()
        } else {
            r == (if ch.closed() {
                Step::Done(Err(Shutdown))
            } else {
                Step::<Result<usize, Shutdown>, ()>::Wait(())
            })
        }
    }

    fn recv_batch_pass(&mut self, ch: &mut Mpsc<T, CAP, W>, out: &mut Vec<T>) -> (r: Step<
        Result<usize, Shutdown>,
        (),
    >)
        requires
            old(self).wf(*old(ch)),
        ensures
            final(self).wf(*final(ch)),
            Self::received_batch(
                *old(ch),
                *final(ch),
                joined(old(ch)@, old(ch)@.len() as int),
                r,
            ),
            final(out)@ == old(out)@ + joined(old(ch)@, old(ch)@.len() as int),
    {
        let n: usize = self.try_recv_batch(ch, out);
        if n > 0 {
            return Step::Done(Ok(n));
        }
        proof {
            lemma_all_empty_same(ch@, old(ch)@);
        }
        if ch.is_finished() {
            Step::Done(Err(Shutdown))
        } else {
            Step::Wait(())
        }
    }

    /// The channel `next` after the consumer has left `ch`.
    pub open spec fn left(ch: Mpsc<T, CAP, W>, next: Mpsc<T, CAP, W>) -> bool {
        &&& next.wf()
        &&& next@ == ch@
        &&& next.rings@.len() == ch.rings@.len()
        &&& forall|i: int|
            0 <= i < next.rings@.len() ==> (#[trigger] next.rings@[i]) == (Ring {
                closed: true,
                ..ch.rings@[i]
            })
        &&& next.fanin_waiter == ch.fanin_waiter
        &&& next.producer_waiters == ch.producer_waiters
        &&& next.live_producers == ch.live_producers
        &&& next.live == ch.live
        &&& next.shutdown == ch.shutdown
    }

    /// Leave the channel: every ring is closed.
    pub fn close(self, ch: &mut Mpsc<T, CAP, W>)
        requires
            self.wf(*old(ch)),
        ensures
            Self::left(*old(ch), *final(ch)),
    {
        let m: usize = ch.rings.len();
        let mut i: usize = 0;
        for c in it: self.ring_consumers
            invariant
                i == it.index(),
                it.seq() == self.rings(),
                self.rings().len() == m,
                m == old(ch).rings@.len(),
                ch.rings@.len() == m,
                forall|j: int|
                    0 <= j < m ==> (#[trigger] ch.rings@[j]) == (if j < i {
                        Ring { closed: true, ..old(ch).rings@[j] }
                    } else {
                        old(ch).rings@[j]
                    }),
                ch.fanin_waiter == old(ch).fanin_waiter,
                ch.producer_waiters == old(ch).producer_waiters,
                ch.live_producers == old(ch).live_producers,
                ch.live == old(ch).live,
                ch.shutdown == old(ch).shutdown,
        {
            c.close(&mut ch.rings[i]);
            i = i + 1;
        }
        assert(ch@ =~= old(ch)@);
    }
}

impl<T, const CAP: usize, W: BlockingWaiter> MpscConsumer<T, CAP, W> {
    /// One pass of a blocking receive. It is done with an item, or with
    /// [`Shutdown`] when the channel has ended and is drained; otherwise the
    /// next pass is due when [`Mpsc::can_recv`] holds.
    pub fn recv(&mut self, ch: &mut Mpsc<T, CAP, W>) -> (r: Step<Result<T, Shutdown>, ()>)
        requires
            old(self).wf(*old(ch)),
        ensures
            final(self).wf(*final(ch)),
            Self::received(*old(ch), *final(ch), r),
    {
        self.recv_pass(ch)
    }

    /// One pass of a blocking batch receive: like [`MpscConsumer::recv`], but
    /// everything in flight is appended to `out`, and the result is how much
    /// that was.
    pub fn recv_batch(&mut self, ch: &mut Mpsc<T, CAP, W>, out: &mut Vec<T>) -> (r: Step<
        Result<usize, Shutdown>,
        (),
    >)
        requires
            old(self).wf(*old(ch)),
        ensures
            final(self).wf(*final(ch)),
            Self::received_batch(
                *old(ch),
                *final(ch),
                joined(old(ch)@, old(ch)@.len() as int),
                r,
            ),
            final(out)@ == old(out)@ + joined(old(ch)@, old(ch)@.len() as int),
    {
        self.recv_batch_pass(ch, out)
    }

    /// One pass of receiving until the end: everything in flight is appended
    /// to `out`. It is done, and the consumer gone, when the channel has ended;
    /// otherwise the consumer comes back and the next pass is due when [`Mpsc::can_recv`] holds.
    pub fn run_blocking(self, ch: &mut Mpsc<T, CAP, W>, out: &mut Vec<T>) -> (r: Step<(), Self>)
        requires
            self.wf(*old(ch)),
        ensures
            final(ch).wf(),
            r is Done <==> old(ch).closed(),
            r matches Step::Wait(c) ==> c.wf(*final(ch)) && Self::drained(*old(ch), *final(ch)),
            final(out)@ == old(out)@ + joined(old(ch)@, old(ch)@.len() as int),
            final(ch)@ == Seq::new(old(ch)@.len(), |i: int| Seq::<T>::empty()),
            forall|i: int|
                #![trigger final(ch).rings@[i]]
                0 <= i < final(ch).rings@.len() ==> {
                    &&& final(ch).rings@[i].buf.head() == old(ch).rings@[i].buf.head()
                    &&& final(ch).rings@[i].closed == (r is Done || old(ch).rings@[i].closed)
                },
            final(ch).producer_waiters@ == woken_ready(old(ch).producer_waiters@, old(ch)@),
            final(ch).shutdown == old(ch).shutdown,
            final(ch).live_producers == old(ch).live_producers,
            final(ch).live == old(ch).live,
            final(ch).fanin_waiter == old(ch).fanin_waiter,
    {
        let mut consumer: Self = self;
        let _ = consumer.try_recv_batch(ch, out);
        if ch.is_finished() {
            consumer.close(ch);
            Step::Done(())
        } else {
            Step::Wait(consumer)
        }
    }
}

impl<T, const CAP: usize, W: AsyncWaiter> MpscConsumer<T, CAP, W> {
    /// One pass of an awaited receive; see [`MpscConsumer::recv`].
    pub fn recv_async(&mut self, ch: &mut Mpsc<T, CAP, W>) -> (r: Step<Result<T, Shutdown>, ()>)
        requires
            old(self).wf(*old(ch)),
        ensures
            final(self).wf(*final(ch)),
            Self::received(*old(ch), *final(ch), r),
    {
        self.recv_pass(ch)
    }

    /// One pass of an awaited batch receive; see [`MpscConsumer::recv_batch`].
    pub fn recv_batch_async(&mut self, ch: &mut Mpsc<T, CAP, W>, out: &mut Vec<T>) -> (r: Step<
        Result<usize, Shutdown>,
        (),
    >)
        requires
            old(self).wf(*old(ch)),
        ensures
            final(self).wf(*final(ch)),
            Self::received_batch(
                *old(ch),
                *final(ch),
                joined(old(ch)@, old(ch)@.len() as int),
                r,
            ),
            final(out)@ == old(out)@ + joined(old(ch)@, old(ch)@.len() as int),
    {
        self.recv_batch_pass(ch, out)
    }
}

impl<T, const CAP: usize> MpscConsumer<T, CAP, NotifyWaiter> {
    /// One pass of an awaited receive, made after the notification future was
    /// created.
    pub fn recv_async_send(&mut self, ch: &mut Mpsc<T, CAP, NotifyWaiter>) -> (r: Step<
        Result<T, Shutdown>,
        (),
    >)
        requires
            old(self).wf(*old(ch)),
        ensures
            final(self).wf(*final(ch)),
            Self::received(*old(ch), *final(ch), r),
    {
        self.recv_pass(ch)
    }

    /// One pass of an awaited batch receive, made after the notification
    /// future was created.
    pub fn recv_batch_async_send(
        &mut self,
        ch: &mut Mpsc<T, CAP, NotifyWaiter>,
        out: &mut Vec<T>,
    ) -> (r: Step<Result<usize, Shutdown>, ()>)
        requires
            old(self).wf(*old(ch)),
        ensures
            final(self).wf(*final(ch)),
            Self::received_batch(
                *old(ch),
                *final(ch),
                joined(old(ch)@, old(ch)@.len() as int),
                r,
            ),
            final(out)@ == old(out)@ + joined(old(ch)@, old(ch)@.len() as int),
    {
        self.recv_batch_pass(ch, out)
    }
}

/// Handle that ends a channel.
pub struct MpscShutdown<W: Waiter = ParkWaiter> {
    shared: PhantomData<W>,
}

impl<W: Waiter> Clone for MpscShutdown<W> {
    fn clone(&self) -> Self {
        MpscShutdown { shared: PhantomData }
    }
}

impl<W: Waiter> MpscShutdown<W> {
    /// Shut the channel down and wake everybody.
    pub fn signal<T, const CAP: usize>(&self, ch: &mut Mpsc<T, CAP, W>)
        requires
            old(ch).wf(),
        ensures
            final(ch).wf(),
            final(ch).shutdown,
            final(ch).fanin_waiter == old(ch).fanin_waiter.woken(),
            final(ch).producer_waiters@ == woken_all(old(ch).producer_waiters@),
            final(ch).rings == old(ch).rings,
            final(ch).live_producers == old(ch).live_producers,
            final(ch).live == old(ch).live,
    {
        ch.shutdown = true;
        ch.fanin_waiter.wake();
        let m: usize = ch.producer_waiters.len();
        let mut i: usize = 0;
        while i < m
            invariant
                i <= m,
                m == old(ch).producer_waiters@.len(),
                ch.producer_waiters@.len() == m,
                forall|j: int|
                    0 <= j < m ==> (#[trigger] ch.producer_waiters@[j]) == (if j < i {
                        old(ch).producer_waiters@[j].woken()
                    } else {
                        old(ch).producer_waiters@[j]
                    }),
                ch.shutdown,
                ch.fanin_waiter == old(ch).fanin_waiter.woken(),
                ch.rings == old(ch).rings,
                ch.live_producers == old(ch).live_producers,
                ch.live == old(ch).live,
            decreases m - i,
        {
            ch.producer_waiters[i].wake();
            i = i + 1;
        }
        assert(ch.producer_waiters@ =~= woken_all(old(ch).producer_waiters@));
    }

    /// True iff the channel was shut down.
    pub fn is_signaled<T, const CAP: usize>(&self, ch: &Mpsc<T, CAP, W>) -> (b: bool)
        ensures
            b == ch.shutdown,
    {
        ch.shutdown
    }

    /// True iff nothing more will be sent.
    pub fn is_closed<T, const CAP: usize>(&self, ch: &Mpsc<T, CAP, W>) -> (b: bool)
        ensures
            b == ch.closed(),
    {
        ch.is_closed()
    }
}

} // verus!
