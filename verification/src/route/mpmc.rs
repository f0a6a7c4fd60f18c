//! Many producers, many consumers: one shard per consumer, and in each shard
//! one ring per producer.
//!
//! [`Mpmc::new`] builds the shared channel with its producers, its consumers
//! and a shutdown handle. A producer puts an item into its ring of the first
//! shard with room, and goes on with the next shard; a consumer drains the
//! rings of its own shard in producer order.
//!
//! After shutdown what is in flight is still delivered.
use super::hub::Shutdown;
use super::mpsc::{woken_all, woken_at, woken_ready};
use super::queues::{any_ready, first_nonempty, joined, lemma_first_nonempty_is, lemma_joined_empty, lemma_joined_grows, taken_at};
use crate::arith::is_pow2;
use crate::ring_buf::RingBuf;
use crate::round::{lemma_round, lemma_round_back, scan};
use crate::waiter::{AsyncWaiter, BlockingWaiter, ParkWaiter, Step, Waiter};
use core::marker::PhantomData;
use vstd::prelude::*;

verus! {

/// Most producers that one channel can have.
pub const MAX_MPMC_PRODUCERS: usize = 255;

/// What one consumer reads.
pub struct Shard<T, const CAP: usize, W: Waiter = ParkWaiter> {
    /// One ring per producer.
    pub rings: Vec<RingBuf<T, CAP>>,
    /// Where the consumer waits for items.
    pub consumer_waiter: W,
}

impl<T, const CAP: usize, W: Waiter> View for Shard<T, CAP, W> {
    type V = Seq<Seq<T>>;

    /// The items in flight, by producer.
    open spec fn view(&self) -> Seq<Seq<T>> {
        Seq::new(self.rings@.len(), |p: int| self.rings@[p]@)
    }
}

impl<T, const CAP: usize, W: Waiter> Shard<T, CAP, W> {
    /// Validity of a shard with `m` producers.
    pub open spec fn wf(&self, m: int) -> bool {
        &&& self.rings@.len() == m
        &&& forall|p: int| 0 <= p < m ==> (#[trigger] self.rings@[p]).wf()
    }

    /// True iff some ring has an item.
    fn any_ring_has_work(&self) -> (b: bool)
        requires
            self.wf(self.rings@.len() as int),
        ensures
            b == any_ready(self@),
    {
        let mut p: usize = 0;
        while p < self.rings.len()
            invariant
                self.wf(self.rings@.len() as int),
                p <= self.rings@.len(),
                forall|j: int| 0 <= j < p ==> (#[trigger] self@[j]).len() == 0,
            decreases self.rings@.len() - p,
        {
            if !self.rings[p].is_empty() {
                assert(self@[p as int].len() > 0);
                return true;
            }
            assert(self@[p as int].len() == 0);
            p = p + 1;
        }
        false
    }
}

/// State that all handles share.
pub struct Mpmc<T, const CAP: usize, W: Waiter = ParkWaiter> {
    /// One shard per consumer.
    pub shards: Vec<Shard<T, CAP, W>>,
    /// Where each producer waits for room.
    pub producer_waiters: Vec<W>,
    pub shutdown: bool,
}

impl<T, const CAP: usize, W: Waiter> View for Mpmc<T, CAP, W> {
    type V = Seq<Seq<Seq<T>>>;

    /// The items in flight, by shard and producer.
    open spec fn view(&self) -> Seq<Seq<Seq<T>>> {
        Seq::new(self.shards@.len(), |s: int| self.shards@[s]@)
    }
}

/// Slots that producer `p` has free in the first `n` shards.
pub open spec fn free_slots<T>(shards: Seq<Seq<Seq<T>>>, cap: int, p: int, n: int) -> int
    decreases n,
{
    if n <= 0 {
        0
    } else {
        free_slots(shards, cap, p, n - 1) + cap - shards[n - 1][p].len()
    }
}

impl<T, const CAP: usize, W: Waiter> Mpmc<T, CAP, W> {
    /// Number of producers.
    pub open spec fn m(&self) -> int {
        self.producer_waiters@.len() as int
    }

    /// Number of shards.
    pub open spec fn n(&self) -> int {
        self.shards@.len() as int
    }

    /// Validity of the shared state.
    pub open spec fn wf(&self) -> bool {
        &&& 0 < self.m() <= MAX_MPMC_PRODUCERS
        &&& 0 < self.n()
        &&& forall|s: int| 0 <= s < self.n() ==> (#[trigger] self.shards@[s]).wf(self.m())
    }

    /// Where the consumers wait.
    pub open spec fn consumer_waiters(&self) -> Seq<W> {
        Seq::new(self.shards@.len(), |s: int| self.shards@[s].consumer_waiter)
    }

    /// The shards in which producer `p` has room.
    pub open spec fn room(&self, p: int) -> Seq<bool> {
        Seq::new(self.shards@.len(), |s: int| self@[s][p].len() < CAP)
    }

    /// Distance from `start` to the first shard in which producer `p` has
    /// room.
    pub open spec fn route(&self, p: int, start: int) -> int {
        scan(self.room(p), start, 0)
    }

    /// A channel with `m` producers and `n` consumers. `CAP` is a power of
    /// two.
    pub fn new(m: usize, n: usize) -> (r: (
        Self,
        Vec<MpmcProducer<T, CAP, W>>,
        Vec<MpmcConsumer<T, CAP, W>>,
        MpmcShutdown<T, CAP, W>,
    ))
        requires
            0 < m <= MAX_MPMC_PRODUCERS,
            0 < n,
            is_pow2(CAP as int),
        ensures
            r.0.wf(),
            r.0.m() == m,
            r.0.n() == n,
            forall|s: int, p: int| 0 <= s < n && 0 <= p < m ==> (#[trigger] r.0@[s][p]).len() == 0,
            !r.0.shutdown,
            r.0.consumer_waiters() == Seq::new(n as nat, |s: int| W::initial()),
            r.0.producer_waiters@ == Seq::new(m as nat, |p: int| W::initial()),
            r.1@.len() == m,
            forall|p: int|
                0 <= p < m ==> (#[trigger] r.1@[p]).idx() == p && r.1@[p].start(n as int) == p
                    % (n as int),
            r.2@.len() == n,
            forall|s: int| 0 <= s < n ==> (#[trigger] r.2@[s]).at() == s,
    {
        let mut producer_waiters: Vec<W> = Vec::new();
        let mut producers: Vec<MpmcProducer<T, CAP, W>> = Vec::new();
        let mut p: usize = 0;
        while p < m
            invariant
                p <= m,
                0 < n,
                producer_waiters@.len() == p,
                producers@.len() == p,
                forall|j: int|
                    #![trigger producer_waiters@[j]]
                    #![trigger producers@[j]]
                    0 <= j < p ==> producer_waiters@[j] == W::initial() && producers@[j].idx() == j
                        && producers@[j].start(n as int) == j % (n as int),
            decreases m - p,
        {
            producer_waiters.push(W::fresh());
            producers.push(MpmcProducer { my_idx: p, cursor: p % n, shared: PhantomData });
            proof {
                vstd::arithmetic::div_mod::lemma_mod_twice(p as int, n as int);
            }
            p = p + 1;
        }
        let mut shards: Vec<Shard<T, CAP, W>> = Vec::new();
        let mut consumers: Vec<MpmcConsumer<T, CAP, W>> = Vec::new();
        let mut s: usize = 0;
        while s < n
            invariant
                s <= n,
                is_pow2(CAP as int),
                shards@.len() == s,
                consumers@.len() == s,
                forall|j: int|
                    #![trigger shards@[j]]
                    #![trigger consumers@[j]]
                    0 <= j < s ==> {
                        &&& shards@[j].wf(m as int)
                        &&& shards@[j].consumer_waiter == W::initial()
                        &&& consumers@[j].at() == j
                    },
                forall|j: int, p: int|
                    0 <= j < s && 0 <= p < m ==> (#[trigger] shards@[j].rings@[p])@.len() == 0,
            decreases n - s,
        {
            let mut rings: Vec<RingBuf<T, CAP>> = Vec::new();
            let mut q: usize = 0;
            while q < m
                invariant
                    q <= m,
                    is_pow2(CAP as int),
                    rings@.len() == q,
                    forall|j: int|
                        0 <= j < q ==> (#[trigger] rings@[j]).wf() && rings@[j]@.len() == 0,
                decreases m - q,
            {
                rings.push(RingBuf::new());
                q = q + 1;
            }
            shards.push(Shard { rings, consumer_waiter: W::fresh() });
            consumers.push(MpmcConsumer { shard_idx: s, shared: PhantomData });
            s = s + 1;
        }
        let channel: Mpmc<T, CAP, W> = Mpmc { shards, producer_waiters, shutdown: false };
        proof {
            assert(channel.consumer_waiters() =~= Seq::new(n as nat, |s: int| W::initial()));
            assert(channel.producer_waiters@ =~= Seq::new(m as nat, |p: int| W::initial()));
            assert forall|s: int, p: int| 0 <= s < n && 0 <= p < m implies (
            #[trigger] channel@[s][p]).len() == 0 by {
                assert(channel.shards@[s].rings@[p]@.len() == 0);
            }
        }
        (channel, producers, consumers, MpmcShutdown { shared: PhantomData })
    }

    /// What a blocked consumer of shard `s` waits for.
    pub open spec fn recv_ready(&self, s: int) -> bool {
        any_ready(self@[s]) || self.shutdown
    }
}

/// Handle of one producer.
pub struct MpmcProducer<T, const CAP: usize, W: Waiter = ParkWaiter> {
    my_idx: usize,
    cursor: usize,
    shared: PhantomData<(T, W)>,
}

impl<T, const CAP: usize, W: Waiter> MpmcProducer<T, CAP, W> {
    /// Index of this producer.
    pub closed spec fn idx(&self) -> int {
        self.my_idx as int
    }

    /// Shard of `n` shards that this producer tries first.
    pub closed spec fn start(&self, n: int) -> int {
        self.cursor as int % n
    }

    /// The shard that is tried first is one of the `n` shards.
    pub proof fn lemma_start_in_range(&self, n: int)
        requires
            n > 0,
        ensures
            0 <= self.start(n) < n,
    {
        vstd::arithmetic::div_mod::lemma_mod_pos_bound(self.cursor as int, n);
    }

    /// This handle belongs to `ch`.
    pub open spec fn wf(&self, ch: Mpmc<T, CAP, W>) -> bool {
        &&& ch.wf()
        &&& 0 <= self.idx() < ch.m()
    }

    /// Index of this producer.
    pub fn index(&self) -> (i: usize)
        ensures
            i == self.idx(),
    {
        self.my_idx
    }

    /// Register this producer.
    pub fn bind(&self, ch: &mut Mpmc<T, CAP, W>)
        requires
            self.wf(*old(ch)),
        ensures
            final(ch).wf(),
            final(ch).producer_waiters@ == old(ch).producer_waiters@.update(
                self.idx(),
                old(ch).producer_waiters@[self.idx()].bound(),
            ),
            final(ch).shards == old(ch).shards,
            final(ch).shutdown == old(ch).shutdown,
    {
        ch.producer_waiters[self.my_idx].set_worker();
    }

    /// Some shard has room for this producer.
    pub open spec fn send_ready(&self, ch: Mpmc<T, CAP, W>) -> bool {
        exists|s: int| 0 <= s < ch.n() && (#[trigger] ch@[s][self.idx()]).len() < CAP
    }

    /// True iff some shard has room for this producer.
    pub fn has_idle_shard(&self, ch: &Mpmc<T, CAP, W>) -> (b: bool)
        requires
            self.wf(*ch),
        ensures
            b == self.send_ready(*ch),
    {
        let mut s: usize = 0;
        while s < ch.shards.len()
            invariant
                self.wf(*ch),
                s <= ch.shards@.len(),
                forall|j: int| 0 <= j < s ==> (#[trigger] ch@[j][self.idx()]).len() >= CAP,
            decreases ch.shards@.len() - s,
        {
            assert(ch@[s as int][self.idx()] == ch.shards@[s as int].rings@[self.idx()]@);
            if !ch.shards[s].rings[self.my_idx].is_full() {
                return true;
            }
            s = s + 1;
        }
        false
    }

    /// Slots per shard.
    pub fn capacity_per_shard(&self) -> (n: usize)
        ensures
            n == CAP,
    {
        CAP
    }

    /// Slots in all shards.
    pub fn total_capacity(&self, ch: &Mpmc<T, CAP, W>) -> (n: usize)
        requires
            ch.n() * CAP <= usize::MAX,
        ensures
            n == ch.n() * CAP,
    {
        ch.shards.len() * CAP
    }

    /// Free slots in shard `s`.
    pub fn available_in_shard(&self, ch: &Mpmc<T, CAP, W>, s: usize) -> (n: usize)
        requires
            self.wf(*ch),
            s < ch.n(),
        ensures
            n == CAP - ch@[s as int][self.idx()].len(),
    {
        CAP.saturating_sub(ch.shards[s].rings[self.my_idx].len())
    }

    /// Free slots in all shards.
    pub fn available(&self, ch: &Mpmc<T, CAP, W>) -> (n: usize)
        requires
            self.wf(*ch),
            free_slots(ch@, CAP as int, self.idx(), ch.n()) <= usize::MAX,
        ensures
            n == free_slots(ch@, CAP as int, self.idx(), ch.n()),
    {
        let mut total: usize = 0;
        let mut s: usize = 0;
        while s < ch.shards.len()
            invariant
                self.wf(*ch),
                s <= ch.shards@.len(),
                total == free_slots(ch@, CAP as int, self.idx(), s as int),
                free_slots(ch@, CAP as int, self.idx(), ch.n()) <= usize::MAX,
            decreases ch.shards@.len() - s,
        {
            proof {
                lemma_free_slots_grow(*ch, self.idx(), s + 1, ch.n());
                assert(ch.shards@[s as int].rings@[self.idx()].wf());
                assert(free_slots(ch@, CAP as int, self.idx(), s + 1) == total + CAP
                    - ch@[s as int][self.idx()].len());
            }
            total = total + self.available_in_shard(ch, s);
            s = s + 1;
        }
        total
    }

    /// Items of this producer in flight in shard `s`.
    pub fn pending_in_shard(&self, ch: &Mpmc<T, CAP, W>, s: usize) -> (n: usize)
        requires
            self.wf(*ch),
            s < ch.n(),
        ensures
            n == ch@[s as int][self.idx()].len(),
    {
        ch.shards[s].rings[self.my_idx].len()
    }

    /// The channel `next` after `items` were put into this producer's ring of
    /// shard `s`: that shard's consumer is woken, and nothing else changes.
    pub open spec fn posted(
        &self,
        ch: Mpmc<T, CAP, W>,
        next: Mpmc<T, CAP, W>,
        s: int,
        items: Seq<T>,
    ) -> bool {
        &&& next@ == ch@.update(s, ch@[s].update(self.idx(), ch@[s][self.idx()] + items))
        &&& next.consumer_waiters() == woken_at(ch.consumer_waiters(), s)
        &&& next.producer_waiters == ch.producer_waiters
        &&& next.shutdown == ch.shutdown
    }

    /// The channel `next` is as `ch`.
    pub open spec fn kept(ch: Mpmc<T, CAP, W>, next: Mpmc<T, CAP, W>) -> bool {
        &&& next@ == ch@
        &&& next.consumer_waiters() == ch.consumer_waiters()
        &&& next.producer_waiters == ch.producer_waiters
        &&& next.shutdown == ch.shutdown
    }

    /// How sending `value` without waiting ends, and the handle and the
    /// channel after it.
    pub open spec fn sent(
        &self,
        ch: Mpmc<T, CAP, W>,
        value: T,
        handle: Self,
        next: Mpmc<T, CAP, W>,
        accepted: bool,
    ) -> bool {
        let k = ch.route(self.idx(), self.start(ch.n()));
        let s = (self.start(ch.n()) + k) % ch.n();
        &&& handle.idx() == self.idx()
        &&& accepted <==> k < ch.n()
        &&& if accepted {
            &&& self.posted(ch, next, s, seq![value])
            &&& handle.start(ch.n()) == (s + 1) % ch.n()
        } else {
            &&& Self::kept(ch, next)
            &&& handle.start(ch.n()) == self.start(ch.n())
        }
    }

    /// Send without waiting, to the first shard with room. The value comes
    /// back iff no shard has any.
    pub fn try_send(&mut self, ch: &mut Mpmc<T, CAP, W>, value: T) -> (r: Result<(), T>)
        requires
            old(self).wf(*old(ch)),
        ensures
            final(self).wf(*final(ch)),
            r == (if old(self).send_ready(*old(ch)) {
                Ok(())
            } else {
                Err(value)
            }),
            old(self).sent(*old(ch), value, *final(self), *final(ch), r is Ok),
    {
        let n: usize = ch.shards.len();
        let start: usize = self.cursor % n;
        let mut k: usize = 0;
        while k < n
            invariant
                k <= n,
                n == ch.n(),
                *ch == *old(ch),
                *self == *old(self),
                old(self).wf(*old(ch)),
                start == self.start(n as int),
                start < n,
                scan(ch.room(self.idx()), start as int, 0) == scan(
                    ch.room(self.idx()),
                    start as int,
                    k as int,
                ),
                forall|j: int|
                    0 <= j < k ==> (#[trigger] ch@[(start + j) % (n as int)][self.idx()]).len()
                        >= CAP,
            decreases n - k,
        {
            let s: usize = if k < n - start {
                start + k
            } else {
                k - (n - start)
            };
            proof {
                lemma_round(start as int, k as int, n as int);
                assert(ch.room(self.idx())[s as int] == (ch@[s as int][self.idx()].len() < CAP));
                assert(ch@[s as int][self.idx()] == ch.shards@[s as int].rings@[self.idx()]@);
                assert(ch.shards@[s as int].rings@[self.idx()].wf());
            }
            if !ch.shards[s].rings[self.my_idx].is_full() {
                ch.shards[s].rings[self.my_idx].push(value);
                ch.shards[s].consumer_waiter.wake();
                self.cursor = if s + 1 == n {
                    0
                } else {
                    s + 1
                };
                proof {
                    lemma_round(s as int, 1, n as int);
                    lemma_round(self.cursor as int, 0, n as int);
                    let p = self.idx();
                    assert(old(ch)@[s as int][p].push(value) =~= old(ch)@[s as int][p]
                        + seq![value]);
                    assert(ch@[s as int] =~= old(ch)@[s as int].update(
                        p,
                        old(ch)@[s as int][p] + seq![value],
                    ));
                    assert(ch@ =~= old(ch)@.update(
                        s as int,
                        old(ch)@[s as int].update(p, old(ch)@[s as int][p] + seq![value]),
                    ));
                    assert(ch.consumer_waiters() =~= woken_at(
                        old(ch).consumer_waiters(),
                        s as int,
                    ));
                    assert(old(ch)@[s as int][p].len() < CAP);
                }
                return Ok(());
            }
            k = k + 1;
        }
        proof {
            assert forall|s: int| 0 <= s < n implies (#[trigger] ch@[s][self.idx()]).len() >= CAP by {
                lemma_round_back(start as int, s, n as int);
                let j = if s >= start {
                    s - start
                } else {
                    s - start + n
                };
                assert(ch@[(start + j) % (n as int)][self.idx()].len() >= CAP);
            }
        }
        Err(value)
    }

    /// Move items from the front of `items` to the first shard with room, as
    /// many as that shard has room for. Returns how many.
    pub fn try_send_batch(&mut self, ch: &mut Mpmc<T, CAP, W>, items: &mut Vec<T>) -> (taken: usize)
        requires
            old(self).wf(*old(ch)),
        ensures
            final(self).wf(*final(ch)),
            final(self).idx() == old(self).idx(),
            final(items)@ == old(items)@.skip(taken as int),
            ({
                let n = old(ch).n();
                let p = old(self).idx();
                let k = old(ch).route(p, old(self).start(n));
                let s = (old(self).start(n) + k) % n;
                if old(items)@.len() > 0 && k < n {
                    let room = CAP - old(ch)@[s][p].len();
                    &&& taken == (if old(items)@.len() <= room {
                        old(items)@.len() as int
                    } else {
                        room
                    })
                    &&& old(self).posted(*old(ch), *final(ch), s, old(items)@.take(taken as int))
                    &&& final(self).start(n) == (s + 1) % n
                } else {
                    &&& taken == 0
                    &&& Self::kept(*old(ch), *final(ch))
                    &&& final(self).start(n) == old(self).start(n)
                }
            }),
    {
        if items.is_empty() {
            assert(items@ =~= items@.skip(0));
            return 0;
        }
        let n: usize = ch.shards.len();
        let start: usize = self.cursor % n;
        let mut k: usize = 0;
        while k < n
            invariant
                k <= n,
                n == ch.n(),
                *ch == *old(ch),
                *self == *old(self),
                *items == *old(items),
                items@.len() > 0,
                old(self).wf(*old(ch)),
                start == self.start(n as int),
                start < n,
                scan(ch.room(self.idx()), start as int, 0) == scan(
                    ch.room(self.idx()),
                    start as int,
                    k as int,
                ),
            decreases n - k,
        {
            let s: usize = if k < n - start {
                start + k
            } else {
                k - (n - start)
            };
            proof {
                lemma_round(start as int, k as int, n as int);
                assert(ch.room(self.idx())[s as int] == (ch@[s as int][self.idx()].len() < CAP));
                assert(ch@[s as int][self.idx()] == ch.shards@[s as int].rings@[self.idx()]@);
                assert(ch.shards@[s as int].rings@[self.idx()].wf());
            }
            let used: usize = ch.shards[s].rings[self.my_idx].len();
            if used < CAP {
                let room: usize = CAP - used;
                let take: usize = if items.len() <= room {
                    items.len()
                } else {
                    room
                };
                let mut front: Vec<T> = items.split_off(take);
                std::mem::swap(items, &mut front);
                let ghost moved = front@;
                let ghost p = self.idx();
                proof {
                    assert(moved =~= old(items)@.take(take as int));
                    assert(items@ =~= old(items)@.skip(take as int));
                    assert(old(ch)@[s as int][p] + moved.take(0) =~= old(ch)@[s as int][p]);
                }
                for v in it: front
                    invariant
                        it.seq() == moved,
                        moved.len() == take,
                        take + used <= CAP,
                        s < n,
                        n == ch.n(),
                        p == self.my_idx,
                        *self == *old(self),
                        old(self).wf(*old(ch)),
                        old(ch).n() == n,
                        old(ch)@[s as int][p].len() == used,
                        ch.wf(),
                        ch.m() == old(ch).m(),
                        ch.shards@[s as int].rings@[p]@ == old(ch)@[s as int][p] + moved.take(
                            it.index() as int,
                        ),
                        forall|j: int|
                            0 <= j < n && j != s ==> (#[trigger] ch.shards@[j]) == old(ch).shards@[j],
                        forall|j: int|
                            0 <= j < ch.m() && j != p ==> (#[trigger] ch.shards@[s as int].rings@[j])
                                == old(ch).shards@[s as int].rings@[j],
                        ch.shards@[s as int].consumer_waiter == old(ch).shards@[s as int].consumer_waiter,
                        ch.producer_waiters == old(ch).producer_waiters,
                        ch.shutdown == old(ch).shutdown,
                {
                    let ghost i = it.index() as int;
                    proof {
                        assert(ch.shards@[s as int].rings@[p].wf());
                        assert(moved.take(i + 1) =~= moved.take(i).push(moved[i]));
                    }
                    ch.shards[s].rings[self.my_idx].push(v);
                    proof {
                        assert(old(ch)@[s as int][p] + moved.take(i + 1) =~= (old(ch)@[s as int][p] + moved.take(i)).push(moved[i]));
                    }
                }
                ch.shards[s].consumer_waiter.wake();
                self.cursor = if s + 1 == n {
                    0
                } else {
                    s + 1
                };
                proof {
                    lemma_round(s as int, 1, n as int);
                    lemma_round(self.cursor as int, 0, n as int);
                    assert(moved.take(take as int) =~= moved);
                    assert(ch@[s as int] =~= old(ch)@[s as int].update(
                        p,
                        old(ch)@[s as int][p] + moved,
                    ));
                    assert(ch@ =~= old(ch)@.update(
                        s as int,
                        old(ch)@[s as int].update(p, old(ch)@[s as int][p] + moved),
                    ));
                    assert(ch.consumer_waiters() =~= woken_at(
                        old(ch).consumer_waiters(),
                        s as int,
                    ));
                }
                return take;
            }
            k = k + 1;
        }
        assert(items@ =~= items@.skip(0));
        0
    }

    fn send_pass(&mut self, ch: &mut Mpmc<T, CAP, W>, value: T) -> (r: Step<(), T>)
        requires
            old(self).wf(*old(ch)),
        ensures
            final(self).wf(*final(ch)),
            r == (if old(self).send_ready(*old(ch)) {
                Step::Done(())
            } else {
                Step::Wait(value)
            }),
            old(self).sent(*old(ch), value, *final(self), *final(ch), r is Done),
    {
        match self.try_send(ch, value) {
            Ok(_) => Step::Done(()),
            Err(v) => Step::Wait(v),
        }
    }
}

/// More shards have no fewer free slots.
proof fn lemma_free_slots_grow<T, const CAP: usize, W: Waiter>(
    ch: Mpmc<T, CAP, W>,
    p: int,
    a: int,
    b: int,
)
    requires
        ch.wf(),
        0 <= p < ch.m(),
        0 <= a <= b <= ch.n(),
    ensures
        free_slots(ch@, CAP as int, p, a) <= free_slots(ch@, CAP as int, p, b),
    decreases b - a,
{
    if a < b {
        lemma_free_slots_grow(ch, p, a, b - 1);
        assert(ch.shards@[b - 1].rings@[p].wf());
        assert(ch@[b - 1][p] == ch.shards@[b - 1].rings@[p]@);
    }
}

impl<T, const CAP: usize, W: BlockingWaiter> MpmcProducer<T, CAP, W> {
    /// One pass of a blocking send: done when the value is accepted; otherwise
    /// it comes back and the next pass is due when
    /// [`MpmcProducer::has_idle_shard`] holds.
    pub fn send(&mut self, ch: &mut Mpmc<T, CAP, W>, value: T) -> (r: Step<(), T>)
        requires
            old(self).wf(*old(ch)),
        ensures
            final(self).wf(*final(ch)),
            r == (if old(self).send_ready(*old(ch)) {
                Step::Done(())
            } else {
                Step::Wait(value)
            }),
            old(self).sent(*old(ch), value, *final(self), *final(ch), r is Done),
    {
        self.send_pass(ch, value)
    }
}

impl<T, const CAP: usize, W: AsyncWaiter> MpmcProducer<T, CAP, W> {
    /// One pass of an awaited send; see [`MpmcProducer::send`].
    pub fn send_async(&mut self, ch: &mut Mpmc<T, CAP, W>, value: T) -> (r: Step<(), T>)
        requires
            old(self).wf(*old(ch)),
        ensures
            final(self).wf(*final(ch)),
            r == (if old(self).send_ready(*old(ch)) {
                Step::Done(())
            } else {
                Step::Wait(value)
            }),
            old(self).sent(*old(ch), value, *final(self), *final(ch), r is Done),
    {
        self.send_pass(ch, value)
    }
}

/// Handle of one consumer.
pub struct MpmcConsumer<T, const CAP: usize, W: Waiter = ParkWaiter> {
    shard_idx: usize,
    shared: PhantomData<(T, W)>,
}

impl<T, const CAP: usize, W: Waiter> MpmcConsumer<T, CAP, W> {
    /// Index of this consumer's shard.
    pub closed spec fn at(&self) -> int {
        self.shard_idx as int
    }

    /// This handle belongs to `ch`.
    pub open spec fn wf(&self, ch: Mpmc<T, CAP, W>) -> bool {
        &&& ch.wf()
        &&& 0 <= self.at() < ch.n()
    }

    /// Index of this consumer's shard.
    pub fn shard(&self) -> (s: usize)
        ensures
            s == self.at(),
    {
        self.shard_idx
    }

    /// Register this consumer.
    pub fn bind(&self, ch: &mut Mpmc<T, CAP, W>)
        requires
            self.wf(*old(ch)),
        ensures
            final(ch).wf(),
            final(ch)@ == old(ch)@,
            final(ch).consumer_waiters() == old(ch).consumer_waiters().update(
                self.at(),
                old(ch).consumer_waiters()[self.at()].bound(),
            ),
            final(ch).producer_waiters == old(ch).producer_waiters,
            final(ch).shutdown == old(ch).shutdown,
    {
        ch.shards[self.shard_idx].consumer_waiter.set_worker();
        proof {
            assert(ch@[self.at()] =~= old(ch)@[self.at()]);
            assert(ch@ =~= old(ch)@);
            assert(ch.consumer_waiters() =~= old(ch).consumer_waiters().update(
                self.at(),
                old(ch).consumer_waiters()[self.at()].bound(),
            ));
        }
    }

    /// Slots per producer.
    pub fn capacity_per_producer(&self) -> (n: usize)
        ensures
            n == CAP,
    {
        CAP
    }

    /// Slots of all producers in this shard.
    pub fn total_capacity(&self, ch: &Mpmc<T, CAP, W>) -> (n: usize)
        requires
            ch.m() * CAP <= usize::MAX,
        ensures
            n == ch.m() * CAP,
    {
        ch.producer_waiters.len() * CAP
    }

    /// Items in flight in this shard.
    pub fn pending(&self, ch: &Mpmc<T, CAP, W>) -> (n: usize)
        requires
            self.wf(*ch),
            joined(ch@[self.at()], ch.m()).len() <= usize::MAX,
        ensures
            n == joined(ch@[self.at()], ch.m()).len(),
    {
        let m: usize = ch.producer_waiters.len();
        let ghost qs = ch@[self.at()];
        let mut total: usize = 0;
        let mut p: usize = 0;
        while p < m
            invariant
                self.wf(*ch),
                qs == ch@[self.at()],
                qs.len() == m,
                m == ch.m(),
                p <= m,
                joined(qs, m as int).len() <= usize::MAX,
                total == joined(qs, p as int).len(),
            decreases m - p,
        {
            proof {
                lemma_joined_grows(qs, p + 1, m as int);
                assert(joined(qs, p + 1) == joined(qs, p as int) + qs[p as int]);
            }
            total = total + self.pending_from(ch, p);
            p = p + 1;
        }
        total
    }

    /// Free slots in this shard.
    pub fn available(&self, ch: &Mpmc<T, CAP, W>) -> (n: usize)
        requires
            self.wf(*ch),
            ch.m() * CAP - joined(ch@[self.at()], ch.m()).len() <= usize::MAX,
        ensures
            n == ch.m() * CAP - joined(ch@[self.at()], ch.m()).len(),
    {
        let m: usize = ch.producer_waiters.len();
        let ghost qs = ch@[self.at()];
        let mut total: usize = 0;
        let mut p: usize = 0;
        assert(0 * CAP == 0);
        while p < m
            invariant
                self.wf(*ch),
                qs == ch@[self.at()],
                qs.len() == m,
                m == ch.m(),
                p <= m,
                m * CAP - joined(qs, m as int).len() <= usize::MAX,
                total == p * CAP - joined(qs, p as int).len(),
            decreases m - p,
        {
            proof {
                lemma_room_grows(*ch, self.at(), p + 1, m as int);
                assert(joined(qs, p + 1) == joined(qs, p as int) + qs[p as int]);
                assert((p + 1) * CAP == p * CAP + CAP) by (nonlinear_arith);
                assert(ch.shards@[self.at()].rings@[p as int].wf());
            }
            total = total + CAP.saturating_sub(self.pending_from(ch, p));
            p = p + 1;
        }
        total
    }

    /// Items of producer `p` in flight in this shard.
    pub fn pending_from(&self, ch: &Mpmc<T, CAP, W>, p: usize) -> (n: usize)
        requires
            self.wf(*ch),
            p < ch.m(),
        ensures
            n == ch@[self.at()][p as int].len(),
    {
        ch.shards[self.shard_idx].rings[p].len()
    }

    /// True iff something is in flight in this shard.
    pub fn has_pending(&self, ch: &Mpmc<T, CAP, W>) -> (b: bool)
        requires
            self.wf(*ch),
        ensures
            b == any_ready(ch@[self.at()]),
    {
        ch.shards[self.shard_idx].any_ring_has_work()
    }

    /// True iff a blocked consumer of this shard has something to do.
    pub fn can_recv(&self, ch: &Mpmc<T, CAP, W>) -> (b: bool)
        requires
            self.wf(*ch),
        ensures
            b == ch.recv_ready(self.at()),
    {
        self.has_pending(ch) || ch.shutdown
    }

    /// Nothing but the items of this shard and the waiters of the producers
    /// differs.
    pub open spec fn read_only(&self, ch: Mpmc<T, CAP, W>, next: Mpmc<T, CAP, W>) -> bool {
        &&& next@ == ch@.update(self.at(), next@[self.at()])
        &&& next.consumer_waiters() == ch.consumer_waiters()
        &&& next.m() == ch.m()
        &&& next.shutdown == ch.shutdown
    }

    /// How taking one item ends, and the channel `next` after it: the item is
    /// the oldest of the first producer that has any, and that producer is
    /// woken.
    pub open spec fn took(&self, ch: Mpmc<T, CAP, W>, next: Mpmc<T, CAP, W>, r: Option<T>) -> bool {
        let qs = ch@[self.at()];
        let p = first_nonempty(qs, 0);
        &&& self.read_only(ch, next)
        &&& if p < qs.len() {
            &&& r == Some(qs[p][0])
            &&& next@[self.at()] == taken_at(qs, p)
            &&& next.producer_waiters@ == woken_at(ch.producer_waiters@, p)
        } else {
            &&& r is None
            &&& next@[self.at()] == qs
            &&& next.producer_waiters@ == ch.producer_waiters@
        }
    }

    /// Take one item without waiting, from the first producer that has any.
    pub fn try_recv(&self, ch: &mut Mpmc<T, CAP, W>) -> (r: Option<T>)
        requires
            self.wf(*old(ch)),
        ensures
            self.wf(*final(ch)),
            self.took(*old(ch), *final(ch), r),
            r is Some <==> any_ready(old(ch)@[self.at()]),
    {
        let m: usize = ch.producer_waiters.len();
        let ghost qs = ch@[self.at()];
        let mut p: usize = 0;
        while p < m
            invariant
                p <= m,
                m == ch.m(),
                *ch == *old(ch),
                self.wf(*ch),
                qs == ch@[self.at()],
                qs.len() == m,
                forall|j: int| 0 <= j < p ==> (#[trigger] qs[j]).len() == 0,
            decreases m - p,
        {
            proof {
                assert(qs[p as int] == ch.shards@[self.at()].rings@[p as int]@);
                assert(ch.shards@[self.at()].rings@[p as int].wf());
            }
            if !ch.shards[self.shard_idx].rings[p].is_empty() {
                let value: T = ch.shards[self.shard_idx].rings[p].pop();
                ch.producer_waiters[p].wake();
                proof {
                    assert(qs[p as int].len() > 0);
                    lemma_first_nonempty_is(qs, 0, p as int);
                    assert(ch@[self.at()] =~= taken_at(qs, p as int));
                    assert(ch@ =~= old(ch)@.update(self.at(), ch@[self.at()]));
                    assert(ch.consumer_waiters() =~= old(ch).consumer_waiters());
                    assert(ch.producer_waiters@ =~= woken_at(
                        old(ch).producer_waiters@,
                        p as int,
                    ));
                    assert(any_ready(qs));
                }
                return Some(value);
            }
            p = p + 1;
        }
        proof {
            lemma_first_nonempty_is(qs, 0, m as int);
            assert(ch@ =~= old(ch)@.update(self.at(), ch@[self.at()]));
        }
        None
    }

    /// The channel `next` after everything in this shard was taken.
    pub open spec fn drained(&self, ch: Mpmc<T, CAP, W>, next: Mpmc<T, CAP, W>) -> bool {
        &&& self.read_only(ch, next)
        &&& next@[self.at()] == Seq::new(ch.m() as nat, |p: int| Seq::<T>::empty())
        &&& next.producer_waiters@ == woken_ready(ch.producer_waiters@, ch@[self.at()])
    }

    /// Take everything in the rings of this shard.
    fn drain_all(&self, ch: &mut Mpmc<T, CAP, W>, out: &mut Vec<T>) -> (count: usize)
        requires
            self.wf(*old(ch)),
        ensures
            self.wf(*final(ch)),
            self.drained(*old(ch), *final(ch)),
            count == joined(old(ch)@[self.at()], old(ch).m()).len(),
            final(out)@ == old(out)@ + joined(old(ch)@[self.at()], old(ch).m()),
            count > 0 <==> any_ready(old(ch)@[self.at()]),
    {
        let m: usize = ch.producer_waiters.len();
        let ghost s = self.at();
        let ghost qs = ch@[s];
        let mut count: usize = 0;
        let mut p: usize = 0;
        assert(out@ =~= old(out)@ + joined(qs, 0));
        while p < m
            invariant
                p <= m,
                m == ch.m(),
                m == old(ch).m(),
                ch.n() == old(ch).n(),
                ch.wf(),
                s == self.shard_idx,
                self.wf(*old(ch)),
                self.wf(*ch),
                qs == old(ch)@[s],
                qs.len() == m,
                forall|j: int|
                    0 <= j < ch.n() && j != s ==> (#[trigger] ch.shards@[j]) == old(ch).shards@[j],
                ch.shards@[s].consumer_waiter == old(ch).shards@[s].consumer_waiter,
                forall|j: int|
                    #![trigger ch.shards@[s].rings@[j]]
                    0 <= j < m ==> ch.shards@[s].rings@[j]@ == (if j < p {
                        Seq::<T>::empty()
                    } else {
                        qs[j]
                    }),
                forall|j: int|
                    0 <= j < m ==> (#[trigger] ch.producer_waiters@[j]) == (if j < p
                        && qs[j].len() > 0 {
                        old(ch).producer_waiters@[j].woken()
                    } else {
                        old(ch).producer_waiters@[j]
                    }),
                ch.shutdown == old(ch).shutdown,
                out@ == old(out)@ + joined(qs, p as int),
                count == joined(qs, p as int).len(),
            decreases m - p,
        {
            assert(ch.shards@[s].rings@[p as int].wf());
            let n: usize = ch.shards[self.shard_idx].rings[p].drain(out);
            proof {
                assert(joined(qs, p + 1) == joined(qs, p as int) + qs[p as int]);
                assert(out@ =~= old(out)@ + joined(qs, p + 1));
                assert(out.len() == out@.len());
            }
            if n > 0 {
                count = count + n;
                ch.producer_waiters[p].wake();
            }
            p = p + 1;
        }
        proof {
            assert(ch@[s] =~= Seq::new(m as nat, |p: int| Seq::<T>::empty()));
            assert(ch@ =~= old(ch)@.update(s, ch@[s]));
            assert(ch.consumer_waiters() =~= old(ch).consumer_waiters());
            assert(ch.producer_waiters@ =~= woken_ready(old(ch).producer_waiters@, qs));
            lemma_joined_empty(qs, m as int);
        }
        count
    }

    /// Take everything in this shard without waiting and append it to `out`.
    /// Returns how much there was.
    pub fn try_recv_batch(&self, ch: &mut Mpmc<T, CAP, W>, out: &mut Vec<T>) -> (count: usize)
        requires
            self.wf(*old(ch)),
        ensures
            self.wf(*final(ch)),
            self.drained(*old(ch), *final(ch)),
            count == joined(old(ch)@[self.at()], old(ch).m()).len(),
            final(out)@ == old(out)@ + joined(old(ch)@[self.at()], old(ch).m()),
            count > 0 <==> any_ready(old(ch)@[self.at()]),
    {
        self.drain_all(ch, out)
    }

    /// How a pass of a blocking receive ends, and the channel `next` after it.
    pub open spec fn received(
        &self,
        ch: Mpmc<T, CAP, W>,
        next: Mpmc<T, CAP, W>,
        r: Step<Result<T, Shutdown>, ()>,
    ) -> bool {
        if any_ready(ch@[self.at()]) {
            &&& r is Done
            &&& r->Done_0 is Ok
            &&& self.took(ch, next, Some(r->Done_0->Ok_0))
        } else {
            &&& r == (if ch.shutdown {
                Step::Done(Err(Shutdown))
            } else {
                Step::<Result<T, Shutdown>, ()>::Wait(())
            })
            &&& self.took(ch, next, None)
        }
    }

    fn recv_pass(&self, ch: &mut Mpmc<T, CAP, W>) -> (r: Step<Result<T, Shutdown>, ()>)
        requires
            self.wf(*old(ch)),
        ensures
            self.wf(*final(ch)),
            self.received(*old(ch), *final(ch), r),
    {
        match self.try_recv(ch) {
            Some(v) => Step::Done(Ok(v)),
            None => if ch.shutdown {
                Step::Done(Err(Shutdown))
            } else {
                Step::Wait(())
            },
        }
    }
}

/// More producers leave no less room.
proof fn lemma_room_grows<T, const CAP: usize, W: Waiter>(
    ch: Mpmc<T, CAP, W>,
    s: int,
    a: int,
    b: int,
)
    requires
        ch.wf(),
        0 <= s < ch.n(),
        0 <= a <= b <= ch.m(),
    ensures
        0 <= a * CAP - joined(ch@[s], a).len() <= b * CAP - joined(ch@[s], b).len(),
    decreases b,
{
    if b > 0 {
        assert(ch.shards@[s].rings@[b - 1].wf());
        assert(ch@[s][b - 1] == ch.shards@[s].rings@[b - 1]@);
        assert(b * CAP == (b - 1) * CAP + CAP) by (nonlinear_arith);
        if a < b {
            lemma_room_grows(ch, s, a, b - 1);
        } else {
            lemma_room_grows(ch, s, a - 1, b - 1);
        }
    } else {
        assert(0 * CAP == 0);
    }
}

impl<T, const CAP: usize, W: BlockingWaiter> MpmcConsumer<T, CAP, W> {
    /// One pass of a blocking receive: done with an item, or with
    /// [`Shutdown`] when the channel is shut down and this shard is drained;
    /// otherwise the next pass is due when [`MpmcConsumer::can_recv`] holds.
    pub fn recv(&self, ch: &mut Mpmc<T, CAP, W>) -> (r: Step<Result<T, Shutdown>, ()>)
        requires
            self.wf(*old(ch)),
        ensures
            self.wf(*final(ch)),
            self.received(*old(ch), *final(ch), r),
    {
        self.recv_pass(ch)
    }

    /// One pass of a blocking batch receive: like [`MpmcConsumer::recv`], but
    /// everything in this shard is appended to `out`, and the result is how
    /// much that was.
    pub fn recv_batch(&self, ch: &mut Mpmc<T, CAP, W>, out: &mut Vec<T>) -> (r: Step<
        Result<usize, Shutdown>,
        (),
    >)
        requires
            self.wf(*old(ch)),
        ensures
            self.wf(*final(ch)),
            self.drained(*old(ch), *final(ch)),
            final(out)@ == old(out)@ + joined(old(ch)@[self.at()], old(ch).m()),
            if any_ready(old(ch)@[self.at()]) {
                &&& r is Done
                &&& r->Done_0 is Ok
                &&& r->Done_0->Ok_0 == joined(old(ch)@[self.at()], old(ch).m()).len()
            } else {
                r == (if old(ch).shutdown {
                    Step::Done(Err(Shutdown))
                } else {
                    Step::<Result<usize, Shutdown>, ()>::Wait(())
                })
            },
    {
        let count: usize = self.drain_all(ch, out);
        if count > 0 {
            return Step::Done(Ok(count));
        }
        if ch.shutdown {
            Step::Done(Err(Shutdown))
        } else {
            Step::Wait(())
        }
    }
}

impl<T, const CAP: usize, W: AsyncWaiter> MpmcConsumer<T, CAP, W> {
    /// One pass of an awaited receive; see [`MpmcConsumer::recv`].
    pub fn recv_async(&self, ch: &mut Mpmc<T, CAP, W>) -> (r: Step<Result<T, Shutdown>, ()>)
        requires
            self.wf(*old(ch)),
        ensures
            self.wf(*final(ch)),
            self.received(*old(ch), *final(ch), r),
    {
        self.recv_pass(ch)
    }
}

/// Handle that ends a channel.
pub struct MpmcShutdown<T, const CAP: usize, W: Waiter = ParkWaiter> {
    shared: PhantomData<(T, W)>,
}

impl<T, const CAP: usize, W: Waiter> Clone for MpmcShutdown<T, CAP, W> {
    fn clone(&self) -> Self {
        MpmcShutdown { shared: PhantomData }
    }
}

impl<T, const CAP: usize, W: Waiter> MpmcShutdown<T, CAP, W> {
    /// Shut the channel down and wake everybody.
    pub fn signal(&self, ch: &mut Mpmc<T, CAP, W>)
        requires
            old(ch).wf(),
        ensures
            final(ch).wf(),
            final(ch).shutdown,
            final(ch)@ == old(ch)@,
            final(ch).consumer_waiters() == woken_all(old(ch).consumer_waiters()),
            final(ch).producer_waiters@ == woken_all(old(ch).producer_waiters@),
    {
        ch.shutdown = true;
        let n: usize = ch.shards.len();
        let mut s: usize = 0;
        while s < n
            invariant
                s <= n,
                old(ch).wf(),
                ch.n() == n,
                old(ch).n() == n,
                ch.producer_waiters == old(ch).producer_waiters,
                ch.shutdown,
                forall|j: int|
                    0 <= j < n ==> (#[trigger] ch.shards@[j]) == (if j < s {
                        Shard {
                            consumer_waiter: old(ch).shards@[j].consumer_waiter.woken(),
                            ..old(ch).shards@[j]
                        }
                    } else {
                        old(ch).shards@[j]
                    }),
            decreases n - s,
        {
            ch.shards[s].consumer_waiter.wake();
            s = s + 1;
        }
        let m: usize = ch.producer_waiters.len();
        let ghost shards = ch.shards;
        let mut p: usize = 0;
        while p < m
            invariant
                p <= m,
                m == old(ch).m(),
                ch.m() == m,
                ch.shards == shards,
                ch.shutdown,
                forall|j: int|
                    0 <= j < m ==> (#[trigger] ch.producer_waiters@[j]) == (if j < p {
                        old(ch).producer_waiters@[j].woken()
                    } else {
                        old(ch).producer_waiters@[j]
                    }),
            decreases m - p,
        {
            ch.producer_waiters[p].wake();
            p = p + 1;
        }
        proof {
            assert forall|j: int| 0 <= j < n implies ch@[j] == old(ch)@[j] by {
                assert(ch.shards@[j].rings == old(ch).shards@[j].rings);
                assert(ch@[j] =~= old(ch)@[j]);
            }
            assert(ch@ =~= old(ch)@);
            assert(ch.consumer_waiters() =~= woken_all(old(ch).consumer_waiters()));
            assert(ch.producer_waiters@ =~= woken_all(old(ch).producer_waiters@));
        }
    }

    /// True iff the channel was shut down.
    pub fn is_signaled(&self, ch: &Mpmc<T, CAP, W>) -> (b: bool)
        ensures
            b == ch.shutdown,
    {
        ch.shutdown
    }
}

} // verus!
