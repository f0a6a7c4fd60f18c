//! Many producers, many consumers, with a bitmap per shard.
//!
//! Like [`crate::route::mpmc`], but each shard has a [`SignalSet`] whose bit
//! `p` says that producer `p` may have items there, and each producer waits
//! for room on a [`Signal`] of its own. Bits are set by every send and cleared
//! only by a consumer that is about to sleep, which then looks at every ring
//! once more.
//!
//! After shutdown what is in flight is still delivered.
use super::names::{append_decimal, decimal, leaked};
use super::signal::{locked, released, OwnedBool, Signal};
use super::signal_set::{SignalId, SignalSet};
use crate::arith::is_pow2;
use crate::bits::{bit, bit_set, lemma_has_bit, lemma_has_low_mask, lemma_has_ops, lemma_trailing_zeros, lemma_zero_iff, low_mask};
use crate::ring_buf::RingBuf;
use crate::round::{lemma_round, lemma_round_back, scan};
use crate::route::hub::Shutdown;
use crate::route::queues::{any_ready, first_nonempty, joined, lemma_first_nonempty_is, lemma_joined_empty, taken_at};
use crate::waiter::{ParkWaiter, Step, Waiter};
use core::marker::PhantomData;
use vstd::prelude::*;
use vstd::string::StringExecFns;

verus! {

/// Bit of every shard's bitmap that stands for shutdown.
pub const SHUTDOWN_BIT: u8 = 63;

/// Most producers that one channel can have.
pub const MAX_MPMC_PRODUCERS: usize = 63;

/// Name under which producer `p` is registered in shard `s`.
pub open spec fn ring_name(s: int, p: int) -> Seq<char> {
    "mpmc_s"@ + decimal(s as nat) + "_p"@ + decimal(p as nat)
}

/// Make up that name.
fn numbered_ring(s: usize, p: usize) -> (name: &'static str)
    ensures
        name@ == ring_name(s as int, p as int),
{
    let mut text: String = String::from_str("mpmc_s");
    append_decimal(&mut text, s);
    text.append("_p");
    append_decimal(&mut text, p);
    leaked(text)
}

/// What one consumer reads.
pub struct Shard<T, const CAP: usize> {
    /// Bit `p` is set if ring `p` has an item.
    pub full_set: SignalSet<ParkWaiter>,
    /// One ring per producer.
    pub rings: Vec<RingBuf<T, CAP>>,
    /// The bits of all producers.
    pub full_mask: u64,
}

impl<T, const CAP: usize> View for Shard<T, CAP> {
    type V = Seq<Seq<T>>;

    /// The items in flight, by producer.
    open spec fn view(&self) -> Seq<Seq<T>> {
        Seq::new(self.rings@.len(), |p: int| self.rings@[p]@)
    }
}

impl<T, const CAP: usize> Shard<T, CAP> {
    /// The bitmap.
    pub open spec fn word(&self) -> u64 {
        self.full_set.chunks@[0]
    }

    /// Validity of a shard with `m` producers: a ring with an item has its bit
    /// set.
    pub open spec fn wf(&self, m: int) -> bool {
        &&& self.full_set.wf()
        &&& self.full_set.chunks@.len() == 1
        &&& 0 < m <= MAX_MPMC_PRODUCERS
        &&& self.full_mask == low_mask(m)
        &&& self.rings@.len() == m
        &&& forall|p: int| 0 <= p < m ==> (#[trigger] self.rings@[p]).wf()
        &&& forall|p: int|
            0 <= p < m && (#[trigger] self.rings@[p])@.len() > 0 ==> bit_set(self.word(), p)
    }

    /// The shard was told of the shutdown and its consumer has not seen it.
    pub open spec fn told(&self) -> bool {
        bit_set(self.word(), SHUTDOWN_BIT as int)
    }

    /// Only the rings of this shard differ from `before`.
    pub open spec fn rings_differ(&self, before: Self) -> bool {
        &&& self.full_set == before.full_set
        &&& self.full_mask == before.full_mask
    }
}

/// State that all handles share.
pub struct Mpmc<T, const CAP: usize> {
    /// One shard per consumer.
    pub shards: Vec<Shard<T, CAP>>,
    /// Signal `p` tells producer `p` that there may be room.
    pub producer_gates: Vec<Signal<OwnedBool>>,
    pub shutdown: bool,
}

impl<T, const CAP: usize> View for Mpmc<T, CAP> {
    type V = Seq<Seq<Seq<T>>>;

    /// The items in flight, by shard and producer.
    open spec fn view(&self) -> Seq<Seq<Seq<T>>> {
        Seq::new(self.shards@.len(), |s: int| self.shards@[s]@)
    }
}

impl<T, const CAP: usize> Mpmc<T, CAP> {
    /// Number of producers.
    pub open spec fn m(&self) -> int {
        self.producer_gates@.len() as int
    }

    /// Number of shards.
    pub open spec fn n(&self) -> int {
        self.shards@.len() as int
    }

    /// Validity of the shared state.
    pub open spec fn wf(&self) -> bool {
        &&& 0 < self.m() <= MAX_MPMC_PRODUCERS
        &&& 0 < self.n()
        &&& forall|s: int| 0 <= s < self.n() ==> (#[trigger] self.shards@[s]).wf(self.m())
    }

    /// The shards in which producer `p` has room.
    pub open spec fn room(&self, p: int) -> Seq<bool> {
        Seq::new(self.shards@.len(), |s: int| self@[s][p].len() < CAP)
    }

    /// Distance from `start` to the first shard in which producer `p` has
    /// room.
    pub open spec fn route(&self, p: int, start: int) -> int {
        scan(self.room(p), start, 0)
    }

    /// A channel with `m` producers and `n` consumers. `CAP` is a power of
    /// two.
    pub fn new(m: usize, n: usize) -> (r: (
        Self,
        Vec<MpmcProducer<T, CAP>>,
        Vec<MpmcConsumer<T, CAP>>,
        MpmcShutdown<T, CAP>,
    ))
        requires
            0 < m <= MAX_MPMC_PRODUCERS,
            0 < n,
            is_pow2(CAP as int),
        ensures
            r.0.wf(),
            r.0.m() == m,
            r.0.n() == n,
            forall|s: int, p: int| 0 <= s < n && 0 <= p < m ==> (#[trigger] r.0@[s][p]).len() == 0,
            forall|s: int|
                0 <= s < n ==> (#[trigger] r.0.shards@[s]).word() == 0
                    && r.0.shards@[s].full_set.waiter == ParkWaiter::initial()
                    && r.0.shards@[s].full_set.next_id == m,
            forall|s: int, p: int|
                0 <= s < n && 0 <= p < m ==> #[trigger] r.0.shards@[s].full_set.named(
                    p,
                    ring_name(s, p),
                ),
            !r.0.shutdown,
            forall|p: int|
                0 <= p < m ==> !(#[trigger] r.0.producer_gates@[p]).source.locked
                    && r.0.producer_gates@[p].parker == ParkWaiter::initial(),
            r.1@.len() == m,
            forall|p: int|
                0 <= p < m ==> (#[trigger] r.1@[p]).idx() == p && r.1@[p].start(n as int) == p
                    % (n as int),
            r.2@.len() == n,
            forall|s: int| 0 <= s < n ==> (#[trigger] r.2@[s]).at() == s,
    {
        let mut producer_gates: Vec<Signal<OwnedBool>> = Vec::new();
        let mut producers: Vec<MpmcProducer<T, CAP>> = Vec::new();
        let mut p: usize = 0;
        while p < m
            invariant
                p <= m,
                0 < n,
                producer_gates@.len() == p,
                producers@.len() == p,
                forall|j: int|
                    #![trigger producer_gates@[j]]
                    #![trigger producers@[j]]
                    0 <= j < p ==> !producer_gates@[j].source.locked && producer_gates@[j].parker
                        == ParkWaiter::initial() && producers@[j].idx() == j
                        && producers@[j].start(n as int) == j % (n as int),
            decreases m - p,
        {
            let mut signal: Signal<OwnedBool> = Signal::new();
            signal.release(&mut ());
            producer_gates.push(signal);
            producers.push(MpmcProducer { my_idx: p, cursor: p % n, shared: PhantomData });
            proof {
                vstd::arithmetic::div_mod::lemma_mod_twice(p as int, n as int);
            }
            p = p + 1;
        }
        let mut shards: Vec<Shard<T, CAP>> = Vec::new();
        let mut consumers: Vec<MpmcConsumer<T, CAP>> = Vec::new();
        let mut s: usize = 0;
        while s < n
            invariant
                s <= n,
                0 < m <= MAX_MPMC_PRODUCERS,
                is_pow2(CAP as int),
                shards@.len() == s,
                consumers@.len() == s,
                forall|j: int|
                    #![trigger shards@[j]]
                    #![trigger consumers@[j]]
                    0 <= j < s ==> {
                        &&& shards@[j].wf(m as int)
                        &&& shards@[j].word() == 0
                        &&& shards@[j].full_set.waiter == ParkWaiter::initial()
                        &&& shards@[j].full_set.next_id == m
                        &&& consumers@[j].at() == j
                    },
                forall|j: int, p: int|
                    0 <= j < s && 0 <= p < m ==> (#[trigger] shards@[j].rings@[p])@.len() == 0,
                forall|j: int, p: int|
                    0 <= j < s && 0 <= p < m ==> #[trigger] shards@[j].full_set.named(
                        p,
                        ring_name(j, p),
                    ),
            decreases n - s,
        {
            let mut full_set: SignalSet<ParkWaiter> = SignalSet::new();
            let mut rings: Vec<RingBuf<T, CAP>> = Vec::new();
            let mut q: usize = 0;
            while q < m
                invariant
                    q <= m <= MAX_MPMC_PRODUCERS,
                    is_pow2(CAP as int),
                    full_set.wf(),
                    full_set.chunks@ == seq![0u64],
                    full_set.next_id == q,
                    full_set.waiter == ParkWaiter::initial(),
                    forall|p: int|
                        0 <= p < q ==> #[trigger] full_set.named(p, ring_name(s as int, p)),
                    rings@.len() == q,
                    forall|j: int|
                        0 <= j < q ==> (#[trigger] rings@[j]).wf() && rings@[j]@.len() == 0,
                decreases m - q,
            {
                let name: &'static str = numbered_ring(s, q);
                let ghost gates = full_set;
                let _ = full_set.create(name);
                assert forall|p: int| 0 <= p < q + 1 implies #[trigger] full_set.named(
                    p,
                    ring_name(s as int, p),
                ) by {
                    assert(p < q ==> gates.named(p, ring_name(s as int, p)));
                }
                rings.push(RingBuf::new());
                q = q + 1;
            }
            proof {
                assert(m < 64 ==> (1u64 << (m as u64)) >= 1) by (bit_vector);
            }
            let full_mask: u64 = (1u64 << (m as u64)) - 1;
            shards.push(Shard { full_set, rings, full_mask });
            consumers.push(MpmcConsumer { shard_idx: s, shared: PhantomData });
            s = s + 1;
        }
        let channel: Mpmc<T, CAP> = Mpmc { shards, producer_gates, shutdown: false };
        proof {
            assert forall|s: int, p: int| 0 <= s < n && 0 <= p < m implies (
            #[trigger] channel@[s][p]).len() == 0 by {
                assert(channel.shards@[s].rings@[p]@.len() == 0);
            }
        }
        (channel, producers, consumers, MpmcShutdown { shared: PhantomData })
    }
}

/// Handle of one producer.
pub struct MpmcProducer<T, const CAP: usize> {
    my_idx: usize,
    cursor: usize,
    shared: PhantomData<T>,
}

/// A shard after producer `p` has put items into its ring, and the items of
/// the shard are `items` now: the producer's bit is set, and the consumer is
/// woken if it was not.
pub open spec fn marked<T, const CAP: usize>(
    before: Shard<T, CAP>,
    after: Shard<T, CAP>,
    p: int,
    items: Seq<Seq<T>>,
) -> bool {
    &&& after@ == items
    &&& after.word() == before.word() | bit(p)
    &&& after.full_set.waiter == (if bit_set(before.word(), p) {
        before.full_set.waiter
    } else {
        before.full_set.waiter.woken()
    })
    &&& after.full_set.gates_kept(before.full_set)
    &&& after.full_mask == before.full_mask
}

impl<T, const CAP: usize> MpmcProducer<T, CAP> {
    /// Index of this producer.
    pub closed spec fn idx(&self) -> int {
        self.my_idx as int
    }

    /// Shard of `n` shards that this producer tries first.
    pub closed spec fn start(&self, n: int) -> int {
        self.cursor as int % n
    }

    /// The shard that is tried first is one of the `n` shards.
    pub proof fn lemma_start_in_range(&self, n: int)
        requires
            n > 0,
        ensures
            0 <= self.start(n) < n,
    {
        vstd::arithmetic::div_mod::lemma_mod_pos_bound(self.cursor as int, n);
    }

    /// This handle belongs to `ch`.
    pub open spec fn wf(&self, ch: Mpmc<T, CAP>) -> bool {
        &&& ch.wf()
        &&& 0 <= self.idx() < ch.m()
    }

    /// Index of this producer.
    pub fn index(&self) -> (i: usize)
        ensures
            i == self.idx(),
    {
        self.my_idx
    }

    /// Register this producer.
    pub fn bind(&self, ch: &mut Mpmc<T, CAP>)
        requires
            self.wf(*old(ch)),
        ensures
            final(ch).wf(),
            final(ch).producer_gates@ == old(ch).producer_gates@.update(
                self.idx(),
                Signal {
                    parker: old(ch).producer_gates@[self.idx()].parker.bound(),
                    ..old(ch).producer_gates@[self.idx()]
                },
            ),
            final(ch).shards == old(ch).shards,
            final(ch).shutdown == old(ch).shutdown,
    {
        ch.producer_gates[self.my_idx].set_worker();
    }

    /// Some shard has room for this producer.
    pub open spec fn send_ready(&self, ch: Mpmc<T, CAP>) -> bool {
        exists|s: int| 0 <= s < ch.n() && (#[trigger] ch@[s][self.idx()]).len() < CAP
    }

    /// True iff some shard has room for this producer.
    pub fn has_idle_shard(&self, ch: &Mpmc<T, CAP>) -> (b: bool)
        requires
            self.wf(*ch),
        ensures
            b == self.send_ready(*ch),
    {
        let mut s: usize = 0;
        while s < ch.shards.len()
            invariant
                self.wf(*ch),
                s <= ch.shards@.len(),
                forall|j: int| 0 <= j < s ==> (#[trigger] ch@[j][self.idx()]).len() >= CAP,
            decreases ch.shards@.len() - s,
        {
            assert(ch@[s as int][self.idx()] == ch.shards@[s as int].rings@[self.idx()]@);
            assert(ch.shards@[s as int].rings@[self.idx()].wf());
            if !ch.shards[s].rings[self.my_idx].is_full() {
                return true;
            }
            s = s + 1;
        }
        false
    }

    /// The channel `next` after `items` were put into this producer's ring of
    /// shard `s`: nothing in any other shard changes.
    pub open spec fn posted(
        &self,
        ch: Mpmc<T, CAP>,
        next: Mpmc<T, CAP>,
        s: int,
        items: Seq<T>,
    ) -> bool {
        &&& next.shards@ == ch.shards@.update(s, next.shards@[s])
        &&& marked(
            ch.shards@[s],
            next.shards@[s],
            self.idx(),
            ch@[s].update(self.idx(), ch@[s][self.idx()] + items),
        )
        &&& next.producer_gates == ch.producer_gates
        &&& next.shutdown == ch.shutdown
    }

    /// How sending `value` without waiting ends, and the handle and the
    /// channel after it.
    pub open spec fn sent(
        &self,
        ch: Mpmc<T, CAP>,
        value: T,
        handle: Self,
        next: Mpmc<T, CAP>,
        accepted: bool,
    ) -> bool {
        let k = ch.route(self.idx(), self.start(ch.n()));
        let s = (self.start(ch.n()) + k) % ch.n();
        &&& handle.idx() == self.idx()
        &&& accepted <==> k < ch.n()
        &&& if accepted {
            &&& self.posted(ch, next, s, seq![value])
            &&& handle.start(ch.n()) == (s + 1) % ch.n()
        } else {
            &&& next == ch
            &&& handle == *self
        }
    }

    /// Mark this producer's ring of shard `s` after something was put into
    /// it.
    fn mark(&self, ch: &mut Mpmc<T, CAP>, s: usize)
        requires
            s < old(ch).n(),
            0 <= self.idx() < old(ch).m() <= MAX_MPMC_PRODUCERS,
            old(ch).shards@[s as int].full_set.wf(),
            old(ch).shards@[s as int].full_set.chunks@.len() == 1,
        ensures
            final(ch).shards@.len() == old(ch).shards@.len(),
            forall|j: int|
                0 <= j < old(ch).n() && j != s ==> (#[trigger] final(ch).shards@[j])
                    == old(ch).shards@[j],
            final(ch).shards@[s as int].full_set.wf(),
            final(ch).shards@[s as int].full_set.chunks@.len() == 1,
            final(ch).shards@[s as int].rings == old(ch).shards@[s as int].rings,
            marked(
                old(ch).shards@[s as int],
                final(ch).shards@[s as int],
                self.idx(),
                old(ch).shards@[s as int]@,
            ),
            final(ch).producer_gates == old(ch).producer_gates,
            final(ch).shutdown == old(ch).shutdown,
    {
        ch.shards[s].full_set.release(SignalId::new(self.my_idx as u8));
        assert(ch.shards@[s as int]@ =~= old(ch).shards@[s as int]@);
    }

    /// Send without waiting, to the first shard with room. The value comes
    /// back iff no shard has any.
    pub fn try_send(&mut self, ch: &mut Mpmc<T, CAP>, value: T) -> (r: Result<(), T>)
        requires
            old(self).wf(*old(ch)),
        ensures
            final(self).wf(*final(ch)),
            r == (if old(self).send_ready(*old(ch)) {
                Ok(())
            } else {
                Err(value)
            }),
            old(self).sent(*old(ch), value, *final(self), *final(ch), r is Ok),
    {
        let n: usize = ch.shards.len();
        let start: usize = self.cursor % n;
        let mut k: usize = 0;
        while k < n
            invariant
                k <= n,
                n == ch.n(),
                *ch == *old(ch),
                *self == *old(self),
                old(self).wf(*old(ch)),
                start == self.start(n as int),
                start < n,
                scan(ch.room(self.idx()), start as int, 0) == scan(
                    ch.room(self.idx()),
                    start as int,
                    k as int,
                ),
                forall|j: int|
                    0 <= j < k ==> (#[trigger] ch@[(start + j) % (n as int)][self.idx()]).len()
                        >= CAP,
            decreases n - k,
        {
            let s: usize = if k < n - start {
                start + k
            } else {
                k - (n - start)
            };
            proof {
                lemma_round(start as int, k as int, n as int);
                assert(ch.room(self.idx())[s as int] == (ch@[s as int][self.idx()].len() < CAP));
                assert(ch@[s as int][self.idx()] == ch.shards@[s as int].rings@[self.idx()]@);
                assert(ch.shards@[s as int].rings@[self.idx()].wf());
            }
            if !ch.shards[s].rings[self.my_idx].is_full() {
                ch.shards[s].rings[self.my_idx].push(value);
                let ghost middle = *ch;
                self.mark(ch, s);
                self.cursor = if s + 1 == n {
                    0
                } else {
                    s + 1
                };
                proof {
                    lemma_round(s as int, 1, n as int);
                    lemma_round(self.cursor as int, 0, n as int);
                    let p = self.idx();
                    assert(old(ch)@[s as int][p].push(value) =~= old(ch)@[s as int][p]
                        + seq![value]);
                    assert(middle.shards@[s as int]@ =~= old(ch)@[s as int].update(
                        p,
                        old(ch)@[s as int][p] + seq![value],
                    ));
                    assert(ch.shards@ =~= old(ch).shards@.update(
                        s as int,
                        ch.shards@[s as int],
                    ));
                    assert(old(ch)@[s as int][p].len() < CAP);
                    lemma_marked_wf(
                        old(ch).shards@[s as int],
                        middle.shards@[s as int],
                        ch.shards@[s as int],
                        ch.m(),
                        p,
                    );
                }
                return Ok(());
            }
            k = k + 1;
        }
        proof {
            assert forall|s: int| 0 <= s < n implies (#[trigger] ch@[s][self.idx()]).len() >= CAP by {
                lemma_round_back(start as int, s, n as int);
                let j = if s >= start {
                    s - start
                } else {
                    s - start + n
                };
                assert(ch@[(start + j) % (n as int)][self.idx()].len() >= CAP);
            }
        }
        Err(value)
    }

    /// Move items from the front of `items` to the first shard with room, as
    /// many as that shard has room for. Returns how many.
    pub fn try_send_batch(&mut self, ch: &mut Mpmc<T, CAP>, items: &mut Vec<T>) -> (taken: usize)
        requires
            old(self).wf(*old(ch)),
        ensures
            final(self).wf(*final(ch)),
            final(self).idx() == old(self).idx(),
            final(items)@ == old(items)@.skip(taken as int),
            ({
                let n = old(ch).n();
                let p = old(self).idx();
                let k = old(ch).route(p, old(self).start(n));
                let s = (old(self).start(n) + k) % n;
                if old(items)@.len() > 0 && k < n {
                    let room = CAP - old(ch)@[s][p].len();
                    &&& taken == (if old(items)@.len() <= room {
                        old(items)@.len() as int
                    } else {
                        room
                    })
                    &&& old(self).posted(*old(ch), *final(ch), s, old(items)@.take(taken as int))
                    &&& final(self).start(n) == (s + 1) % n
                } else {
                    &&& taken == 0
                    &&& *final(ch) == *old(ch)
                    &&& *final(self) == *old(self)
                }
            }),
    {
        if items.is_empty() {
            assert(items@ =~= items@.skip(0));
            return 0;
        }
        let n: usize = ch.shards.len();
        let start: usize = self.cursor % n;
        let mut k: usize = 0;
        while k < n
            invariant
                k <= n,
                n == ch.n(),
                *ch == *old(ch),
                *self == *old(self),
                *items == *old(items),
                items@.len() > 0,
                old(self).wf(*old(ch)),
                start == self.start(n as int),
                start < n,
                scan(ch.room(self.idx()), start as int, 0) == scan(
                    ch.room(self.idx()),
                    start as int,
                    k as int,
                ),
            decreases n - k,
        {
            let s: usize = if k < n - start {
                start + k
            } else {
                k - (n - start)
            };
            proof {
                lemma_round(start as int, k as int, n as int);
                assert(ch.room(self.idx())[s as int] == (ch@[s as int][self.idx()].len() < CAP));
                assert(ch@[s as int][self.idx()] == ch.shards@[s as int].rings@[self.idx()]@);
                assert(ch.shards@[s as int].rings@[self.idx()].wf());
            }
            let used: usize = ch.shards[s].rings[self.my_idx].len();
            if used < CAP {
                let room: usize = CAP - used;
                let take: usize = if items.len() <= room {
                    items.len()
                } else {
                    room
                };
                let mut front: Vec<T> = items.split_off(take);
                std::mem::swap(items, &mut front);
                let ghost moved = front@;
                let ghost p = self.idx();
                proof {
                    assert(moved =~= old(items)@.take(take as int));
                    assert(items@ =~= old(items)@.skip(take as int));
                    assert(old(ch)@[s as int][p] + moved.take(0) =~= old(ch)@[s as int][p]);
                }
                for v in it: front
                    invariant
                        it.seq() == moved,
                        moved.len() == take,
                        take + used <= CAP,
                        s < n,
                        n == ch.n(),
                        p == self.my_idx,
                        *self == *old(self),
                        old(self).wf(*old(ch)),
                        old(ch).n() == n,
                        old(ch)@[s as int][p].len() == used,
                        ch.m() == old(ch).m(),
                        ch.shards@[s as int].rings@.len() == ch.m(),
                        ch.shards@[s as int].rings@[p].wf(),
                        ch.shards@[s as int].rings@[p]@ == old(ch)@[s as int][p] + moved.take(
                            it.index() as int,
                        ),
                        forall|j: int|
                            0 <= j < n && j != s ==> (#[trigger] ch.shards@[j]) == old(ch).shards@[j],
                        forall|j: int|
                            0 <= j < ch.m() && j != p ==> (#[trigger] ch.shards@[s as int].rings@[j])
                                == old(ch).shards@[s as int].rings@[j],
                        ch.shards@[s as int].rings_differ(old(ch).shards@[s as int]),
                        ch.producer_gates == old(ch).producer_gates,
                        ch.shutdown == old(ch).shutdown,
                {
                    let ghost i = it.index() as int;
                    proof {
                        assert(moved.take(i + 1) =~= moved.take(i).push(moved[i]));
                    }
                    ch.shards[s].rings[self.my_idx].push(v);
                    proof {
                        assert(old(ch)@[s as int][p] + moved.take(i + 1) =~= (old(ch)@[s as int][p] + moved.take(i)).push(moved[i]));
                    }
                }
                let ghost middle = *ch;
                self.mark(ch, s);
                self.cursor = if s + 1 == n {
                    0
                } else {
                    s + 1
                };
                proof {
                    lemma_round(s as int, 1, n as int);
                    lemma_round(self.cursor as int, 0, n as int);
                    assert(moved.take(take as int) =~= moved);
                    assert(middle.shards@[s as int]@ =~= old(ch)@[s as int].update(
                        p,
                        old(ch)@[s as int][p] + moved,
                    ));
                    assert(ch.shards@ =~= old(ch).shards@.update(
                        s as int,
                        ch.shards@[s as int],
                    ));
                    lemma_marked_wf(
                        old(ch).shards@[s as int],
                        middle.shards@[s as int],
                        ch.shards@[s as int],
                        ch.m(),
                        p,
                    );
                }
                return take;
            }
            k = k + 1;
        }
        assert(items@ =~= items@.skip(0));
        0
    }

    /// One pass of a blocking send: done when the value is accepted;
    /// otherwise the producer's signal is closed, the value comes back, and
    /// the next pass is due when [`MpmcProducer::can_send`] holds.
    pub fn send(&mut self, ch: &mut Mpmc<T, CAP>, value: T) -> (r: Step<(), T>)
        requires
            old(self).wf(*old(ch)),
        ensures
            final(self).wf(*final(ch)),
            r == (if old(self).send_ready(*old(ch)) {
                Step::Done(())
            } else {
                Step::Wait(value)
            }),
            r is Done ==> old(self).sent(*old(ch), value, *final(self), *final(ch), true),
            r is Wait ==> {
                &&& *final(self) == *old(self)
                &&& final(ch).shards == old(ch).shards
                &&& final(ch).shutdown == old(ch).shutdown
                &&& final(ch).producer_gates@ == old(ch).producer_gates@.update(
                    old(self).idx(),
                    locked(old(ch).producer_gates@[old(self).idx()]),
                )
            },
    {
        match self.try_send(ch, value) {
            Ok(_) => Step::Done(()),
            Err(v) => {
                ch.producer_gates[self.my_idx].lock(&mut ());
                // Room that appeared before the signal was closed is found
                // here; room that appears later opens the signal.
                if self.has_idle_shard(ch) {
                    ch.producer_gates[self.my_idx].release(&mut ());
                }
                assert(ch.producer_gates@[self.idx()] == locked(
                    old(ch).producer_gates@[self.idx()],
                ));
                Step::Wait(v)
            },
        }
    }

    /// True iff the signal calls a blocked producer.
    pub fn can_send(&self, ch: &Mpmc<T, CAP>) -> (b: bool)
        requires
            self.wf(*ch),
        ensures
            b == !ch.producer_gates@[self.idx()].source.locked,
    {
        ch.producer_gates[self.my_idx].is_open(&())
    }
}

/// A shard stays valid when items are put into a ring and its bit is set.
proof fn lemma_marked_wf<T, const CAP: usize>(
    before: Shard<T, CAP>,
    middle: Shard<T, CAP>,
    after: Shard<T, CAP>,
    m: int,
    p: int,
)
    requires
        before.wf(m),
        0 <= p < m,
        middle.rings@.len() == m,
        middle.rings@[p].wf(),
        forall|j: int|
            0 <= j < m && j != p ==> (#[trigger] middle.rings@[j]) == before.rings@[j],
        middle.rings_differ(before),
        after.rings == middle.rings,
        after.full_set.wf(),
        after.full_set.chunks@.len() == 1,
        after.word() == middle.word() | bit(p),
        after.full_mask == middle.full_mask,
    ensures
        after.wf(m),
{
    assert forall|j: int| 0 <= j < m && (#[trigger] after.rings@[j])@.len() > 0 implies bit_set(
        after.word(),
        j,
    ) by {
        lemma_has_ops(before.word(), bit(p), j);
        lemma_has_bit(j, p);
        if j != p {
            assert(before.rings@[j]@.len() > 0);
        }
    }
    assert forall|j: int| 0 <= j < m implies (#[trigger] after.rings@[j]).wf() by {
        if j != p {
            assert(before.rings@[j].wf());
        }
    }
}

/// Handle of one consumer.
pub struct MpmcConsumer<T, const CAP: usize> {
    shard_idx: usize,
    shared: PhantomData<T>,
}

/// The signals after those of the producers with items in `qs` were opened.
pub open spec fn opened_ready<T>(gates: Seq<Signal<OwnedBool>>, qs: Seq<Seq<T>>) -> Seq<
    Signal<OwnedBool>,
> {
    Seq::new(
        gates.len(),
        |p: int|
            if qs[p].len() > 0 {
                released(gates[p])
            } else {
                gates[p]
            },
    )
}

impl<T, const CAP: usize> MpmcConsumer<T, CAP> {
    /// Index of this consumer's shard.
    pub closed spec fn at(&self) -> int {
        self.shard_idx as int
    }

    /// This handle belongs to `ch`.
    pub open spec fn wf(&self, ch: Mpmc<T, CAP>) -> bool {
        &&& ch.wf()
        &&& 0 <= self.at() < ch.n()
    }

    /// Index of this consumer's shard.
    pub fn shard(&self) -> (s: usize)
        ensures
            s == self.at(),
    {
        self.shard_idx
    }

    /// Register this consumer.
    pub fn bind(&self, ch: &mut Mpmc<T, CAP>)
        requires
            self.wf(*old(ch)),
        ensures
            self.wf(*final(ch)),
            final(ch).shards@ == old(ch).shards@.update(
                self.at(),
                Shard {
                    full_set: SignalSet {
                        waiter: old(ch).shards@[self.at()].full_set.waiter.bound(),
                        ..old(ch).shards@[self.at()].full_set
                    },
                    ..old(ch).shards@[self.at()]
                },
            ),
            final(ch).producer_gates == old(ch).producer_gates,
            final(ch).shutdown == old(ch).shutdown,
    {
        ch.shards[self.shard_idx].full_set.set_worker();
    }

    /// The bits of the rings to look at.
    fn active(&self, ch: &Mpmc<T, CAP>) -> (w: u64)
        requires
            self.wf(*ch),
        ensures
            forall|k: int|
                0 <= k < 64 ==> #[trigger] bit_set(w, k) == (k < ch.m() && bit_set(
                    ch.shards@[self.at()].word(),
                    k,
                )),
            forall|p: int|
                0 <= p < ch.m() && !bit_set(w, p) ==> (#[trigger] ch@[self.at()][p]).len() == 0,
    {
        let state: u64 = ch.shards[self.shard_idx].full_set.state();
        let full_mask: u64 = ch.shards[self.shard_idx].full_mask;
        let w: u64 = state & full_mask;
        proof {
            assert forall|k: int| 0 <= k < 64 implies #[trigger] bit_set(w, k) == (k < ch.m()
                && bit_set(state, k)) by {
                lemma_has_ops(state, full_mask, k);
                lemma_has_low_mask(ch.m(), k);
            }
            assert forall|p: int| 0 <= p < ch.m() && !bit_set(w, p) implies (
            #[trigger] ch@[self.at()][p]).len() == 0 by {
                assert(ch@[self.at()][p] == ch.shards@[self.at()].rings@[p]@);
            }
        }
        w
    }

    /// Nothing but the rings of this shard and the producers' signals
    /// differs.
    pub open spec fn read_only(&self, ch: Mpmc<T, CAP>, next: Mpmc<T, CAP>) -> bool {
        &&& next.shards@ == ch.shards@.update(self.at(), next.shards@[self.at()])
        &&& next.shards@[self.at()].rings_differ(ch.shards@[self.at()])
        &&& next.m() == ch.m()
        &&& next.shutdown == ch.shutdown
    }

    /// How taking one item ends, and the channel `next` after it: the item is
    /// the oldest of the first producer that has any, and that producer's
    /// signal is opened.
    pub open spec fn took(&self, ch: Mpmc<T, CAP>, next: Mpmc<T, CAP>, r: Option<T>) -> bool {
        let qs = ch@[self.at()];
        let p = first_nonempty(qs, 0);
        if p < qs.len() {
            &&& r == Some(qs[p][0])
            &&& self.read_only(ch, next)
            &&& next@[self.at()] == taken_at(qs, p)
            &&& next.producer_gates@ == ch.producer_gates@.update(
                p,
                released(ch.producer_gates@[p]),
            )
        } else {
            &&& r is None
            &&& next == ch
        }
    }

    /// Take one item without waiting, from the first producer that has any.
    pub fn try_recv(&self, ch: &mut Mpmc<T, CAP>) -> (r: Option<T>)
        requires
            self.wf(*old(ch)),
        ensures
            self.wf(*final(ch)),
            self.took(*old(ch), *final(ch), r),
            r is Some <==> any_ready(old(ch)@[self.at()]),
    {
        let ghost s = self.at();
        let ghost m = ch.m();
        let ghost qs = ch@[s];
        let mut remaining: u64 = self.active(ch);
        let ghost mut at: int = 0;
        while remaining != 0
            invariant
                *ch == *old(ch),
                self.wf(*ch),
                s == self.at(),
                m == ch.m(),
                qs == ch@[s],
                qs.len() == m,
                0 <= at <= m <= MAX_MPMC_PRODUCERS,
                forall|k: int| 0 <= k < at ==> (#[trigger] qs[k]).len() == 0,
                forall|k: int| 0 <= k < at || m <= k < 64 ==> !#[trigger] bit_set(remaining, k),
                forall|k: int|
                    at <= k < m && !bit_set(remaining, k) ==> (#[trigger] qs[k]).len() == 0,
            decreases m - at, remaining,
        {
            let b: u32 = remaining.trailing_zeros();
            let p: usize = b as usize;
            let ghost rest = remaining;
            let only: u64 = 1u64 << (p as u64);
            proof {
                lemma_trailing_zeros(remaining);
                assert(bit_set(remaining, p as int));
                assert(at <= p < m);
                assert(only == bit(p as int));
                assert forall|k: int| at <= k < p implies (#[trigger] qs[k]).len() == 0 by {
                    assert(!bit_set(rest, k));
                }
                assert(qs[p as int] == ch.shards@[s].rings@[p as int]@);
                assert(ch.shards@[s].rings@[p as int].wf());
            }
            remaining = remaining & !only;
            if !ch.shards[self.shard_idx].rings[p].is_empty() {
                let value: T = ch.shards[self.shard_idx].rings[p].pop();
                ch.producer_gates[p].release(&mut ());
                proof {
                    lemma_first_nonempty_is(qs, 0, p as int);
                    assert(ch@[s] =~= taken_at(qs, p as int));
                    assert(ch.shards@ =~= old(ch).shards@.update(s, ch.shards@[s]));
                    assert(ch.producer_gates@[p as int] == released(
                        old(ch).producer_gates@[p as int],
                    ));
                    assert forall|j: int|
                        0 <= j < m && (#[trigger] ch.shards@[s].rings@[j])@.len() > 0 implies
                        bit_set(ch.shards@[s].word(), j) by {
                        assert(old(ch).shards@[s].rings@[j]@.len() > 0);
                    }
                    assert(any_ready(qs));
                }
                return Some(value);
            }
            proof {
                assert forall|k: int| 0 <= k < 64 implies #[trigger] bit_set(remaining, k) == (
                bit_set(rest, k) && k != p) by {
                    lemma_has_ops(rest, only, k);
                    lemma_has_bit(k, p as int);
                }
                assert forall|k: int| 0 <= k < p + 1 implies (#[trigger] qs[k]).len() == 0 by {}
                assert forall|k: int| 0 <= k < p + 1 || m <= k < 64 implies !#[trigger] bit_set(
                    remaining,
                    k,
                ) by {
                    if k < p {
                        assert(!bit_set(rest, k));
                    }
                }
                assert forall|k: int| p + 1 <= k < m && !bit_set(remaining, k) implies (
                #[trigger] qs[k]).len() == 0 by {
                    assert(!bit_set(rest, k));
                }
                at = p + 1;
            }
        }
        proof {
            lemma_zero_iff(remaining);
            assert forall|k: int| 0 <= k < m implies (#[trigger] qs[k]).len() == 0 by {
                assert(!bit_set(remaining, k));
            }
            lemma_first_nonempty_is(qs, 0, m);
        }
        None
    }

    /// The channel `next` after everything in this shard was taken.
    pub open spec fn drained(&self, ch: Mpmc<T, CAP>, next: Mpmc<T, CAP>) -> bool {
        &&& self.read_only(ch, next)
        &&& next@[self.at()] == Seq::new(ch.m() as nat, |p: int| Seq::<T>::empty())
        &&& next.producer_gates@ == opened_ready(ch.producer_gates@, ch@[self.at()])
    }

    /// Take everything in the rings of this shard whose bit is set. No bit is
    /// cleared.
    fn drain_all(&self, ch: &mut Mpmc<T, CAP>, out: &mut Vec<T>) -> (count: usize)
        requires
            self.wf(*old(ch)),
        ensures
            self.wf(*final(ch)),
            self.drained(*old(ch), *final(ch)),
            count == joined(old(ch)@[self.at()], old(ch).m()).len(),
            final(out)@ == old(out)@ + joined(old(ch)@[self.at()], old(ch).m()),
            count > 0 <==> any_ready(old(ch)@[self.at()]),
    {
        let ghost s = self.at();
        let ghost m = ch.m();
        let ghost qs = ch@[s];
        let mut count: usize = 0;
        let mut remaining: u64 = self.active(ch);
        let ghost mut at: int = 0;
        assert(out@ =~= old(out)@ + joined(qs, 0));
        while remaining != 0
            invariant
                self.wf(*old(ch)),
                self.wf(*ch),
                s == self.at(),
                s == self.shard_idx,
                m == ch.m(),
                m == old(ch).m(),
                ch.n() == old(ch).n(),
                qs == old(ch)@[s],
                qs.len() == m,
                0 <= at <= m <= MAX_MPMC_PRODUCERS,
                forall|j: int|
                    0 <= j < ch.n() && j != s ==> (#[trigger] ch.shards@[j]) == old(ch).shards@[j],
                ch.shards@[s].rings_differ(old(ch).shards@[s]),
                forall|j: int|
                    #![trigger ch.shards@[s].rings@[j]]
                    0 <= j < m ==> ch.shards@[s].rings@[j]@ == (if j < at {
                        Seq::<T>::empty()
                    } else {
                        qs[j]
                    }),
                forall|j: int|
                    0 <= j < m ==> (#[trigger] ch.producer_gates@[j]) == (if j < at
                        && qs[j].len() > 0 {
                        released(old(ch).producer_gates@[j])
                    } else {
                        old(ch).producer_gates@[j]
                    }),
                ch.shutdown == old(ch).shutdown,
                out@ == old(out)@ + joined(qs, at),
                count == joined(qs, at).len(),
                forall|k: int| 0 <= k < at || m <= k < 64 ==> !#[trigger] bit_set(remaining, k),
                forall|k: int|
                    at <= k < m && !bit_set(remaining, k) ==> (#[trigger] qs[k]).len() == 0,
            decreases m - at, remaining,
        {
            let b: u32 = remaining.trailing_zeros();
            let p: usize = b as usize;
            let ghost rest = remaining;
            let only: u64 = 1u64 << (p as u64);
            proof {
                lemma_trailing_zeros(remaining);
                assert(bit_set(remaining, p as int));
                assert(at <= p < m);
                assert(only == bit(p as int));
                assert forall|k: int| at <= k < p implies (#[trigger] qs[k]).len() == 0 by {
                    assert(!bit_set(rest, k));
                }
                lemma_joined_skips(qs, at, p as int);
                assert(ch.shards@[s].rings@[p as int].wf());
                assert(joined(qs, p + 1) == joined(qs, p as int) + qs[p as int]);
            }
            remaining = remaining & !only;
            let ghost before = *ch;
            let n: usize = ch.shards[self.shard_idx].rings[p].drain(out);
            proof {
                assert(out@ =~= old(out)@ + joined(qs, p + 1));
                assert(out.len() == out@.len());
            }
            if n > 0 {
                count = count + n;
                ch.producer_gates[p].release(&mut ());
                assert(ch.producer_gates@[p as int] == released(
                    old(ch).producer_gates@[p as int],
                ));
            }
            proof {
                assert forall|k: int| 0 <= k < 64 implies #[trigger] bit_set(remaining, k) == (
                bit_set(rest, k) && k != p) by {
                    lemma_has_ops(rest, only, k);
                    lemma_has_bit(k, p as int);
                }
                assert forall|k: int| 0 <= k < p + 1 || m <= k < 64 implies !#[trigger] bit_set(
                    remaining,
                    k,
                ) by {
                    if k < p {
                        assert(!bit_set(rest, k));
                    }
                }
                assert forall|k: int| p + 1 <= k < m && !bit_set(remaining, k) implies (
                #[trigger] qs[k]).len() == 0 by {
                    assert(!bit_set(rest, k));
                }
                assert forall|j: int|
                    #![trigger ch.shards@[s].rings@[j]]
                    0 <= j < m implies ch.shards@[s].rings@[j]@ == (if j < p + 1 {
                    Seq::<T>::empty()
                } else {
                    qs[j]
                }) by {
                    if at <= j < p {
                        assert(before.shards@[s].rings@[j]@ == qs[j]);
                        assert(qs[j] =~= Seq::<T>::empty());
                    }
                }
                assert forall|j: int|
                    0 <= j < m && (#[trigger] ch.shards@[s].rings@[j])@.len() > 0 implies bit_set(
                    ch.shards@[s].word(),
                    j,
                ) by {
                    assert(before.shards@[s].rings@[j]@.len() > 0);
                }
                at = p + 1;
            }
        }
        proof {
            lemma_zero_iff(remaining);
            assert forall|k: int| at <= k < m implies (#[trigger] qs[k]).len() == 0 by {
                assert(!bit_set(remaining, k));
            }
            lemma_joined_skips(qs, at, m);
            assert(ch@[s] =~= Seq::new(m as nat, |p: int| Seq::<T>::empty())) by {
                assert forall|j: int| 0 <= j < m implies ch@[s][j] =~= Seq::<T>::empty() by {
                    assert(ch.shards@[s].rings@[j]@.len() == 0);
                }
            }
            assert(ch.shards@ =~= old(ch).shards@.update(s, ch.shards@[s]));
            assert(ch.producer_gates@ =~= opened_ready(old(ch).producer_gates@, qs));
            lemma_joined_empty(qs, m);
        }
        count
    }

    /// Take everything in this shard without waiting and append it to `out`.
    /// Returns how much there was.
    pub fn try_recv_batch(&self, ch: &mut Mpmc<T, CAP>, out: &mut Vec<T>) -> (count: usize)
        requires
            self.wf(*old(ch)),
        ensures
            self.wf(*final(ch)),
            self.drained(*old(ch), *final(ch)),
            count == joined(old(ch)@[self.at()], old(ch).m()).len(),
            final(out)@ == old(out)@ + joined(old(ch)@[self.at()], old(ch).m()),
            count > 0 <==> any_ready(old(ch)@[self.at()]),
    {
        self.drain_all(ch, out)
    }

    /// The channel `next` after the bits of this shard were set to those of
    /// the rings with an item; nothing else differs but the waiter.
    pub open spec fn remarked(&self, ch: Mpmc<T, CAP>, next: Mpmc<T, CAP>) -> bool {
        &&& next.shards@ == ch.shards@.update(self.at(), next.shards@[self.at()])
        &&& next@ == ch@
        &&& next.shards@[self.at()].full_mask == ch.shards@[self.at()].full_mask
        &&& next.shards@[self.at()].full_set.gates_kept(ch.shards@[self.at()].full_set)
        &&& next.producer_gates@ == ch.producer_gates@
        &&& next.shutdown == ch.shutdown
        &&& next.shards@[self.at()].told() == ch.shards@[self.at()].told()
        &&& forall|p: int|
            0 <= p < ch.m() ==> #[trigger] bit_set(next.shards@[self.at()].word(), p) == (
            ch@[self.at()][p].len() > 0)
    }

    /// Clear the bits of this shard and look at every ring once more: a ring
    /// with an item gets its bit back. `Ok(true)` iff there was one;
    /// otherwise `Err` iff the channel is shut down.
    fn park_or_drain(&self, ch: &mut Mpmc<T, CAP>) -> (r: Result<bool, Shutdown>)
        requires
            self.wf(*old(ch)),
        ensures
            self.wf(*final(ch)),
            r == (if any_ready(old(ch)@[self.at()]) {
                Ok(true)
            } else if old(ch).shutdown {
                Err(Shutdown)
            } else {
                Ok(false)
            }),
            !(r is Err) ==> self.remarked(*old(ch), *final(ch)),
            r is Err ==> self.seen_end(*old(ch), *final(ch)),
            !any_ready(old(ch)@[self.at()]) ==> final(ch).shards@[self.at()].full_set.waiter == old(ch).shards@[self.at()].full_set.waiter,
    {
        let m: usize = ch.producer_gates.len();
        let ghost s = self.at();
        let ghost qs = ch@[s];
        let full_mask: u64 = ch.shards[self.shard_idx].full_mask;
        let ghost word = ch.shards@[s].word();
        ch.shards[self.shard_idx].full_set.lock_mask(full_mask);
        proof {
            assert forall|k: int| 0 <= k < 64 implies #[trigger] bit_set(
                ch.shards@[s].word(),
                k,
            ) == (bit_set(word, k) && k >= m) by {
                lemma_has_ops(word, full_mask, k);
                lemma_has_low_mask(m as int, k);
            }
        }
        let mut any_raced: bool = false;
        let mut p: usize = 0;
        while p < m
            invariant
                p <= m <= MAX_MPMC_PRODUCERS,
                m == ch.m(),
                s == self.shard_idx,
                s == self.at(),
                self.wf(*old(ch)),
                ch.n() == old(ch).n(),
                m == old(ch).m(),
                qs == old(ch)@[s],
                word == old(ch).shards@[s].word(),
                forall|j: int|
                    0 <= j < ch.n() && j != s ==> (#[trigger] ch.shards@[j]) == old(ch).shards@[j],
                ch.shards@[s].rings == old(ch).shards@[s].rings,
                ch.shards@[s].full_mask == old(ch).shards@[s].full_mask,
                ch.shards@[s].full_set.gates_kept(old(ch).shards@[s].full_set),
                ch.shards@[s].full_set.wf(),
                ch.shards@[s].full_set.chunks@.len() == 1,
                ch.producer_gates == old(ch).producer_gates,
                ch.shutdown == old(ch).shutdown,
                forall|k: int|
                    0 <= k < 64 ==> #[trigger] bit_set(ch.shards@[s].word(), k) == (if k < m {
                        k < p && qs[k].len() > 0
                    } else {
                        bit_set(word, k)
                    }),
                any_raced == (exists|j: int| 0 <= j < p && (#[trigger] qs[j]).len() > 0),
                !any_raced ==> ch.shards@[s].full_set.waiter == old(ch).shards@[s].full_set.waiter,
            decreases m - p,
        {
            assert(qs[p as int] == ch.shards@[s].rings@[p as int]@);
            assert(old(ch).shards@[s].rings@[p as int].wf());
            let ghost before = ch.shards@[s].word();
            if !ch.shards[self.shard_idx].rings[p].is_empty() {
                ch.shards[self.shard_idx].full_set.release(SignalId::new(p as u8));
                any_raced = true;
                proof {
                    assert forall|k: int| 0 <= k < 64 implies #[trigger] bit_set(
                        ch.shards@[s].word(),
                        k,
                    ) == (if k < m {
                        k < p + 1 && qs[k].len() > 0
                    } else {
                        bit_set(word, k)
                    }) by {
                        lemma_has_ops(before, bit(p as int), k);
                        lemma_has_bit(k, p as int);
                    }
                    assert(qs[p as int].len() > 0);
                }
            }
            p = p + 1;
        }
        proof {
            assert(ch.shards@ =~= old(ch).shards@.update(s, ch.shards@[s]));
            assert(any_raced == any_ready(qs));
            assert(ch@[s] =~= old(ch)@[s]);
            assert(ch@ =~= old(ch)@);
            assert forall|j: int| 0 <= j < m && (#[trigger] ch.shards@[s].rings@[j])@.len() > 0
                implies bit_set(ch.shards@[s].word(), j) by {
                assert(qs[j].len() > 0);
            }
        }
        if any_raced {
            return Ok(true);
        }
        if ch.shutdown {
            self.forget_end(ch);
            assert(ch.shards@ =~= old(ch).shards@.update(s, ch.shards@[s]));
            return Err(Shutdown);
        }
        Ok(false)
    }

    /// The channel `next` after the consumer has seen the shutdown.
    pub open spec fn seen_end(&self, ch: Mpmc<T, CAP>, next: Mpmc<T, CAP>) -> bool {
        &&& next.shards@ == ch.shards@.update(self.at(), next.shards@[self.at()])
        &&& next@ == ch@
        &&& next.shards@[self.at()].full_mask == ch.shards@[self.at()].full_mask
        &&& next.shards@[self.at()].full_set.gates_kept(ch.shards@[self.at()].full_set)
        &&& !next.shards@[self.at()].told()
        &&& next.shards@[self.at()].full_set.waiter == ch.shards@[self.at()].full_set.waiter
        &&& next.producer_gates@ == ch.producer_gates@
        &&& next.shutdown == ch.shutdown
    }

    /// Close the shutdown bit of this shard.
    fn forget_end(&self, ch: &mut Mpmc<T, CAP>)
        requires
            self.wf(*old(ch)),
        ensures
            self.wf(*final(ch)),
            self.seen_end(*old(ch), *final(ch)),
            final(ch).shards@[self.at()].word() == old(ch).shards@[self.at()].word() & !bit(
                SHUTDOWN_BIT as int,
            ),
    {
        let ghost s = self.at();
        let ghost word = ch.shards@[s].word();
        ch.shards[self.shard_idx].full_set.lock(SignalId::new(SHUTDOWN_BIT));
        proof {
            assert forall|k: int| 0 <= k < 64 implies #[trigger] bit_set(
                ch.shards@[s].word(),
                k,
            ) == (bit_set(word, k) && k != 63) by {
                lemma_has_ops(word, bit(63), k);
                lemma_has_bit(k, 63);
            }
            assert forall|j: int|
                0 <= j < ch.m() && (#[trigger] ch.shards@[s].rings@[j])@.len() > 0 implies bit_set(
                ch.shards@[s].word(),
                j,
            ) by {
                assert(old(ch).shards@[s].rings@[j]@.len() > 0);
            }
            assert(ch.shards@ =~= old(ch).shards@.update(s, ch.shards@[s]));
            assert(ch@[s] =~= old(ch)@[s]);
            assert(ch@ =~= old(ch)@);
        }
    }

    /// How a pass that has found nothing ends: with [`Shutdown`] if the
    /// channel is shut down; otherwise all bits of the producers are clear and
    /// the consumer has to wait.
    pub open spec fn found_nothing(
        &self,
        ch: Mpmc<T, CAP>,
        next: Mpmc<T, CAP>,
        ended: bool,
    ) -> bool {
        &&& ended == ch.shutdown
        &&& ended ==> self.seen_end(ch, next) && next.shards@[self.at()].word()
            == ch.shards@[self.at()].word() & !bit(SHUTDOWN_BIT as int)
        &&& !ended ==> self.remarked(ch, next)
        &&& next.shards@[self.at()].full_set.waiter == ch.shards@[self.at()].full_set.waiter
    }

    /// What a consumer that has found nothing does before it waits: true iff
    /// the channel has ended.
    fn settle_down(&self, ch: &mut Mpmc<T, CAP>) -> (ended: bool)
        requires
            self.wf(*old(ch)),
            !any_ready(old(ch)@[self.at()]),
        ensures
            self.wf(*final(ch)),
            self.found_nothing(*old(ch), *final(ch), ended),
    {
        if ch.shutdown {
            self.forget_end(ch);
            return true;
        }
        match self.park_or_drain(ch) {
            Ok(_) => false,
            Err(_) => true,
        }
    }

    /// One pass of a blocking receive: done with an item, or with
    /// [`Shutdown`] when the channel is shut down and this shard is drained;
    /// otherwise the next pass is due when [`MpmcConsumer::can_recv`] holds.
    pub fn recv(&self, ch: &mut Mpmc<T, CAP>) -> (r: Step<Result<T, Shutdown>, ()>)
        requires
            self.wf(*old(ch)),
        ensures
            self.wf(*final(ch)),
            if any_ready(old(ch)@[self.at()]) {
                &&& r is Done
                &&& r->Done_0 is Ok
                &&& self.took(*old(ch), *final(ch), Some(r->Done_0->Ok_0))
            } else {
                &&& r == (if old(ch).shutdown {
                    Step::Done(Err(Shutdown))
                } else {
                    Step::<Result<T, Shutdown>, ()>::Wait(())
                })
                &&& self.found_nothing(*old(ch), *final(ch), r is Done)
            },
    {
        match self.try_recv(ch) {
            Some(v) => Step::Done(Ok(v)),
            None => if self.settle_down(ch) {
                Step::Done(Err(Shutdown))
            } else {
                Step::Wait(())
            },
        }
    }

    /// One pass of a blocking batch receive: like [`MpmcConsumer::recv`], but
    /// everything in this shard is appended to `out`, and the result is how
    /// much that was.
    pub fn recv_batch(&self, ch: &mut Mpmc<T, CAP>, out: &mut Vec<T>) -> (r: Step<
        Result<usize, Shutdown>,
        (),
    >)
        requires
            self.wf(*old(ch)),
        ensures
            self.wf(*final(ch)),
            final(out)@ == old(out)@ + joined(old(ch)@[self.at()], old(ch).m()),
            if any_ready(old(ch)@[self.at()]) {
                &&& r is Done
                &&& r->Done_0 is Ok
                &&& r->Done_0->Ok_0 == joined(old(ch)@[self.at()], old(ch).m()).len()
                &&& self.drained(*old(ch), *final(ch))
            } else {
                &&& r == (if old(ch).shutdown {
                    Step::Done(Err(Shutdown))
                } else {
                    Step::<Result<usize, Shutdown>, ()>::Wait(())
                })
                &&& self.found_nothing(*old(ch), *final(ch), r is Done)
            },
    {
        let count: usize = self.drain_all(ch, out);
        if count > 0 {
            return Step::Done(Ok(count));
        }
        let ghost middle = *ch;
        proof {
            assert forall|p: int| 0 <= p < ch.m() implies ch@[self.at()][p] == old(ch)@[self.at()][p] by {
                assert(old(ch)@[self.at()][p].len() == 0);
                assert(ch@[self.at()][p] =~= old(ch)@[self.at()][p]);
            }
            assert(ch@[self.at()] =~= old(ch)@[self.at()]);
            assert(ch@ =~= old(ch)@);
            assert(ch.producer_gates@ =~= old(ch).producer_gates@);
        }
        let ended: bool = self.settle_down(ch);
        assert(ch.shards@ =~= old(ch).shards@.update(self.at(), ch.shards@[self.at()]));
        if ended {
            Step::Done(Err(Shutdown))
        } else {
            Step::Wait(())
        }
    }

    /// True iff the bitmap calls a blocked consumer.
    pub fn can_recv(&self, ch: &Mpmc<T, CAP>) -> (b: bool)
        requires
            self.wf(*ch),
        ensures
            b == (ch.shards@[self.at()].word() & (ch.shards@[self.at()].full_mask | bit(63)) != 0),
            any_ready(ch@[self.at()]) ==> b,
            ch.shards@[self.at()].told() ==> b,
    {
        let full_mask: u64 = ch.shards[self.shard_idx].full_mask;
        let mask: u64 = full_mask | SignalId::new(SHUTDOWN_BIT).mask();
        let word: u64 = ch.shards[self.shard_idx].full_set.state();
        proof {
            if any_ready(ch@[self.at()]) {
                let p = choose|p: int|
                    0 <= p < ch@[self.at()].len() && (#[trigger] ch@[self.at()][p]).len() > 0;
                assert(ch.shards@[self.at()].rings@[p]@.len() > 0);
                lemma_has_ops(word, mask, p);
                lemma_has_ops(full_mask, bit(63), p);
                lemma_has_low_mask(ch.m(), p);
                crate::bits::lemma_has_nonzero(word & mask, p);
            }
            if ch.shards@[self.at()].told() {
                lemma_has_ops(word, mask, 63);
                lemma_has_ops(full_mask, bit(63), 63);
                lemma_has_bit(63, 63);
                crate::bits::lemma_has_nonzero(word & mask, 63);
            }
        }
        ch.shards[self.shard_idx].full_set.any_open(mask)
    }
}

/// Empty queues add nothing to what is joined.
proof fn lemma_joined_skips<T>(qs: Seq<Seq<T>>, a: int, b: int)
    requires
        0 <= a <= b <= qs.len(),
        forall|k: int| a <= k < b ==> (#[trigger] qs[k]).len() == 0,
    ensures
        joined(qs, b) == joined(qs, a),
    decreases b - a,
{
    if a < b {
        lemma_joined_skips(qs, a, b - 1);
        assert(qs[b - 1].len() == 0);
        assert(joined(qs, b - 1) + qs[b - 1] =~= joined(qs, b - 1));
    }
}

/// Handle that ends a channel.
pub struct MpmcShutdown<T, const CAP: usize> {
    shared: PhantomData<T>,
}

impl<T, const CAP: usize> Clone for MpmcShutdown<T, CAP> {
    fn clone(&self) -> Self {
        MpmcShutdown { shared: PhantomData }
    }
}

impl<T, const CAP: usize> MpmcShutdown<T, CAP> {
    /// Shut the channel down and wake everybody.
    pub fn signal(&self, ch: &mut Mpmc<T, CAP>)
        requires
            old(ch).wf(),
        ensures
            final(ch).wf(),
            final(ch).shutdown,
            final(ch)@ == old(ch)@,
            final(ch).n() == old(ch).n(),
            forall|s: int|
                0 <= s < old(ch).n() ==> (#[trigger] final(ch).shards@[s]).told()
                    && final(ch).shards@[s].full_set.gates_kept(old(ch).shards@[s].full_set)
                    && final(ch).shards@[s].word() == old(ch).shards@[s].word() | bit(
                    SHUTDOWN_BIT as int,
                ) && final(ch).shards@[s].full_set.waiter == (if old(ch).shards@[s].told() {
                    old(ch).shards@[s].full_set.waiter
                } else {
                    old(ch).shards@[s].full_set.waiter.woken()
                }),
            final(ch).producer_gates@ == Seq::new(
                old(ch).m() as nat,
                |p: int| released(old(ch).producer_gates@[p]),
            ),
    {
        ch.shutdown = true;
        let n: usize = ch.shards.len();
        let mut s: usize = 0;
        while s < n
            invariant
                s <= n,
                old(ch).wf(),
                ch.wf(),
                ch.n() == n,
                old(ch).n() == n,
                ch.producer_gates == old(ch).producer_gates,
                ch.shutdown,
                forall|j: int|
                    #![trigger ch.shards@[j]]
                    0 <= j < n ==> {
                        &&& ch.shards@[j].rings == old(ch).shards@[j].rings
                        &&& ch.shards@[j].full_set.gates_kept(old(ch).shards@[j].full_set)
                        &&& j < s ==> ch.shards@[j].word() == old(ch).shards@[j].word() | bit(63)
                        &&& j < s ==> ch.shards@[j].told() && ch.shards@[j].full_set.waiter == (if old(ch).shards@[j].told() {
                            old(ch).shards@[j].full_set.waiter
                        } else {
                            old(ch).shards@[j].full_set.waiter.woken()
                        })
                        &&& j >= s ==> ch.shards@[j] == old(ch).shards@[j]
                    },
            decreases n - s,
        {
            let ghost before = ch.shards@[s as int];
            ch.shards[s].full_set.release(SignalId::new(SHUTDOWN_BIT));
            proof {
                let after = ch.shards@[s as int];
                assert forall|k: int| 0 <= k < 64 implies #[trigger] bit_set(after.word(), k) == (
                bit_set(before.word(), k) || k == 63) by {
                    lemma_has_ops(before.word(), bit(63), k);
                    lemma_has_bit(k, 63);
                }
                assert forall|p: int|
                    0 <= p < ch.m() && (#[trigger] after.rings@[p])@.len() > 0 implies bit_set(
                    after.word(),
                    p,
                ) by {
                    assert(before.rings@[p]@.len() > 0);
                }
            }
            s = s + 1;
        }
        let m: usize = ch.producer_gates.len();
        let ghost shards = ch.shards;
        let mut p: usize = 0;
        while p < m
            invariant
                p <= m,
                m == old(ch).m(),
                ch.m() == m,
                ch.shards == shards,
                ch.shutdown,
                forall|j: int|
                    0 <= j < m ==> (#[trigger] ch.producer_gates@[j]) == (if j < p {
                        released(old(ch).producer_gates@[j])
                    } else {
                        old(ch).producer_gates@[j]
                    }),
            decreases m - p,
        {
            ch.producer_gates[p].release(&mut ());
            assert(ch.producer_gates@[p as int] == released(old(ch).producer_gates@[p as int]));
            p = p + 1;
        }
        proof {
            assert forall|j: int| 0 <= j < n implies ch@[j] == old(ch)@[j] by {
                assert(ch.shards@[j].rings == old(ch).shards@[j].rings);
                assert(ch@[j] =~= old(ch)@[j]);
            }
            assert(ch@ =~= old(ch)@);
            assert(ch.producer_gates@ =~= Seq::new(
                m as nat,
                |p: int| released(old(ch).producer_gates@[p]),
            ));
        }
    }

    /// True iff the channel was shut down.
    pub fn is_signaled(&self, ch: &Mpmc<T, CAP>) -> (b: bool)
        ensures
            b == ch.shutdown,
    {
        ch.shutdown
    }
}

} // verus!
