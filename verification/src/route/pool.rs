//! Producers of a channel that are leased and given back.
//!
//! A pool holds the producers of one [`super::mpsc::Mpsc`]. A bitmap says
//! which of them are out on a lease. A lease hands out the same ring that the
//! previous holder of its slot used, so what is sent before and after a lease
//! ends comes out in one order.
use super::mpsc::{Mpsc, MpscProducer, MAX_MPSC_PRODUCERS};
use crate::bits::{bit, bit_set, lemma_has_bit, lemma_has_low_mask, lemma_has_ops, lemma_has_zero, lemma_trailing_zeros, lemma_zero_iff, low_mask};
use crate::stream::Ring;
use crate::waiter::{ParkWaiter, Waiter};
use vstd::prelude::*;

verus! {

/// Words of the bitmap: enough for every producer that a channel can have.
pub const BITMAP_WORDS: usize = 4;

/// The producers of a channel, for lease.
pub struct MpscProducerPool<T, const CAP: usize, W: Waiter = ParkWaiter> {
    slots: Vec<Option<MpscProducer<T, CAP, W>>>,
    occupancy: Vec<u64>,
    m: usize,
}

/// A producer on lease.
pub struct MpscProducerLease<T, const CAP: usize, W: Waiter = ParkWaiter> {
    slot: u16,
    producer: MpscProducer<T, CAP, W>,
}

/// Slots below `n` that `taken` does not mark.
pub open spec fn free_below(taken: spec_fn(int) -> bool, n: int) -> nat
    decreases n,
{
    if n <= 0 {
        0
    } else {
        free_below(taken, n - 1) + if taken(n - 1) {
            0nat
        } else {
            1nat
        }
    }
}

impl<T, const CAP: usize, W: Waiter> MpscProducerPool<T, CAP, W> {
    /// Number of slots.
    pub closed spec fn m(&self) -> int {
        self.m as int
    }

    /// The producer of slot `i` is out on a lease.
    pub closed spec fn leased(&self, i: int) -> bool {
        bit_set(self.occupancy@[i / 64], i % 64)
    }

    /// The producer in slot `i`, where it is not out.
    pub closed spec fn producer(&self, i: int) -> MpscProducer<T, CAP, W> {
        self.slots@[i]->Some_0
    }

    /// Validity: a slot holds its producer unless that is out on a lease.
    pub closed spec fn wf(&self) -> bool {
        &&& 0 < self.m <= MAX_MPSC_PRODUCERS
        &&& self.slots@.len() == self.m
        &&& self.occupancy@.len() == BITMAP_WORDS
        &&& forall|i: int|
            0 <= i < self.m ==> ((#[trigger] self.slots@[i]) is Some <==> !self.leased(i))
    }

    /// This pool is `before` with the producer of slot `slot` handed out.
    pub open spec fn acquired(&self, before: Self, slot: int) -> bool {
        &&& self.m() == before.m()
        &&& 0 <= slot < self.m()
        &&& !before.leased(slot)
        &&& forall|i: int|
            0 <= i < self.m() ==> #[trigger] self.leased(i) == (before.leased(i) || i == slot)
        &&& forall|i: int|
            0 <= i < self.m() && i != slot ==> #[trigger] self.producer(i) == before.producer(i)
    }

    /// This pool is `before` with `producer` back in slot `slot`.
    pub open spec fn released(
        &self,
        before: Self,
        slot: int,
        producer: MpscProducer<T, CAP, W>,
    ) -> bool {
        &&& self.m() == before.m()
        &&& 0 <= slot < self.m()
        &&& before.leased(slot)
        &&& forall|i: int|
            0 <= i < self.m() ==> #[trigger] self.leased(i) == (before.leased(i) && i != slot)
        &&& forall|i: int|
            0 <= i < self.m() ==> #[trigger] self.producer(i) == (if i == slot {
                producer
            } else {
                before.producer(i)
            })
    }

    /// The lowest slot that is not out.
    pub open spec fn is_first_free(&self, slot: int) -> bool {
        &&& 0 <= slot < self.m()
        &&& !self.leased(slot)
        &&& forall|i: int| 0 <= i < slot ==> #[trigger] self.leased(i)
    }

    /// One of the first `n` slots has the producer with index `k`.
    pub open spec fn owns(&self, n: int, k: int) -> bool {
        exists|i: int| 0 <= i < n && (#[trigger] self.producer(i)).idx() == k
    }

    /// No producer is out, and the producers are different ones of `ch`.
    pub open spec fn complete(&self, ch: Mpsc<T, CAP, W>) -> bool {
        &&& forall|i: int|
            #![trigger self.leased(i)]
            #![trigger self.producer(i)]
            0 <= i < self.m() ==> !self.leased(i) && self.producer(i).wf(ch)
        &&& forall|i: int, j: int|
            0 <= i < j < self.m() ==> (#[trigger] self.producer(i)).idx() != (
            #[trigger] self.producer(j)).idx()
    }

    /// A pool of the given producers, none of them leased.
    pub(crate) fn of(producers: Vec<MpscProducer<T, CAP, W>>) -> (pool: Self)
        requires
            0 < producers@.len() <= MAX_MPSC_PRODUCERS,
        ensures
            pool.wf(),
            pool.m() == producers@.len(),
            forall|i: int|
                #![trigger pool.leased(i)]
                #![trigger pool.producer(i)]
                0 <= i < producers@.len() ==> !pool.leased(i) && pool.producer(i) == producers@[i],
    {
        let m: usize = producers.len();
        let mut slots: Vec<Option<MpscProducer<T, CAP, W>>> = Vec::new();
        for p in it: producers
            invariant
                slots@.len() == it.index(),
                it.seq() == producers@,
                forall|j: int| 0 <= j < slots@.len() ==> #[trigger] slots@[j] == Some(producers@[j]),
        {
            slots.push(Some(p));
        }
        let occupancy: Vec<u64> = vec![0u64, 0u64, 0u64, 0u64];
        proof {
            assert forall|i: int| 0 <= i < m implies !#[trigger] bit_set(
                occupancy@[i / 64],
                i % 64,
            ) by {
                assert(occupancy@[i / 64] == 0);
                lemma_has_zero(i % 64);
            }
        }
        MpscProducerPool { slots, occupancy, m }
    }

    /// Number of slots.
    pub fn capacity(&self) -> (n: usize)
        ensures
            n == self.m(),
    {
        self.m
    }

    /// Number of slots whose producer is not out.
    pub fn available(&self) -> (n: usize)
        requires
            self.wf(),
        ensures
            n == free_below(|i: int| self.leased(i), self.m()),
    {
        let ghost taken = |i: int| self.leased(i);
        let mut free: usize = 0;
        let mut i: usize = 0;
        while i < self.m
            invariant
                self.wf(),
                i <= self.m,
                taken == (|i: int| self.leased(i)),
                free == free_below(taken, i as int),
                free <= i,
            decreases self.m - i,
        {
            proof {
                assert(free_below(taken, i + 1) == free_below(taken, i as int) + if taken(i as int) {
                    0nat
                } else {
                    1nat
                });
                assert(bit((i % 64) as int) == 1u64 << ((i % 64) as u64));
            }
            if self.occupancy[i / 64] & (1u64 << ((i % 64) as u64)) == 0 {
                free = free + 1;
            }
            i = i + 1;
        }
        free
    }

    /// Lease the producer of the lowest slot that is not out. `None` iff all
    /// are out.
    pub fn acquire(&mut self) -> (r: Option<MpscProducerLease<T, CAP, W>>)
        requires
            old(self).wf(),
        ensures
            final(self).wf(),
            r is None <==> (forall|i: int|
                0 <= i < old(self).m() ==> #[trigger] old(self).leased(i)),
            r is None ==> *final(self) == *old(self),
            r matches Some(lease) ==> {
                &&& old(self).is_first_free(lease.at())
                &&& final(self).acquired(*old(self), lease.at())
                &&& lease.held() == old(self).producer(lease.at())
            },
    {
        let mut word: usize = 0;
        while word < BITMAP_WORDS && word * 64 < self.m
            invariant
                *self == *old(self),
                self.wf(),
                word <= BITMAP_WORDS,
                forall|i: int| 0 <= i < self.m && i < word * 64 ==> #[trigger] self.leased(i),
            decreases BITMAP_WORDS - word,
        {
            let word_min: usize = word * 64;
            let live_bits: usize = if self.m - word_min < 64 {
                self.m - word_min
            } else {
                64
            };
            let mask: u64 = if live_bits == 64 {
                u64::MAX
            } else {
                proof {
                    assert(live_bits < 64 ==> (1u64 << (live_bits as u64)) >= 1) by (bit_vector);
                }
                (1u64 << (live_bits as u64)) - 1
            };
            let cur: u64 = self.occupancy[word];
            let free: u64 = !cur & mask;
            proof {
                assert(mask == low_mask(live_bits as int));
                assert forall|k: int| 0 <= k < 64 implies #[trigger] bit_set(free, k) == (
                !bit_set(cur, k) && k < live_bits) by {
                    lemma_has_ops(cur, 0, k);
                    lemma_has_ops(!cur, mask, k);
                    lemma_has_low_mask(live_bits as int, k);
                }
            }
            if free != 0 {
                let b: u32 = free.trailing_zeros();
                proof {
                    lemma_trailing_zeros(free);
                }
                let slot: usize = word_min + b as usize;
                let ghost before = *self;
                proof {
                    assert(slot / 64 == word && slot % 64 == b);
                    assert(!before.leased(slot as int));
                    assert forall|i: int| 0 <= i < slot implies #[trigger] before.leased(i) by {
                        if i >= word_min {
                            assert(i / 64 == word && i % 64 == i - word_min);
                            assert(!bit_set(free, i - word_min));
                        }
                    }
                }
                self.occupancy[word] = cur | (1u64 << (b as u64));
                let mut cell: Option<MpscProducer<T, CAP, W>> = None;
                std::mem::swap(&mut self.slots[slot], &mut cell);
                proof {
                    assert forall|i: int| 0 <= i < self.m implies #[trigger] self.leased(i) == (
                    before.leased(i) || i == slot) by {
                        if i / 64 == word {
                            lemma_has_ops(cur, bit(b as int), i % 64);
                            lemma_has_bit(i % 64, b as int);
                        }
                    }
                    assert(before.slots@[slot as int] is Some);
                    assert forall|i: int| 0 <= i < self.m implies ((#[trigger] self.slots@[i]) is Some
                        <==> !self.leased(i)) by {
                        assert(before.slots@[i] is Some <==> !before.leased(i));
                    }
                }
                match cell {
                    Some(producer) => {
                        return Some(MpscProducerLease { slot: slot as u16, producer });
                    },
                    None => {},
                }
            }
            proof {
                lemma_zero_iff(free);
                assert forall|i: int| 0 <= i < self.m && i < (word + 1) * 64 implies #[trigger] self.leased(
                i) by {
                    if i >= word_min {
                        assert(i / 64 == word && i % 64 == i - word_min);
                        assert(!bit_set(free, i - word_min));
                    }
                }
            }
            word = word + 1;
        }
        None
    }

    /// Give the pool up: all of its producers leave the channel, and the
    /// consumer is woken if no other producer is left.
    pub fn close(self, ch: &mut Mpsc<T, CAP, W>)
        requires
            self.wf(),
            old(ch).wf(),
            self.complete(*old(ch)),
        ensures
            final(ch).wf(),
            final(ch)@ == old(ch)@,
            final(ch).live_producers == old(ch).live_producers - self.m(),
            forall|k: int| #[trigger]
                final(ch).live@.contains(k) <==> old(ch).live@.contains(k) && !self.owns(
                    self.m(),
                    k,
                ),
            final(ch).fanin_waiter == (if final(ch).live_producers == 0 {
                old(ch).fanin_waiter.woken()
            } else {
                old(ch).fanin_waiter
            }),
            final(ch).rings@.len() == old(ch).rings@.len(),
            forall|k: int|
                0 <= k < final(ch).rings@.len() ==> (#[trigger] final(ch).rings@[k]) == (if self.owns(
                    self.m(),
                    k,
                ) {
                    Ring { closed: true, ..old(ch).rings@[k] }
                } else {
                    old(ch).rings@[k]
                }),
            final(ch).producer_waiters == old(ch).producer_waiters,
            final(ch).shutdown == old(ch).shutdown,
    {
        let ghost m = self.m();
        let mut i: usize = 0;
        proof {
            assert forall|k: int| !self.owns(0, k) by {}
        }
        for slot in it: self.slots
            invariant
                i == it.index(),
                it.seq() == self.slots@,
                self.wf(),
                m == self.m(),
                self.complete(*old(ch)),
                ch.wf(),
                ch@ == old(ch)@,
                ch.live_producers == old(ch).live_producers - i,
                forall|k: int| #[trigger]
                    ch.live@.contains(k) <==> old(ch).live@.contains(k) && !self.owns(i as int, k),
                ch.fanin_waiter == (if ch.live_producers == 0 && i > 0 {
                    old(ch).fanin_waiter.woken()
                } else {
                    old(ch).fanin_waiter
                }),
                ch.rings@.len() == old(ch).rings@.len(),
                forall|k: int|
                    0 <= k < ch.rings@.len() ==> (#[trigger] ch.rings@[k]) == (if self.owns(
                        i as int,
                        k,
                    ) {
                        Ring { closed: true, ..old(ch).rings@[k] }
                    } else {
                        old(ch).rings@[k]
                    }),
                ch.producer_waiters == old(ch).producer_waiters,
                ch.shutdown == old(ch).shutdown,
        {
            let ghost at = self.producer(i as int).idx();
            proof {
                assert(!self.leased(i as int));
                assert(slot == self.slots@[i as int]);
                assert(!self.owns(i as int, at));
                assert forall|k: int| #[trigger] self.owns(i + 1, k) == (self.owns(i as int, k) || k
                    == at) by {
                    if self.owns(i as int, k) {
                        let j = choose|j: int|
                            0 <= j < i && (#[trigger] self.producer(j)).idx() == k;
                        assert(self.producer(j).idx() == k);
                    }
                    if k == at {
                        assert(self.producer(i as int).idx() == k);
                    }
                }
            }
            match slot {
                Some(producer) => {
                    producer.close(ch);
                },
                None => {},
            }
            i = i + 1;
        }
    }
}

impl<T, const CAP: usize, W: Waiter> MpscProducerLease<T, CAP, W> {
    /// Slot of the leased producer.
    pub closed spec fn at(&self) -> int {
        self.slot as int
    }

    /// The leased producer.
    pub closed spec fn held(&self) -> MpscProducer<T, CAP, W> {
        self.producer
    }

    /// The leased producer, to look at.
    pub fn deref(&self) -> (p: &MpscProducer<T, CAP, W>)
        ensures
            *p == self.held(),
    {
        &self.producer
    }

    /// The leased producer, to use.
    pub fn deref_mut(&mut self) -> (p: &mut MpscProducer<T, CAP, W>)
        ensures
            *p == old(self).held(),
            final(self).held() == *final(p),
            final(self).at() == old(self).at(),
    {
        &mut self.producer
    }

    /// Give the producer back. The ring stays open for the next lease.
    pub fn close(self, pool: &mut MpscProducerPool<T, CAP, W>)
        requires
            old(pool).wf(),
            self.at() < old(pool).m(),
            old(pool).leased(self.at()),
        ensures
            final(pool).wf(),
            final(pool).released(*old(pool), self.at(), self.held()),
    {
        let slot: usize = self.slot as usize;
        let word: usize = slot / 64;
        let b: usize = slot % 64;
        let cur: u64 = pool.occupancy[word];
        pool.slots[slot] = Some(self.producer);
        pool.occupancy[word] = cur & !(1u64 << (b as u64));
        proof {
            assert forall|i: int| 0 <= i < pool.m implies #[trigger] pool.leased(i) == (old(pool).leased(i) && i != slot) by {
                if i / 64 == word {
                    lemma_has_ops(cur, bit(b as int), i % 64);
                    lemma_has_bit(i % 64, b as int);
                }
            }
            assert forall|i: int| 0 <= i < pool.m implies ((#[trigger] pool.slots@[i]) is Some
                <==> !pool.leased(i)) by {
                assert(old(pool).slots@[i] is Some <==> !old(pool).leased(i));
            }
        }
    }
}

/// Two leases that are out at the same time have different slots.
pub proof fn leases_are_exclusive<T, const CAP: usize, W: Waiter>(
    p0: MpscProducerPool<T, CAP, W>,
    p1: MpscProducerPool<T, CAP, W>,
    p2: MpscProducerPool<T, CAP, W>,
    a: int,
    b: int,
)
    requires
        p1.acquired(p0, a),
        p2.acquired(p1, b),
    ensures
        a != b,
{
    assert(p1.leased(a));
}

/// Giving a producer back frees its slot and changes no other: the slot is
/// free again, holds what the lease gave back, and the pool is otherwise as
/// it was before the lease.
pub proof fn a_returned_lease_frees_its_slot<T, const CAP: usize, W: Waiter>(
    p0: MpscProducerPool<T, CAP, W>,
    p1: MpscProducerPool<T, CAP, W>,
    p2: MpscProducerPool<T, CAP, W>,
    slot: int,
    producer: MpscProducer<T, CAP, W>,
)
    requires
        p1.acquired(p0, slot),
        p2.released(p1, slot, producer),
    ensures
        p2.m() == p0.m(),
        p2.producer(slot) == producer,
        forall|i: int| 0 <= i < p0.m() ==> #[trigger] p2.leased(i) == p0.leased(i),
        forall|i: int|
            0 <= i < p0.m() && i != slot ==> #[trigger] p2.producer(i) == p0.producer(i),
{
    assert forall|i: int| 0 <= i < p0.m() implies #[trigger] p2.leased(i) == p0.leased(i) by {
        assert(p1.leased(i) == (p0.leased(i) || i == slot));
    }
    assert forall|i: int| 0 <= i < p0.m() && i != slot implies #[trigger] p2.producer(i)
        == p0.producer(i) by {
        assert(p1.producer(i) == p0.producer(i));
    }
}

/// A lease that was used to send and then given back leaves a complete pool
/// complete: it can still be leased from, and closed.
pub proof fn a_used_lease_completes_the_pool<T, const CAP: usize, W: Waiter>(
    p0: MpscProducerPool<T, CAP, W>,
    p1: MpscProducerPool<T, CAP, W>,
    p2: MpscProducerPool<T, CAP, W>,
    slot: int,
    producer: MpscProducer<T, CAP, W>,
    before: Mpsc<T, CAP, W>,
    after: Mpsc<T, CAP, W>,
)
    requires
        p0.complete(before),
        p1.acquired(p0, slot),
        p2.released(p1, slot, producer),
        producer.wf(after),
        producer.idx() == p0.producer(slot).idx(),
        after.written_at(before, producer.idx()),
        after.live == before.live,
    ensures
        p2.complete(after),
{
    a_returned_lease_frees_its_slot(p0, p1, p2, slot, producer);
    assert forall|i: int| 0 <= i < p2.m() implies !(#[trigger] p2.leased(i)) && p2.producer(i).wf(
        after,
    ) && p2.producer(i).idx() == p0.producer(i).idx() by {
        assert(p2.leased(i) == p0.leased(i));
        if i != slot {
            assert(p2.producer(i) == p0.producer(i));
            assert(p0.producer(i).wf(before));
            assert(p0.producer(i).idx() != p0.producer(slot).idx());
            assert(after.rings@[p0.producer(i).idx()] == before.rings@[p0.producer(i).idx()]);
        }
    }
    assert forall|i: int| 0 <= i < p2.m() implies !p2.leased(i) && (#[trigger] p2.producer(i)).wf(
        after,
    ) by {
        assert(!p2.leased(i));
    }
    assert forall|i: int, j: int| 0 <= i < j < p2.m() implies (#[trigger] p2.producer(i)).idx() != (
    #[trigger] p2.producer(j)).idx() by {
        assert(!p2.leased(i) && !p2.leased(j));
        assert(p0.producer(i).idx() != p0.producer(j).idx());
    }
}

/// The marked slots below `n`.
spec fn taken_below(taken: spec_fn(int) -> bool, n: int) -> Set<int> {
    Set::new(|i: int| 0 <= i < n && taken(i))
}

/// Every slot is either free or marked.
proof fn lemma_free_or_taken(taken: spec_fn(int) -> bool, n: int)
    requires
        0 <= n,
    ensures
        taken_below(taken, n).finite(),
        free_below(taken, n) + taken_below(taken, n).len() == n,
    decreases n,
{
    if n == 0 {
        assert(taken_below(taken, 0) =~= Set::<int>::empty());
    } else {
        lemma_free_or_taken(taken, n - 1);
        if taken(n - 1) {
            assert(taken_below(taken, n) =~= taken_below(taken, n - 1).insert(n - 1));
        } else {
            assert(taken_below(taken, n) =~= taken_below(taken, n - 1));
        }
    }
}

/// What is available and what is out make up the capacity: the producers that
/// can still be leased and the leases that are out add up to the number of
/// slots.
pub proof fn available_and_leased_make_the_capacity<T, const CAP: usize, W: Waiter>(
    pool: MpscProducerPool<T, CAP, W>,
    leases: Seq<MpscProducerLease<T, CAP, W>>,
)
    requires
        pool.wf(),
        forall|k: int|
            0 <= k < leases.len() ==> 0 <= (#[trigger] leases[k]).at() < pool.m() && pool.leased(
                leases[k].at(),
            ),
        forall|k: int, l: int|
            0 <= k < l < leases.len() ==> (#[trigger] leases[k]).at() != (
            #[trigger] leases[l]).at(),
        forall|i: int|
            0 <= i < pool.m() && #[trigger] pool.leased(i) ==> exists|k: int|
                0 <= k < leases.len() && (#[trigger] leases[k]).at() == i,
    ensures
        free_below(|i: int| pool.leased(i), pool.m()) + leases.len() == pool.m(),
{
    let taken = |i: int| pool.leased(i);
    lemma_free_or_taken(taken, pool.m());
    let slots = Seq::new(leases.len(), |k: int| leases[k].at());
    assert(slots.no_duplicates());
    slots.unique_seq_to_set();
    assert(slots.to_set() =~= taken_below(taken, pool.m())) by {
        assert forall|i: int| slots.to_set().contains(i) == taken_below(
            taken,
            pool.m(),
        ).contains(i) by {
            if slots.contains(i) {
                let k = choose|k: int| 0 <= k < slots.len() && slots[k] == i;
                assert(leases[k].at() == i);
            }
            if taken_below(taken, pool.m()).contains(i) {
                assert(pool.leased(i));
                let k = choose|k: int| 0 <= k < leases.len() && (#[trigger] leases[k]).at() == i;
                assert(slots[k] == i);
            }
        }
    }
}

} // verus!
