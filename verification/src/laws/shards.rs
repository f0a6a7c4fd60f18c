//! What the calls of the sharded channels come to: a value goes to the next shard
//! in turn that has room, every shard delivers what it has accepted before it
//! tells of a shutdown, and nobody waits for what is already there.
use crate::bits::{bit_set, lemma_has_bit, lemma_has_low_mask, lemma_has_ops, lemma_zero_iff};
use crate::gate::mpmc as signals;
use crate::round::{lemma_scan_finds, scan};
use crate::route::hub::Shutdown;
use crate::route::mpmc::{free_slots, Mpmc, MpmcConsumer, MpmcProducer, MpmcShutdown};
use crate::route::queues::{any_ready, first_nonempty, joined, lemma_first_nonempty, lemma_joined_holds};
use crate::route::sharded::{each_ring_keeps_its_order, run_sharded, tells_of, ShardedOp};
use super::fan_in::{count, lemma_count};
use crate::waiter::{AsyncWaiter, BlockingWaiter, Step, Waiter};
use vstd::prelude::*;

verus! {

/// The shard whose turn comes `d` places after `start`, of `n` shards.
pub open spec fn turn(start: int, d: int, n: int) -> int {
    (start + d) % n
}

/// A scan passes over nothing that is ready.
proof fn lemma_scan_skips(ready: Seq<bool>, start: int, k: int, j: int)
    requires
        0 <= k <= j < scan(ready, start, k),
    ensures
        !ready[turn(start, j, ready.len() as int)],
    decreases ready.len() - k,
{
    if k < ready.len() && !ready[(start + k) % (ready.len() as int)] && k < j {
        lemma_scan_skips(ready, start, k + 1, j);
    }
}

/// Where a scan ends: at the first ready place in turn, if there is any.
proof fn lemma_scan_ends(ready: Seq<bool>, start: int)
    requires
        0 <= start < ready.len(),
    ensures
        ({
            let n = ready.len() as int;
            let d = scan(ready, start, 0);
            &&& 0 <= d <= n
            &&& d < n ==> 0 <= turn(start, d, n) < n && ready[turn(start, d, n)]
            &&& forall|j: int| 0 <= j < d ==> !ready[#[trigger] turn(start, j, n)]
            &&& d == n ==> forall|s: int| 0 <= s < n ==> !#[trigger] ready[s]
        }),
{
    let n = ready.len() as int;
    let d = scan(ready, start, 0);
    lemma_scan_finds(ready, start, 0);
    if d < n {
        vstd::arithmetic::div_mod::lemma_mod_bound(start + d, n);
    }
    assert forall|j: int| 0 <= j < d implies !ready[#[trigger] turn(start, j, n)] by {
        lemma_scan_skips(ready, start, 0, j);
    }
    if d == n {
        assert forall|s: int| 0 <= s < n implies !#[trigger] ready[s] by {
            crate::round::lemma_round_back(start, s, n);
            let j = if s >= start {
                s - start
            } else {
                s - start + n
            };
            assert(turn(start, j, n) == s);
        }
    }
}

/// `MpmcProducer::try_send` accepts a value iff some shard
/// has room for this producer. The value goes behind everything else in the
/// producer's ring of the first such shard in turn, the consumer of that shard is
/// called, the turn passes to the shard after it, and nothing else changes.
/// Otherwise the value comes back and nothing changes.
pub proof fn mpmc_try_send_goes_to_the_next_shard_with_room<T, const CAP: usize, W: Waiter>(
    tx: &mut MpmcProducer<T, CAP, W>,
    ch: &mut Mpmc<T, CAP, W>,
    value: T,
    r: Result<(), T>,
)
    requires
        old(tx).wf(*old(ch)),
        call_ensures(MpmcProducer::<T, CAP, W>::try_send, (tx, ch, value), r),
    ensures
        r is Ok <==> (exists|s: int| 0 <= s < old(ch).n() && (#[trigger] old(ch)@[s][old(tx).idx()]).len() < CAP),
        r is Ok ==> exists|d: int|
            {
                let s = #[trigger] turn(old(tx).start(old(ch).n()), d, old(ch).n());
                &&& 0 <= d < old(ch).n()
                &&& old(ch)@[s][old(tx).idx()].len() < CAP
                &&& forall|j: int|
                    0 <= j < d ==> old(ch)@[#[trigger] turn(old(tx).start(old(ch).n()), j, old(ch).n())][old(tx).idx()].len() >= CAP
                &&& final(ch)@[s] == old(ch)@[s].update(old(tx).idx(), old(ch)@[s][old(tx).idx()].push(value))
                &&& forall|t: int| 0 <= t < old(ch).n() && t != s ==> #[trigger] final(ch)@[t] == old(ch)@[t]
                &&& final(tx).start(old(ch).n()) == turn(s, 1, old(ch).n())
                &&& final(ch).consumer_waiters() == old(ch).consumer_waiters().update(
                    s,
                    old(ch).consumer_waiters()[s].woken(),
                )
            },
        r matches Err(v) ==> v == value && final(ch)@ == old(ch)@ && final(ch).consumer_waiters() == old(ch).consumer_waiters(),
        final(ch).shutdown == old(ch).shutdown,
        final(tx).idx() == old(tx).idx(),
        final(ch).n() == old(ch).n(),
{
    let p = old(tx).idx();
    let start = old(tx).start(old(ch).n());
    old(tx).lemma_start_in_range(old(ch).n());
    lemma_scan_ends(old(ch).room(p), start);
    let d = old(ch).route(p, start);
    let s = turn(start, d, old(ch).n());
    if d < old(ch).n() {
        assert(old(ch).room(p)[s]);
        assert(old(ch)@[s][p].push(value) =~= old(ch)@[s][p] + seq![value]);
        assert forall|j: int| 0 <= j < d implies old(ch)@[#[trigger] turn(start, j, old(ch).n())][p].len()
            >= CAP by {
            vstd::arithmetic::div_mod::lemma_mod_bound(start + j, old(ch).n());
            assert(!old(ch).room(p)[turn(start, j, old(ch).n())]);
        }
        assert(final(ch)@[s] == old(ch)@[s].update(p, old(ch)@[s][p].push(value)));
    } else {
        assert forall|s: int| 0 <= s < old(ch).n() implies (#[trigger] old(ch)@[s][p]).len() >= CAP by {
            assert(!old(ch).room(p)[s]);
        }
    }
    assert(final(ch)@.len() == old(ch)@.len());
}

/// One pass of `MpmcProducer::send` waits iff no shard has
/// room for this producer, and then keeps the value; otherwise the value goes to
/// the first shard in turn that has.
pub proof fn mpmc_send_waits_only_for_room<T, const CAP: usize, W: BlockingWaiter>(
    tx: &mut MpmcProducer<T, CAP, W>,
    ch: &mut Mpmc<T, CAP, W>,
    value: T,
    r: Step<(), T>,
)
    requires
        old(tx).wf(*old(ch)),
        call_ensures(MpmcProducer::<T, CAP, W>::send, (tx, ch, value), r),
    ensures
        r is Done <==> (exists|s: int| 0 <= s < old(ch).n() && (#[trigger] old(ch)@[s][old(tx).idx()]).len() < CAP),
        r is Done ==> exists|d: int|
            {
                let s = #[trigger] turn(old(tx).start(old(ch).n()), d, old(ch).n());
                &&& 0 <= d < old(ch).n()
                &&& old(ch)@[s][old(tx).idx()].len() < CAP
                &&& forall|j: int|
                    0 <= j < d ==> old(ch)@[#[trigger] turn(old(tx).start(old(ch).n()), j, old(ch).n())][old(tx).idx()].len() >= CAP
                &&& final(ch)@[s] == old(ch)@[s].update(old(tx).idx(), old(ch)@[s][old(tx).idx()].push(value))
                &&& forall|t: int| 0 <= t < old(ch).n() && t != s ==> #[trigger] final(ch)@[t] == old(ch)@[t]
                &&& final(tx).start(old(ch).n()) == turn(s, 1, old(ch).n())
                &&& final(ch).consumer_waiters() == old(ch).consumer_waiters().update(
                    s,
                    old(ch).consumer_waiters()[s].woken(),
                )
            },
        r matches Step::Wait(v) ==> v == value && final(ch)@ == old(ch)@ && final(ch).consumer_waiters() == old(ch).consumer_waiters(),
        final(ch).shutdown == old(ch).shutdown,
        final(tx).idx() == old(tx).idx(),
        final(ch).n() == old(ch).n(),
{
    let p = old(tx).idx();
    let start = old(tx).start(old(ch).n());
    old(tx).lemma_start_in_range(old(ch).n());
    lemma_scan_ends(old(ch).room(p), start);
    let d = old(ch).route(p, start);
    let s = turn(start, d, old(ch).n());
    if d < old(ch).n() {
        assert(old(ch).room(p)[s]);
        assert(old(ch)@[s][p].push(value) =~= old(ch)@[s][p] + seq![value]);
        assert forall|j: int| 0 <= j < d implies old(ch)@[#[trigger] turn(start, j, old(ch).n())][p].len()
            >= CAP by {
            vstd::arithmetic::div_mod::lemma_mod_bound(start + j, old(ch).n());
            assert(!old(ch).room(p)[turn(start, j, old(ch).n())]);
        }
        assert(final(ch)@[s] == old(ch)@[s].update(p, old(ch)@[s][p].push(value)));
    } else {
        assert forall|s: int| 0 <= s < old(ch).n() implies (#[trigger] old(ch)@[s][p]).len() >= CAP by {
            assert(!old(ch).room(p)[s]);
        }
    }
    assert(final(ch)@.len() == old(ch)@.len());
}

/// One pass of `MpmcProducer::send_async` waits iff no shard has
/// room for this producer, and then keeps the value; otherwise the value goes to
/// the first shard in turn that has.
pub proof fn mpmc_send_async_waits_only_for_room<T, const CAP: usize, W: AsyncWaiter>(
    tx: &mut MpmcProducer<T, CAP, W>,
    ch: &mut Mpmc<T, CAP, W>,
    value: T,
    r: Step<(), T>,
)
    requires
        old(tx).wf(*old(ch)),
        call_ensures(MpmcProducer::<T, CAP, W>::send_async, (tx, ch, value), r),
    ensures
        r is Done <==> (exists|s: int| 0 <= s < old(ch).n() && (#[trigger] old(ch)@[s][old(tx).idx()]).len() < CAP),
        r is Done ==> exists|d: int|
            {
                let s = #[trigger] turn(old(tx).start(old(ch).n()), d, old(ch).n());
                &&& 0 <= d < old(ch).n()
                &&& old(ch)@[s][old(tx).idx()].len() < CAP
                &&& forall|j: int|
                    0 <= j < d ==> old(ch)@[#[trigger] turn(old(tx).start(old(ch).n()), j, old(ch).n())][old(tx).idx()].len() >= CAP
                &&& final(ch)@[s] == old(ch)@[s].update(old(tx).idx(), old(ch)@[s][old(tx).idx()].push(value))
                &&& forall|t: int| 0 <= t < old(ch).n() && t != s ==> #[trigger] final(ch)@[t] == old(ch)@[t]
                &&& final(tx).start(old(ch).n()) == turn(s, 1, old(ch).n())
                &&& final(ch).consumer_waiters() == old(ch).consumer_waiters().update(
                    s,
                    old(ch).consumer_waiters()[s].woken(),
                )
            },
        r matches Step::Wait(v) ==> v == value && final(ch)@ == old(ch)@ && final(ch).consumer_waiters() == old(ch).consumer_waiters(),
        final(ch).shutdown == old(ch).shutdown,
        final(tx).idx() == old(tx).idx(),
        final(ch).n() == old(ch).n(),
{
    let p = old(tx).idx();
    let start = old(tx).start(old(ch).n());
    old(tx).lemma_start_in_range(old(ch).n());
    lemma_scan_ends(old(ch).room(p), start);
    let d = old(ch).route(p, start);
    let s = turn(start, d, old(ch).n());
    if d < old(ch).n() {
        assert(old(ch).room(p)[s]);
        assert(old(ch)@[s][p].push(value) =~= old(ch)@[s][p] + seq![value]);
        assert forall|j: int| 0 <= j < d implies old(ch)@[#[trigger] turn(start, j, old(ch).n())][p].len()
            >= CAP by {
            vstd::arithmetic::div_mod::lemma_mod_bound(start + j, old(ch).n());
            assert(!old(ch).room(p)[turn(start, j, old(ch).n())]);
        }
        assert(final(ch)@[s] == old(ch)@[s].update(p, old(ch)@[s][p].push(value)));
    } else {
        assert forall|s: int| 0 <= s < old(ch).n() implies (#[trigger] old(ch)@[s][p]).len() >= CAP by {
            assert(!old(ch).room(p)[s]);
        }
    }
    assert(final(ch)@.len() == old(ch)@.len());
}

/// `MpmcProducer::try_send_batch` moves as many items as
/// one shard has room for, from the front of the list, to the first shard in turn
/// that has any; nothing is moved iff there are no items or no shard has room.
pub proof fn mpmc_batch_fills_the_next_shard_with_room<T, const CAP: usize, W: Waiter>(
    tx: &mut MpmcProducer<T, CAP, W>,
    ch: &mut Mpmc<T, CAP, W>,
    items: &mut Vec<T>,
    n: usize,
)
    requires
        old(tx).wf(*old(ch)),
        call_ensures(MpmcProducer::<T, CAP, W>::try_send_batch, (tx, ch, items), n),
    ensures
        n > 0 <==> old(items)@.len() > 0 && (exists|s: int| 0 <= s < old(ch).n() && (#[trigger] old(ch)@[s][old(tx).idx()]).len() < CAP),
        n <= old(items)@.len(),
        final(items)@ == old(items)@.subrange(n as int, old(items)@.len() as int),
        n > 0 ==> exists|d: int|
            {
                let s = #[trigger] turn(old(tx).start(old(ch).n()), d, old(ch).n());
                &&& 0 <= d < old(ch).n()
                &&& old(ch)@[s][old(tx).idx()].len() < CAP
                &&& forall|j: int|
                    0 <= j < d ==> old(ch)@[#[trigger] turn(old(tx).start(old(ch).n()), j, old(ch).n())][old(tx).idx()].len() >= CAP
                &&& final(ch)@[s] == old(ch)@[s].update(
                    old(tx).idx(),
                    old(ch)@[s][old(tx).idx()] + old(items)@.subrange(0, n as int),
                )
                &&& final(ch)@[s][old(tx).idx()].len() <= CAP
                &&& n < old(items)@.len() ==> final(ch)@[s][old(tx).idx()].len() == CAP
                &&& forall|t: int| 0 <= t < old(ch).n() && t != s ==> #[trigger] final(ch)@[t] == old(ch)@[t]
                &&& final(tx).start(old(ch).n()) == turn(s, 1, old(ch).n())
                &&& final(ch).consumer_waiters() == old(ch).consumer_waiters().update(
                    s,
                    old(ch).consumer_waiters()[s].woken(),
                )
            },
        n == 0 ==> final(ch)@ == old(ch)@ && final(ch).consumer_waiters() == old(ch).consumer_waiters(),
        final(ch).shutdown == old(ch).shutdown,
        final(tx).idx() == old(tx).idx(),
        final(ch).n() == old(ch).n(),
{
    let p = old(tx).idx();
    let start = old(tx).start(old(ch).n());
    old(tx).lemma_start_in_range(old(ch).n());
    lemma_scan_ends(old(ch).room(p), start);
    let d = old(ch).route(p, start);
    let s = turn(start, d, old(ch).n());
    if d < old(ch).n() {
        assert(old(ch).room(p)[s]);
        assert forall|j: int| 0 <= j < d implies old(ch)@[#[trigger] turn(start, j, old(ch).n())][p].len()
            >= CAP by {
            vstd::arithmetic::div_mod::lemma_mod_bound(start + j, old(ch).n());
            assert(!old(ch).room(p)[turn(start, j, old(ch).n())]);
        }
        if n > 0 {
            assert(final(ch)@[s] == old(ch)@[s].update(
                p,
                old(ch)@[s][p] + old(items)@.take(n as int),
            ));
        }
    } else {
        assert forall|s: int| 0 <= s < old(ch).n() implies (#[trigger] old(ch)@[s][p]).len() >= CAP by {
            assert(!old(ch).room(p)[s]);
        }
    }
    assert(final(ch)@.len() == old(ch)@.len());
}

/// `MpmcConsumer::try_recv` hands out the oldest item of
/// the first ring of its shard that has any, and calls that ring's producer;
/// `None` iff nothing is in flight in the shard. No other shard is touched.
pub proof fn mpmc_try_recv_takes_the_oldest_of_a_ring<T, const CAP: usize, W: Waiter>(
    rx: &MpmcConsumer<T, CAP, W>,
    ch: &mut Mpmc<T, CAP, W>,
    r: Option<T>,
)
    requires
        rx.wf(*old(ch)),
        call_ensures(MpmcConsumer::<T, CAP, W>::try_recv, (rx, ch), r),
    ensures
        r is None <==> forall|p: int| 0 <= p < old(ch).m() ==> (#[trigger] old(ch)@[rx.at()][p]).len() == 0,
        r matches Some(v) ==> exists|p: int|
            #![trigger old(ch)@[rx.at()][p]]
            {
                &&& 0 <= p < old(ch).m()
                &&& old(ch)@[rx.at()][p].len() > 0
                &&& v == old(ch)@[rx.at()][p][0]
                &&& final(ch)@[rx.at()] == old(ch)@[rx.at()].update(p, old(ch)@[rx.at()][p].drop_first())
                &&& forall|j: int| 0 <= j < p ==> (#[trigger] old(ch)@[rx.at()][j]).len() == 0
                &&& final(ch).producer_waiters@ == old(ch).producer_waiters@.update(
                    p,
                    old(ch).producer_waiters@[p].woken(),
                )
            },
        r is None ==> final(ch)@[rx.at()] == old(ch)@[rx.at()],
        forall|t: int| 0 <= t < old(ch).n() && t != rx.at() ==> #[trigger] final(ch)@[t] == old(ch)@[t],
        final(ch).shutdown == old(ch).shutdown,
        final(ch).n() == old(ch).n(),
        final(ch).m() == old(ch).m(),
{
    let qs = old(ch)@[rx.at()];
    assert(old(ch).shards@[rx.at()].wf(old(ch).m()));
    lemma_first_nonempty(qs, 0);
    let p = first_nonempty(qs, 0);
    assert(qs[p].len() > 0 || p == qs.len());
    assert(final(ch)@.len() == old(ch)@.len());
}

/// One pass of `MpmcConsumer::recv` delivers before it
/// ends: while any ring of the shard holds an item, shut down or not, it hands
/// out the oldest item of the first such ring; it says that the channel is shut
/// down iff it is and the whole shard is empty; otherwise it waits.
pub proof fn mpmc_recv_delivers_before_the_end<T, const CAP: usize, W: BlockingWaiter>(
    rx: &MpmcConsumer<T, CAP, W>,
    ch: &mut Mpmc<T, CAP, W>,
    r: Step<Result<T, Shutdown>, ()>,
)
    requires
        rx.wf(*old(ch)),
        call_ensures(MpmcConsumer::<T, CAP, W>::recv, (rx, ch), r),
    ensures
        forall|p: int|
            0 <= p < old(ch).m() && (#[trigger] old(ch)@[rx.at()][p]).len() > 0 ==> r is Done && r->Done_0 is Ok,
        r matches Step::Done(Ok(v)) ==> exists|p: int|
            #![trigger old(ch)@[rx.at()][p]]
            {
                &&& 0 <= p < old(ch).m()
                &&& old(ch)@[rx.at()][p].len() > 0
                &&& v == old(ch)@[rx.at()][p][0]
                &&& final(ch)@[rx.at()] == old(ch)@[rx.at()].update(p, old(ch)@[rx.at()][p].drop_first())
                &&& forall|j: int| 0 <= j < p ==> (#[trigger] old(ch)@[rx.at()][j]).len() == 0
                &&& final(ch).producer_waiters@ == old(ch).producer_waiters@.update(
                    p,
                    old(ch).producer_waiters@[p].woken(),
                )
            },
        r matches Step::Done(Err(_)) ==> {
            &&& old(ch).shutdown
            &&& forall|p: int| 0 <= p < old(ch).m() ==> (#[trigger] old(ch)@[rx.at()][p]).len() == 0
        },
        r is Wait ==> !old(ch).shutdown,
        !(r is Done && r->Done_0 is Ok) ==> final(ch)@[rx.at()] == old(ch)@[rx.at()],
        forall|t: int| 0 <= t < old(ch).n() && t != rx.at() ==> #[trigger] final(ch)@[t] == old(ch)@[t],
        final(ch).shutdown == old(ch).shutdown,
        final(ch).n() == old(ch).n(),
        final(ch).m() == old(ch).m(),
{
    let qs = old(ch)@[rx.at()];
    assert(old(ch).shards@[rx.at()].wf(old(ch).m()));
    lemma_first_nonempty(qs, 0);
    let p = first_nonempty(qs, 0);
    assert(qs[p].len() > 0 || p == qs.len());
    assert(final(ch)@.len() == old(ch)@.len());
}

/// When `MpmcConsumer::recv` says that the channel is shut
/// down, everything that its shard has ever accepted has been delivered.
pub proof fn mpmc_recv_ends_after_everything_was_delivered<T, const CAP: usize, W: BlockingWaiter>(
    rx: &MpmcConsumer<T, CAP, W>,
    ch: &mut Mpmc<T, CAP, W>,
    r: Step<Result<T, Shutdown>, ()>,
    ops: Seq<ShardedOp<T>>,
    p: int,
)
    requires
        rx.wf(*old(ch)),
        CAP > 0,
        0 <= p < old(ch).m(),
        tells_of(
            run_sharded(old(ch).m() as nat, old(ch).n() as nat, CAP as int, ops),
            old(ch)@,
            old(ch).shutdown,
        ),
        call_ensures(MpmcConsumer::<T, CAP, W>::recv, (rx, ch), r),
        r is Done,
        r->Done_0 is Err,
    ensures
        ({
            let h = run_sharded(old(ch).m() as nat, old(ch).n() as nat, CAP as int, ops);
            h.delivered[rx.at()][p] == h.accepted[rx.at()][p]
        }),
{
    let h = run_sharded(old(ch).m() as nat, old(ch).n() as nat, CAP as int, ops);
    each_ring_keeps_its_order(old(ch).m() as nat, old(ch).n() as nat, CAP as int, ops, rx.at(), p);
    assert(old(ch).shards@[rx.at()].wf(old(ch).m()));
    assert(old(ch)@[rx.at()][p].len() == 0);
    assert(h.delivered[rx.at()][p] + h.queues[rx.at()][p] =~= h.delivered[rx.at()][p]);
}

/// One pass of `MpmcConsumer::recv_async` delivers before it
/// ends: while any ring of the shard holds an item, shut down or not, it hands
/// out the oldest item of the first such ring; it says that the channel is shut
/// down iff it is and the whole shard is empty; otherwise it waits.
pub proof fn mpmc_recv_async_delivers_before_the_end<T, const CAP: usize, W: AsyncWaiter>(
    rx: &MpmcConsumer<T, CAP, W>,
    ch: &mut Mpmc<T, CAP, W>,
    r: Step<Result<T, Shutdown>, ()>,
)
    requires
        rx.wf(*old(ch)),
        call_ensures(MpmcConsumer::<T, CAP, W>::recv_async, (rx, ch), r),
    ensures
        forall|p: int|
            0 <= p < old(ch).m() && (#[trigger] old(ch)@[rx.at()][p]).len() > 0 ==> r is Done && r->Done_0 is Ok,
        r matches Step::Done(Ok(v)) ==> exists|p: int|
            #![trigger old(ch)@[rx.at()][p]]
            {
                &&& 0 <= p < old(ch).m()
                &&& old(ch)@[rx.at()][p].len() > 0
                &&& v == old(ch)@[rx.at()][p][0]
                &&& final(ch)@[rx.at()] == old(ch)@[rx.at()].update(p, old(ch)@[rx.at()][p].drop_first())
                &&& forall|j: int| 0 <= j < p ==> (#[trigger] old(ch)@[rx.at()][j]).len() == 0
                &&& final(ch).producer_waiters@ == old(ch).producer_waiters@.update(
                    p,
                    old(ch).producer_waiters@[p].woken(),
                )
            },
        r matches Step::Done(Err(_)) ==> {
            &&& old(ch).shutdown
            &&& forall|p: int| 0 <= p < old(ch).m() ==> (#[trigger] old(ch)@[rx.at()][p]).len() == 0
        },
        r is Wait ==> !old(ch).shutdown,
        !(r is Done && r->Done_0 is Ok) ==> final(ch)@[rx.at()] == old(ch)@[rx.at()],
        forall|t: int| 0 <= t < old(ch).n() && t != rx.at() ==> #[trigger] final(ch)@[t] == old(ch)@[t],
        final(ch).shutdown == old(ch).shutdown,
        final(ch).n() == old(ch).n(),
        final(ch).m() == old(ch).m(),
{
    let qs = old(ch)@[rx.at()];
    assert(old(ch).shards@[rx.at()].wf(old(ch).m()));
    lemma_first_nonempty(qs, 0);
    let p = first_nonempty(qs, 0);
    assert(qs[p].len() > 0 || p == qs.len());
    assert(final(ch)@.len() == old(ch)@.len());
}

/// When `MpmcConsumer::recv_async` says that the channel is shut
/// down, everything that its shard has ever accepted has been delivered.
pub proof fn mpmc_recv_async_ends_after_everything_was_delivered<T, const CAP: usize, W: AsyncWaiter>(
    rx: &MpmcConsumer<T, CAP, W>,
    ch: &mut Mpmc<T, CAP, W>,
    r: Step<Result<T, Shutdown>, ()>,
    ops: Seq<ShardedOp<T>>,
    p: int,
)
    requires
        rx.wf(*old(ch)),
        CAP > 0,
        0 <= p < old(ch).m(),
        tells_of(
            run_sharded(old(ch).m() as nat, old(ch).n() as nat, CAP as int, ops),
            old(ch)@,
            old(ch).shutdown,
        ),
        call_ensures(MpmcConsumer::<T, CAP, W>::recv_async, (rx, ch), r),
        r is Done,
        r->Done_0 is Err,
    ensures
        ({
            let h = run_sharded(old(ch).m() as nat, old(ch).n() as nat, CAP as int, ops);
            h.delivered[rx.at()][p] == h.accepted[rx.at()][p]
        }),
{
    let h = run_sharded(old(ch).m() as nat, old(ch).n() as nat, CAP as int, ops);
    each_ring_keeps_its_order(old(ch).m() as nat, old(ch).n() as nat, CAP as int, ops, rx.at(), p);
    assert(old(ch).shards@[rx.at()].wf(old(ch).m()));
    assert(old(ch)@[rx.at()][p].len() == 0);
    assert(h.delivered[rx.at()][p] + h.queues[rx.at()][p] =~= h.delivered[rx.at()][p]);
}

/// `MpmcConsumer::try_recv_batch` takes everything in its
/// shard: the items of each producer stand together and in their order, producer
/// by producer, nothing is left, and every producer that had items is called.
pub proof fn mpmc_batch_takes_everything_in_order<T, const CAP: usize, W: Waiter>(
    rx: &MpmcConsumer<T, CAP, W>,
    ch: &mut Mpmc<T, CAP, W>,
    out: &mut Vec<T>,
    n: usize,
    p: int,
)
    requires
        rx.wf(*old(ch)),
        call_ensures(MpmcConsumer::<T, CAP, W>::try_recv_batch, (rx, ch, out), n),
    ensures
        n == count(old(ch)@[rx.at()], old(ch).m()),
        final(out)@.len() == old(out)@.len() + count(old(ch)@[rx.at()], old(ch).m()),
        forall|k: int| 0 <= k < old(out)@.len() ==> #[trigger] final(out)@[k] == old(out)@[k],
        0 <= p < old(ch).m() ==> {
            let from = old(out)@.len() + count(old(ch)@[rx.at()], p);
            final(out)@.subrange(from as int, from + old(ch)@[rx.at()][p].len()) == old(ch)@[rx.at()][p]
        },
        0 <= p < old(ch).m() ==> final(ch)@[rx.at()][p].len() == 0,
        0 <= p < old(ch).m() ==> final(ch).producer_waiters@[p] == (if old(ch)@[rx.at()][p].len() > 0 {
            old(ch).producer_waiters@[p].woken()
        } else {
            old(ch).producer_waiters@[p]
        }),
        forall|t: int| 0 <= t < old(ch).n() && t != rx.at() ==> #[trigger] final(ch)@[t] == old(ch)@[t],
        final(ch).shutdown == old(ch).shutdown,
        final(ch).n() == old(ch).n(),
        final(ch).m() == old(ch).m(),
{
    let qs = old(ch)@[rx.at()];
    assert(old(ch).shards@[rx.at()].wf(old(ch).m()));
    let all = joined(qs, old(ch).m());
    lemma_count(qs, old(ch).m());
    if 0 <= p < old(ch).m() {
        lemma_count(qs, p);
        lemma_joined_holds(qs, old(ch).m(), p);
        let from = count(qs, p);
        assert(final(out)@.subrange(
            old(out)@.len() + from,
            old(out)@.len() + from + qs[p].len(),
        ) =~= all.subrange(from, from + qs[p].len()));
    }
    if any_ready(qs) {
        let j = choose|j: int| 0 <= j < qs.len() && (#[trigger] qs[j]).len() > 0;
        lemma_joined_holds(qs, old(ch).m(), j);
    } else {
        assert forall|j: int| 0 <= j < qs.len() implies (#[trigger] qs[j]).len() == 0 by {}
    }
    assert(final(ch)@.len() == old(ch)@.len());
}

/// One pass of `MpmcConsumer::recv_batch` takes
/// everything in its shard, shut down or not, and says how much that was; only
/// when that is nothing it says that the channel is shut down, iff it is, or waits.
pub proof fn mpmc_recv_batch_delivers_before_the_end<T, const CAP: usize, W: BlockingWaiter>(
    rx: &MpmcConsumer<T, CAP, W>,
    ch: &mut Mpmc<T, CAP, W>,
    out: &mut Vec<T>,
    r: Step<Result<usize, Shutdown>, ()>,
    p: int,
)
    requires
        rx.wf(*old(ch)),
        call_ensures(MpmcConsumer::<T, CAP, W>::recv_batch, (rx, ch, out), r),
    ensures
        0 <= p < old(ch).m() && old(ch)@[rx.at()][p].len() > 0 ==> r is Done && r->Done_0 is Ok,
        r matches Step::Done(Ok(n)) ==> n == count(old(ch)@[rx.at()], old(ch).m()) && n > 0,
        r matches Step::Done(Err(_)) ==> old(ch).shutdown && count(old(ch)@[rx.at()], old(ch).m()) == 0,
        r is Wait ==> !old(ch).shutdown && count(old(ch)@[rx.at()], old(ch).m()) == 0,
        final(out)@.len() == old(out)@.len() + count(old(ch)@[rx.at()], old(ch).m()),
        forall|k: int| 0 <= k < old(out)@.len() ==> #[trigger] final(out)@[k] == old(out)@[k],
        0 <= p < old(ch).m() ==> {
            let from = old(out)@.len() + count(old(ch)@[rx.at()], p);
            final(out)@.subrange(from as int, from + old(ch)@[rx.at()][p].len()) == old(ch)@[rx.at()][p]
        },
        0 <= p < old(ch).m() ==> final(ch)@[rx.at()][p].len() == 0,
        0 <= p < old(ch).m() ==> final(ch).producer_waiters@[p] == (if old(ch)@[rx.at()][p].len() > 0 {
            old(ch).producer_waiters@[p].woken()
        } else {
            old(ch).producer_waiters@[p]
        }),
        forall|t: int| 0 <= t < old(ch).n() && t != rx.at() ==> #[trigger] final(ch)@[t] == old(ch)@[t],
        final(ch).shutdown == old(ch).shutdown,
        final(ch).n() == old(ch).n(),
        final(ch).m() == old(ch).m(),
{
    let qs = old(ch)@[rx.at()];
    assert(old(ch).shards@[rx.at()].wf(old(ch).m()));
    let all = joined(qs, old(ch).m());
    lemma_count(qs, old(ch).m());
    if 0 <= p < old(ch).m() {
        lemma_count(qs, p);
        lemma_joined_holds(qs, old(ch).m(), p);
        let from = count(qs, p);
        assert(final(out)@.subrange(
            old(out)@.len() + from,
            old(out)@.len() + from + qs[p].len(),
        ) =~= all.subrange(from, from + qs[p].len()));
    }
    if any_ready(qs) {
        let j = choose|j: int| 0 <= j < qs.len() && (#[trigger] qs[j]).len() > 0;
        lemma_joined_holds(qs, old(ch).m(), j);
    } else {
        assert forall|j: int| 0 <= j < qs.len() implies (#[trigger] qs[j]).len() == 0 by {}
    }
    assert(final(ch)@.len() == old(ch)@.len());
}

/// A blocked consumer is told to go on iff its next pass does not wait.
pub proof fn mpmc_can_recv_iff_a_pass_ends<T, const CAP: usize, W: BlockingWaiter>(
    rx: &MpmcConsumer<T, CAP, W>,
    ch: &mut Mpmc<T, CAP, W>,
    can: bool,
    r: Step<Result<T, Shutdown>, ()>,
)
    requires
        rx.wf(*old(ch)),
        call_ensures(MpmcConsumer::<T, CAP, W>::can_recv, (rx, &*old(ch)), can),
        call_ensures(MpmcConsumer::<T, CAP, W>::recv, (rx, ch), r),
    ensures
        r is Wait <==> !can,
{
}

/// A blocked producer is told to go on iff its next pass does not wait.
pub proof fn mpmc_has_idle_shard_iff_a_pass_ends<T, const CAP: usize, W: BlockingWaiter>(
    tx: &mut MpmcProducer<T, CAP, W>,
    ch: &mut Mpmc<T, CAP, W>,
    value: T,
    can: bool,
    r: Step<(), T>,
)
    requires
        old(tx).wf(*old(ch)),
        call_ensures(MpmcProducer::<T, CAP, W>::has_idle_shard, (&*old(tx), &*old(ch)), can),
        call_ensures(MpmcProducer::<T, CAP, W>::send, (tx, ch, value), r),
    ensures
        r is Wait <==> !can,
{
}

/// What the looks at a channel say fits together, for a producer and a shard: room
/// and items add up to the slots there are.
pub proof fn mpmc_looks_agree<T, const CAP: usize, W: Waiter>(
    tx: &MpmcProducer<T, CAP, W>,
    rx: &MpmcConsumer<T, CAP, W>,
    ch: &Mpmc<T, CAP, W>,
    s: usize,
    p: usize,
    pending: usize,
    available: usize,
    per_shard: usize,
    has: bool,
    from: usize,
    all: usize,
    free: usize,
    total: usize,
)
    requires
        tx.wf(*ch),
        rx.wf(*ch),
        s < ch.n(),
        p < ch.m(),
        call_ensures(MpmcProducer::<T, CAP, W>::pending_in_shard, (tx, ch, s), pending),
        call_ensures(MpmcProducer::<T, CAP, W>::available_in_shard, (tx, ch, s), available),
        call_ensures(MpmcProducer::<T, CAP, W>::capacity_per_shard, (tx,), per_shard),
        call_ensures(MpmcConsumer::<T, CAP, W>::has_pending, (rx, ch), has),
        call_ensures(MpmcConsumer::<T, CAP, W>::pending_from, (rx, ch, p), from),
        call_ensures(MpmcConsumer::<T, CAP, W>::pending, (rx, ch), all),
        call_ensures(MpmcConsumer::<T, CAP, W>::available, (rx, ch), free),
        call_ensures(MpmcConsumer::<T, CAP, W>::total_capacity, (rx, ch), total),
    ensures
        per_shard == CAP,
        pending == ch@[s as int][tx.idx()].len(),
        pending + available == per_shard,
        from == ch@[rx.at()][p as int].len(),
        all == count(ch@[rx.at()], ch.m()),
        has <==> all > 0,
        all + free == total,
        total == ch.m() * CAP,
{
    let qs = ch@[rx.at()];
    assert(ch.shards@[rx.at()].wf(ch.m()));
    lemma_count(qs, ch.m());
    if any_ready(qs) {
        let j = choose|j: int| 0 <= j < qs.len() && (#[trigger] qs[j]).len() > 0;
        lemma_joined_holds(qs, ch.m(), j);
    } else {
        assert forall|j: int| 0 <= j < qs.len() implies (#[trigger] qs[j]).len() == 0 by {}
    }
}

/// What a producer can still send over all shards is what it can still send in
/// each of them, taken together.
pub open spec fn free_in_all<T>(grid: Seq<Seq<Seq<T>>>, cap: int, p: int, n: int) -> int
    decreases n,
{
    if n <= 0 {
        0
    } else {
        free_in_all(grid, cap, p, n - 1) + (cap - grid[n - 1][p].len())
    }
}

proof fn lemma_free_in_all<T>(grid: Seq<Seq<Seq<T>>>, cap: int, p: int, n: int)
    ensures
        free_slots(grid, cap, p, n) == free_in_all(grid, cap, p, n),
    decreases n,
{
    if n > 0 {
        lemma_free_in_all(grid, cap, p, n - 1);
    }
}

/// What is available to a producer is the room in all its rings.
pub proof fn mpmc_available_is_the_room_in_all_shards<T, const CAP: usize, W: Waiter>(
    tx: &MpmcProducer<T, CAP, W>,
    ch: &Mpmc<T, CAP, W>,
    n: usize,
    total: usize,
)
    requires
        tx.wf(*ch),
        call_ensures(MpmcProducer::<T, CAP, W>::available, (tx, ch), n),
        call_ensures(MpmcProducer::<T, CAP, W>::total_capacity, (tx, ch), total),
    ensures
        n == free_in_all(ch@, CAP as int, tx.idx(), ch.n()),
        total == ch.n() * CAP,
{
    lemma_free_in_all(ch@, CAP as int, tx.idx(), ch.n());
}

/// A shutdown is there for everybody to see, wakes every consumer and producer,
/// and leaves what is in flight.
pub proof fn mpmc_shutdown_wakes_everybody<T, const CAP: usize, W: Waiter>(
    handle: &MpmcShutdown<T, CAP, W>,
    ch: &mut Mpmc<T, CAP, W>,
    after: bool,
)
    requires
        old(ch).wf(),
        call_ensures(MpmcShutdown::<T, CAP, W>::signal, (handle, ch), ()),
        call_ensures(MpmcShutdown::<T, CAP, W>::is_signaled, (handle, &*final(ch)), after),
    ensures
        after,
        final(ch).shutdown,
        final(ch)@ == old(ch)@,
        forall|s: int|
            0 <= s < old(ch).n() ==> #[trigger] final(ch).consumer_waiters()[s]
                == old(ch).consumer_waiters()[s].woken(),
        forall|p: int|
            0 <= p < old(ch).m() ==> #[trigger] final(ch).producer_waiters@[p]
                == old(ch).producer_waiters@[p].woken(),
{
}

/// A new [`Mpmc`] has the producers and the shards asked for, nothing in any
/// of them, and is open; producers start at different shards.
pub proof fn mpmc_starts_empty<T, const CAP: usize, W: Waiter>(
    m: usize,
    n: usize,
    r: (Mpmc<T, CAP, W>, Vec<MpmcProducer<T, CAP, W>>, Vec<MpmcConsumer<T, CAP, W>>, MpmcShutdown<T, CAP, W>),
)
    requires
        call_ensures(Mpmc::<T, CAP, W>::new, (m, n), r),
    ensures
        r.0.m() == m,
        r.0.n() == n,
        forall|s: int, p: int| 0 <= s < n && 0 <= p < m ==> (#[trigger] r.0@[s][p]).len() == 0,
        !r.0.shutdown,
        r.1@.len() == m,
        r.2@.len() == n,
        forall|p: int|
            0 <= p < m ==> (#[trigger] r.1@[p]).idx() == p && r.1@[p].start(n as int) == turn(p, 0, n as int),
        forall|s: int| 0 <= s < n ==> (#[trigger] r.2@[s]).at() == s,
{
}

/// `MpmcProducer::try_send` of the channel with bitmaps accepts a value iff some shard
/// has room for this producer. The value goes behind everything else in the
/// producer's ring of the first such shard in turn, the consumer of that shard is
/// called, the turn passes to the shard after it, and nothing else changes.
/// Otherwise the value comes back and nothing changes.
pub proof fn bitmap_mpmc_try_send_goes_to_the_next_shard_with_room<T, const CAP: usize>(
    tx: &mut signals::MpmcProducer<T, CAP>,
    ch: &mut signals::Mpmc<T, CAP>,
    value: T,
    r: Result<(), T>,
)
    requires
        old(tx).wf(*old(ch)),
        call_ensures(signals::MpmcProducer::<T, CAP>::try_send, (tx, ch, value), r),
    ensures
        r is Ok <==> (exists|s: int| 0 <= s < old(ch).n() && (#[trigger] old(ch)@[s][old(tx).idx()]).len() < CAP),
        r is Ok ==> exists|d: int|
            {
                let s = #[trigger] turn(old(tx).start(old(ch).n()), d, old(ch).n());
                &&& 0 <= d < old(ch).n()
                &&& old(ch)@[s][old(tx).idx()].len() < CAP
                &&& forall|j: int|
                    0 <= j < d ==> old(ch)@[#[trigger] turn(old(tx).start(old(ch).n()), j, old(ch).n())][old(tx).idx()].len() >= CAP
                &&& final(ch)@[s] == old(ch)@[s].update(old(tx).idx(), old(ch)@[s][old(tx).idx()].push(value))
                &&& forall|t: int| 0 <= t < old(ch).n() && t != s ==> #[trigger] final(ch)@[t] == old(ch)@[t]
                &&& final(tx).start(old(ch).n()) == turn(s, 1, old(ch).n())
                &&& bit_set(final(ch).shards@[s].word(), old(tx).idx())
                &&& final(ch).shards@[s].full_set.waiter == (if bit_set(
                    old(ch).shards@[s].word(),
                    old(tx).idx(),
                ) {
                    old(ch).shards@[s].full_set.waiter
                } else {
                    old(ch).shards@[s].full_set.waiter.woken()
                })
            },
        r matches Err(v) ==> v == value && final(ch)@ == old(ch)@ && final(ch).shards == old(ch).shards,
        final(ch).shutdown == old(ch).shutdown,
        final(tx).idx() == old(tx).idx(),
        final(ch).n() == old(ch).n(),
{
    let p = old(tx).idx();
    let start = old(tx).start(old(ch).n());
    old(tx).lemma_start_in_range(old(ch).n());
    lemma_scan_ends(old(ch).room(p), start);
    let d = old(ch).route(p, start);
    let s = turn(start, d, old(ch).n());
    if d < old(ch).n() {
        assert(old(ch).room(p)[s]);
        assert(old(ch)@[s][p].push(value) =~= old(ch)@[s][p] + seq![value]);
        assert forall|j: int| 0 <= j < d implies old(ch)@[#[trigger] turn(start, j, old(ch).n())][p].len()
            >= CAP by {
            vstd::arithmetic::div_mod::lemma_mod_bound(start + j, old(ch).n());
            assert(!old(ch).room(p)[turn(start, j, old(ch).n())]);
        }
        assert(final(ch)@[s] == old(ch)@[s].update(p, old(ch)@[s][p].push(value)));
    } else {
        assert forall|s: int| 0 <= s < old(ch).n() implies (#[trigger] old(ch)@[s][p]).len() >= CAP by {
            assert(!old(ch).room(p)[s]);
        }
    }
    assert(final(ch)@.len() == old(ch)@.len());
    if d < old(ch).n() {
        lemma_has_ops(old(ch).shards@[s].word(), crate::bits::bit(p), p);
        lemma_has_bit(p, p);
        assert(final(ch)@[s] == final(ch).shards@[s]@);
        assert forall|t: int| 0 <= t < old(ch).n() && t != s implies #[trigger] final(ch)@[t]
            == old(ch)@[t] by {
            assert(r is Ok ==> final(ch).shards@[t] == old(ch).shards@[t]);
        }
    }
}

/// One pass of `MpmcProducer::send` of the channel with bitmaps waits iff no shard has
/// room for this producer, and then keeps the value; otherwise the value goes to
/// the first shard in turn that has.
pub proof fn bitmap_mpmc_send_waits_only_for_room<T, const CAP: usize>(
    tx: &mut signals::MpmcProducer<T, CAP>,
    ch: &mut signals::Mpmc<T, CAP>,
    value: T,
    r: Step<(), T>,
)
    requires
        old(tx).wf(*old(ch)),
        call_ensures(signals::MpmcProducer::<T, CAP>::send, (tx, ch, value), r),
    ensures
        r is Done <==> (exists|s: int| 0 <= s < old(ch).n() && (#[trigger] old(ch)@[s][old(tx).idx()]).len() < CAP),
        r is Done ==> exists|d: int|
            {
                let s = #[trigger] turn(old(tx).start(old(ch).n()), d, old(ch).n());
                &&& 0 <= d < old(ch).n()
                &&& old(ch)@[s][old(tx).idx()].len() < CAP
                &&& forall|j: int|
                    0 <= j < d ==> old(ch)@[#[trigger] turn(old(tx).start(old(ch).n()), j, old(ch).n())][old(tx).idx()].len() >= CAP
                &&& final(ch)@[s] == old(ch)@[s].update(old(tx).idx(), old(ch)@[s][old(tx).idx()].push(value))
                &&& forall|t: int| 0 <= t < old(ch).n() && t != s ==> #[trigger] final(ch)@[t] == old(ch)@[t]
                &&& final(tx).start(old(ch).n()) == turn(s, 1, old(ch).n())
                &&& bit_set(final(ch).shards@[s].word(), old(tx).idx())
                &&& final(ch).shards@[s].full_set.waiter == (if bit_set(
                    old(ch).shards@[s].word(),
                    old(tx).idx(),
                ) {
                    old(ch).shards@[s].full_set.waiter
                } else {
                    old(ch).shards@[s].full_set.waiter.woken()
                })
            },
        r matches Step::Wait(v) ==> v == value && final(ch)@ == old(ch)@ && final(ch).shards == old(ch).shards && final(ch).producer_gates@[old(tx).idx()].source.locked,
        final(ch).shutdown == old(ch).shutdown,
        final(tx).idx() == old(tx).idx(),
        final(ch).n() == old(ch).n(),
{
    let p = old(tx).idx();
    let start = old(tx).start(old(ch).n());
    old(tx).lemma_start_in_range(old(ch).n());
    lemma_scan_ends(old(ch).room(p), start);
    let d = old(ch).route(p, start);
    let s = turn(start, d, old(ch).n());
    if d < old(ch).n() {
        assert(old(ch).room(p)[s]);
        assert(old(ch)@[s][p].push(value) =~= old(ch)@[s][p] + seq![value]);
        assert forall|j: int| 0 <= j < d implies old(ch)@[#[trigger] turn(start, j, old(ch).n())][p].len()
            >= CAP by {
            vstd::arithmetic::div_mod::lemma_mod_bound(start + j, old(ch).n());
            assert(!old(ch).room(p)[turn(start, j, old(ch).n())]);
        }
        assert(final(ch)@[s] == old(ch)@[s].update(p, old(ch)@[s][p].push(value)));
    } else {
        assert forall|s: int| 0 <= s < old(ch).n() implies (#[trigger] old(ch)@[s][p]).len() >= CAP by {
            assert(!old(ch).room(p)[s]);
        }
    }
    assert(final(ch)@.len() == old(ch)@.len());
    if d < old(ch).n() {
        lemma_has_ops(old(ch).shards@[s].word(), crate::bits::bit(p), p);
        lemma_has_bit(p, p);
        assert(final(ch)@[s] == final(ch).shards@[s]@);
        assert forall|t: int| 0 <= t < old(ch).n() && t != s implies #[trigger] final(ch)@[t]
            == old(ch)@[t] by {
            assert(r is Done ==> final(ch).shards@[t] == old(ch).shards@[t]);
        }
    }
}

/// `MpmcProducer::try_send_batch` of the channel with bitmaps moves as many items as
/// one shard has room for, from the front of the list, to the first shard in turn
/// that has any; nothing is moved iff there are no items or no shard has room.
pub proof fn bitmap_mpmc_batch_fills_the_next_shard_with_room<T, const CAP: usize>(
    tx: &mut signals::MpmcProducer<T, CAP>,
    ch: &mut signals::Mpmc<T, CAP>,
    items: &mut Vec<T>,
    n: usize,
)
    requires
        old(tx).wf(*old(ch)),
        call_ensures(signals::MpmcProducer::<T, CAP>::try_send_batch, (tx, ch, items), n),
    ensures
        n > 0 <==> old(items)@.len() > 0 && (exists|s: int| 0 <= s < old(ch).n() && (#[trigger] old(ch)@[s][old(tx).idx()]).len() < CAP),
        n <= old(items)@.len(),
        final(items)@ == old(items)@.subrange(n as int, old(items)@.len() as int),
        n > 0 ==> exists|d: int|
            {
                let s = #[trigger] turn(old(tx).start(old(ch).n()), d, old(ch).n());
                &&& 0 <= d < old(ch).n()
                &&& old(ch)@[s][old(tx).idx()].len() < CAP
                &&& forall|j: int|
                    0 <= j < d ==> old(ch)@[#[trigger] turn(old(tx).start(old(ch).n()), j, old(ch).n())][old(tx).idx()].len() >= CAP
                &&& final(ch)@[s] == old(ch)@[s].update(
                    old(tx).idx(),
                    old(ch)@[s][old(tx).idx()] + old(items)@.subrange(0, n as int),
                )
                &&& final(ch)@[s][old(tx).idx()].len() <= CAP
                &&& n < old(items)@.len() ==> final(ch)@[s][old(tx).idx()].len() == CAP
                &&& forall|t: int| 0 <= t < old(ch).n() && t != s ==> #[trigger] final(ch)@[t] == old(ch)@[t]
                &&& final(tx).start(old(ch).n()) == turn(s, 1, old(ch).n())
                &&& bit_set(final(ch).shards@[s].word(), old(tx).idx())
                &&& final(ch).shards@[s].full_set.waiter == (if bit_set(
                    old(ch).shards@[s].word(),
                    old(tx).idx(),
                ) {
                    old(ch).shards@[s].full_set.waiter
                } else {
                    old(ch).shards@[s].full_set.waiter.woken()
                })
            },
        n == 0 ==> final(ch)@ == old(ch)@ && final(ch).shards == old(ch).shards,
        final(ch).shutdown == old(ch).shutdown,
        final(tx).idx() == old(tx).idx(),
        final(ch).n() == old(ch).n(),
{
    let p = old(tx).idx();
    let start = old(tx).start(old(ch).n());
    old(tx).lemma_start_in_range(old(ch).n());
    lemma_scan_ends(old(ch).room(p), start);
    let d = old(ch).route(p, start);
    let s = turn(start, d, old(ch).n());
    if d < old(ch).n() {
        assert(old(ch).room(p)[s]);
        assert forall|j: int| 0 <= j < d implies old(ch)@[#[trigger] turn(start, j, old(ch).n())][p].len()
            >= CAP by {
            vstd::arithmetic::div_mod::lemma_mod_bound(start + j, old(ch).n());
            assert(!old(ch).room(p)[turn(start, j, old(ch).n())]);
        }
        if n > 0 {
            assert(final(ch)@[s] == old(ch)@[s].update(
                p,
                old(ch)@[s][p] + old(items)@.take(n as int),
            ));
        }
    } else {
        assert forall|s: int| 0 <= s < old(ch).n() implies (#[trigger] old(ch)@[s][p]).len() >= CAP by {
            assert(!old(ch).room(p)[s]);
        }
    }
    assert(final(ch)@.len() == old(ch)@.len());
    if d < old(ch).n() {
        lemma_has_ops(old(ch).shards@[s].word(), crate::bits::bit(p), p);
        lemma_has_bit(p, p);
        assert(final(ch)@[s] == final(ch).shards@[s]@);
        assert forall|t: int| 0 <= t < old(ch).n() && t != s implies #[trigger] final(ch)@[t]
            == old(ch)@[t] by {
            assert(n > 0 ==> final(ch).shards@[t] == old(ch).shards@[t]);
        }
    }
}

/// `MpmcConsumer::try_recv` of the channel with bitmaps hands out the oldest item of
/// the first ring of its shard that has any, and calls that ring's producer;
/// `None` iff nothing is in flight in the shard. No other shard is touched.
pub proof fn bitmap_mpmc_try_recv_takes_the_oldest_of_a_ring<T, const CAP: usize>(
    rx: &signals::MpmcConsumer<T, CAP>,
    ch: &mut signals::Mpmc<T, CAP>,
    r: Option<T>,
)
    requires
        rx.wf(*old(ch)),
        call_ensures(signals::MpmcConsumer::<T, CAP>::try_recv, (rx, ch), r),
    ensures
        r is None <==> forall|p: int| 0 <= p < old(ch).m() ==> (#[trigger] old(ch)@[rx.at()][p]).len() == 0,
        r matches Some(v) ==> exists|p: int|
            #![trigger old(ch)@[rx.at()][p]]
            {
                &&& 0 <= p < old(ch).m()
                &&& old(ch)@[rx.at()][p].len() > 0
                &&& v == old(ch)@[rx.at()][p][0]
                &&& final(ch)@[rx.at()] == old(ch)@[rx.at()].update(p, old(ch)@[rx.at()][p].drop_first())
                &&& forall|j: int| 0 <= j < p ==> (#[trigger] old(ch)@[rx.at()][j]).len() == 0
                &&& !final(ch).producer_gates@[p].source.locked
                &&& final(ch).producer_gates@[p].parker == old(ch).producer_gates@[p].parker.woken()
            },
        r is None ==> final(ch)@[rx.at()] == old(ch)@[rx.at()],
        forall|t: int| 0 <= t < old(ch).n() && t != rx.at() ==> #[trigger] final(ch)@[t] == old(ch)@[t],
        final(ch).shutdown == old(ch).shutdown,
        final(ch).n() == old(ch).n(),
        final(ch).m() == old(ch).m(),
{
    let qs = old(ch)@[rx.at()];
    assert(old(ch).shards@[rx.at()].wf(old(ch).m()));
    lemma_first_nonempty(qs, 0);
    let p = first_nonempty(qs, 0);
    assert(qs[p].len() > 0 || p == qs.len());
    assert(final(ch)@.len() == old(ch)@.len());
    assert(final(ch)@[rx.at()] == final(ch).shards@[rx.at()]@);
}

/// One pass of `MpmcConsumer::recv` of the channel with bitmaps delivers before it
/// ends: while any ring of the shard holds an item, shut down or not, it hands
/// out the oldest item of the first such ring; it says that the channel is shut
/// down iff it is and the whole shard is empty; otherwise it waits.
pub proof fn bitmap_mpmc_recv_delivers_before_the_end<T, const CAP: usize>(
    rx: &signals::MpmcConsumer<T, CAP>,
    ch: &mut signals::Mpmc<T, CAP>,
    r: Step<Result<T, Shutdown>, ()>,
)
    requires
        rx.wf(*old(ch)),
        call_ensures(signals::MpmcConsumer::<T, CAP>::recv, (rx, ch), r),
    ensures
        forall|p: int|
            0 <= p < old(ch).m() && (#[trigger] old(ch)@[rx.at()][p]).len() > 0 ==> r is Done && r->Done_0 is Ok,
        r matches Step::Done(Ok(v)) ==> exists|p: int|
            #![trigger old(ch)@[rx.at()][p]]
            {
                &&& 0 <= p < old(ch).m()
                &&& old(ch)@[rx.at()][p].len() > 0
                &&& v == old(ch)@[rx.at()][p][0]
                &&& final(ch)@[rx.at()] == old(ch)@[rx.at()].update(p, old(ch)@[rx.at()][p].drop_first())
                &&& forall|j: int| 0 <= j < p ==> (#[trigger] old(ch)@[rx.at()][j]).len() == 0
                &&& !final(ch).producer_gates@[p].source.locked
                &&& final(ch).producer_gates@[p].parker == old(ch).producer_gates@[p].parker.woken()
            },
        r matches Step::Done(Err(_)) ==> {
            &&& old(ch).shutdown
            &&& forall|p: int| 0 <= p < old(ch).m() ==> (#[trigger] old(ch)@[rx.at()][p]).len() == 0
        },
        r is Wait ==> !old(ch).shutdown,
        !(r is Done && r->Done_0 is Ok) ==> final(ch)@[rx.at()] == old(ch)@[rx.at()],
        forall|t: int| 0 <= t < old(ch).n() && t != rx.at() ==> #[trigger] final(ch)@[t] == old(ch)@[t],
        final(ch).shutdown == old(ch).shutdown,
        final(ch).n() == old(ch).n(),
        final(ch).m() == old(ch).m(),
{
    let qs = old(ch)@[rx.at()];
    assert(old(ch).shards@[rx.at()].wf(old(ch).m()));
    lemma_first_nonempty(qs, 0);
    let p = first_nonempty(qs, 0);
    assert(qs[p].len() > 0 || p == qs.len());
    assert(final(ch)@.len() == old(ch)@.len());
    assert(final(ch)@[rx.at()] == final(ch).shards@[rx.at()]@);
}

/// When `MpmcConsumer::recv` of the channel with bitmaps says that the channel is shut
/// down, everything that its shard has ever accepted has been delivered.
pub proof fn bitmap_mpmc_recv_ends_after_everything_was_delivered<T, const CAP: usize>(
    rx: &signals::MpmcConsumer<T, CAP>,
    ch: &mut signals::Mpmc<T, CAP>,
    r: Step<Result<T, Shutdown>, ()>,
    ops: Seq<ShardedOp<T>>,
    p: int,
)
    requires
        rx.wf(*old(ch)),
        CAP > 0,
        0 <= p < old(ch).m(),
        tells_of(
            run_sharded(old(ch).m() as nat, old(ch).n() as nat, CAP as int, ops),
            old(ch)@,
            old(ch).shutdown,
        ),
        call_ensures(signals::MpmcConsumer::<T, CAP>::recv, (rx, ch), r),
        r is Done,
        r->Done_0 is Err,
    ensures
        ({
            let h = run_sharded(old(ch).m() as nat, old(ch).n() as nat, CAP as int, ops);
            h.delivered[rx.at()][p] == h.accepted[rx.at()][p]
        }),
{
    let h = run_sharded(old(ch).m() as nat, old(ch).n() as nat, CAP as int, ops);
    each_ring_keeps_its_order(old(ch).m() as nat, old(ch).n() as nat, CAP as int, ops, rx.at(), p);
    assert(old(ch).shards@[rx.at()].wf(old(ch).m()));
    assert(old(ch)@[rx.at()][p].len() == 0);
    assert(h.delivered[rx.at()][p] + h.queues[rx.at()][p] =~= h.delivered[rx.at()][p]);
}

/// `MpmcConsumer::try_recv_batch` of the channel with bitmaps takes everything in its
/// shard: the items of each producer stand together and in their order, producer
/// by producer, nothing is left, and every producer that had items is called.
pub proof fn bitmap_mpmc_batch_takes_everything_in_order<T, const CAP: usize>(
    rx: &signals::MpmcConsumer<T, CAP>,
    ch: &mut signals::Mpmc<T, CAP>,
    out: &mut Vec<T>,
    n: usize,
    p: int,
)
    requires
        rx.wf(*old(ch)),
        call_ensures(signals::MpmcConsumer::<T, CAP>::try_recv_batch, (rx, ch, out), n),
    ensures
        n == count(old(ch)@[rx.at()], old(ch).m()),
        final(out)@.len() == old(out)@.len() + count(old(ch)@[rx.at()], old(ch).m()),
        forall|k: int| 0 <= k < old(out)@.len() ==> #[trigger] final(out)@[k] == old(out)@[k],
        0 <= p < old(ch).m() ==> {
            let from = old(out)@.len() + count(old(ch)@[rx.at()], p);
            final(out)@.subrange(from as int, from + old(ch)@[rx.at()][p].len()) == old(ch)@[rx.at()][p]
        },
        0 <= p < old(ch).m() ==> final(ch)@[rx.at()][p].len() == 0,
        0 <= p < old(ch).m() && old(ch)@[rx.at()][p].len() > 0 ==> !final(ch).producer_gates@[p].source.locked
            && final(ch).producer_gates@[p].parker == old(ch).producer_gates@[p].parker.woken(),
        forall|t: int| 0 <= t < old(ch).n() && t != rx.at() ==> #[trigger] final(ch)@[t] == old(ch)@[t],
        final(ch).shutdown == old(ch).shutdown,
        final(ch).n() == old(ch).n(),
        final(ch).m() == old(ch).m(),
{
    let qs = old(ch)@[rx.at()];
    assert(old(ch).shards@[rx.at()].wf(old(ch).m()));
    let all = joined(qs, old(ch).m());
    lemma_count(qs, old(ch).m());
    if 0 <= p < old(ch).m() {
        lemma_count(qs, p);
        lemma_joined_holds(qs, old(ch).m(), p);
        let from = count(qs, p);
        assert(final(out)@.subrange(
            old(out)@.len() + from,
            old(out)@.len() + from + qs[p].len(),
        ) =~= all.subrange(from, from + qs[p].len()));
    }
    if any_ready(qs) {
        let j = choose|j: int| 0 <= j < qs.len() && (#[trigger] qs[j]).len() > 0;
        lemma_joined_holds(qs, old(ch).m(), j);
    } else {
        assert forall|j: int| 0 <= j < qs.len() implies (#[trigger] qs[j]).len() == 0 by {}
    }
    assert(final(ch)@.len() == old(ch)@.len());
    assert(final(ch)@[rx.at()] == final(ch).shards@[rx.at()]@);
}

/// One pass of `MpmcConsumer::recv_batch` of the channel with bitmaps takes
/// everything in its shard, shut down or not, and says how much that was; only
/// when that is nothing it says that the channel is shut down, iff it is, or waits.
pub proof fn bitmap_mpmc_recv_batch_delivers_before_the_end<T, const CAP: usize>(
    rx: &signals::MpmcConsumer<T, CAP>,
    ch: &mut signals::Mpmc<T, CAP>,
    out: &mut Vec<T>,
    r: Step<Result<usize, Shutdown>, ()>,
    p: int,
)
    requires
        rx.wf(*old(ch)),
        call_ensures(signals::MpmcConsumer::<T, CAP>::recv_batch, (rx, ch, out), r),
    ensures
        0 <= p < old(ch).m() && old(ch)@[rx.at()][p].len() > 0 ==> r is Done && r->Done_0 is Ok,
        r matches Step::Done(Ok(n)) ==> n == count(old(ch)@[rx.at()], old(ch).m()) && n > 0,
        r matches Step::Done(Err(_)) ==> old(ch).shutdown && count(old(ch)@[rx.at()], old(ch).m()) == 0,
        r is Wait ==> !old(ch).shutdown && count(old(ch)@[rx.at()], old(ch).m()) == 0,
        final(out)@.len() == old(out)@.len() + count(old(ch)@[rx.at()], old(ch).m()),
        forall|k: int| 0 <= k < old(out)@.len() ==> #[trigger] final(out)@[k] == old(out)@[k],
        0 <= p < old(ch).m() ==> {
            let from = old(out)@.len() + count(old(ch)@[rx.at()], p);
            final(out)@.subrange(from as int, from + old(ch)@[rx.at()][p].len()) == old(ch)@[rx.at()][p]
        },
        0 <= p < old(ch).m() ==> final(ch)@[rx.at()][p].len() == 0,
        0 <= p < old(ch).m() && old(ch)@[rx.at()][p].len() > 0 ==> !final(ch).producer_gates@[p].source.locked
            && final(ch).producer_gates@[p].parker == old(ch).producer_gates@[p].parker.woken(),
        forall|t: int| 0 <= t < old(ch).n() && t != rx.at() ==> #[trigger] final(ch)@[t] == old(ch)@[t],
        final(ch).shutdown == old(ch).shutdown,
        final(ch).n() == old(ch).n(),
        final(ch).m() == old(ch).m(),
{
    let qs = old(ch)@[rx.at()];
    assert(old(ch).shards@[rx.at()].wf(old(ch).m()));
    let all = joined(qs, old(ch).m());
    lemma_count(qs, old(ch).m());
    if 0 <= p < old(ch).m() {
        lemma_count(qs, p);
        lemma_joined_holds(qs, old(ch).m(), p);
        let from = count(qs, p);
        assert(final(out)@.subrange(
            old(out)@.len() + from,
            old(out)@.len() + from + qs[p].len(),
        ) =~= all.subrange(from, from + qs[p].len()));
    }
    if any_ready(qs) {
        let j = choose|j: int| 0 <= j < qs.len() && (#[trigger] qs[j]).len() > 0;
        lemma_joined_holds(qs, old(ch).m(), j);
    } else {
        assert forall|j: int| 0 <= j < qs.len() implies (#[trigger] qs[j]).len() == 0 by {}
    }
    assert(final(ch)@.len() == old(ch)@.len());
    assert(final(ch)@[rx.at()] == final(ch).shards@[rx.at()]@);
}

/// A shutdown of a channel with bitmaps is there for everybody to see, calls every
/// consumer and producer, and leaves what is in flight.
pub proof fn bitmap_mpmc_shutdown_calls_everybody<T, const CAP: usize>(
    handle: &signals::MpmcShutdown<T, CAP>,
    ch: &mut signals::Mpmc<T, CAP>,
    rx: &signals::MpmcConsumer<T, CAP>,
    after: bool,
    called: bool,
)
    requires
        old(ch).wf(),
        0 <= rx.at() < old(ch).n(),
        call_ensures(signals::MpmcShutdown::<T, CAP>::signal, (handle, ch), ()),
        call_ensures(signals::MpmcShutdown::<T, CAP>::is_signaled, (handle, &*final(ch)), after),
        call_ensures(signals::MpmcConsumer::<T, CAP>::can_recv, (rx, &*final(ch)), called),
    ensures
        after,
        called,
        final(ch).shutdown,
        final(ch)@ == old(ch)@,
        forall|s: int|
            0 <= s < old(ch).n() && !(#[trigger] old(ch).shards@[s]).told() ==> final(ch).shards@[s].full_set.waiter
                == old(ch).shards@[s].full_set.waiter.woken(),
        forall|p: int|
            0 <= p < old(ch).m() ==> !(#[trigger] final(ch).producer_gates@[p]).source.locked
                && final(ch).producer_gates@[p].parker == old(ch).producer_gates@[p].parker.woken(),
{
    assert(final(ch).shards@[rx.at()].told());
    assert forall|s: int|
        0 <= s < old(ch).n() && !(#[trigger] old(ch).shards@[s]).told() implies final(ch).shards@[s].full_set.waiter == old(ch).shards@[s].full_set.waiter.woken() by {
        assert(final(ch).shards@[s].told());
    }
}

/// The bitmap calls a consumer as long as there is an item in its shard.
pub proof fn bitmap_mpmc_calls_a_consumer_with_items<T, const CAP: usize>(
    rx: &signals::MpmcConsumer<T, CAP>,
    ch: &signals::Mpmc<T, CAP>,
    p: int,
    called: bool,
)
    requires
        rx.wf(*ch),
        0 <= p < ch.m(),
        ch@[rx.at()][p].len() > 0,
        call_ensures(signals::MpmcConsumer::<T, CAP>::can_recv, (rx, ch), called),
    ensures
        called,
{
    assert(ch.shards@[rx.at()].wf(ch.m()));
}

/// A consumer that has to wait is not called any more until something arrives: a
/// pass that waits has cleared its bits.
pub proof fn bitmap_mpmc_wait_clears_the_call<T, const CAP: usize>(
    rx: &signals::MpmcConsumer<T, CAP>,
    ch: &mut signals::Mpmc<T, CAP>,
    r: Step<Result<T, Shutdown>, ()>,
    called: bool,
)
    requires
        rx.wf(*old(ch)),
        !old(ch).shards@[rx.at()].told(),
        call_ensures(signals::MpmcConsumer::<T, CAP>::recv, (rx, ch), r),
        call_ensures(signals::MpmcConsumer::<T, CAP>::can_recv, (rx, &*final(ch)), called),
        r is Wait,
    ensures
        !called,
{
    let shard = final(ch).shards@[rx.at()];
    assert(old(ch).shards@[rx.at()].wf(old(ch).m()));
    let mask = shard.full_mask | crate::bits::bit(63);
    assert forall|k: int| 0 <= k < 64 implies !#[trigger] bit_set(shard.word() & mask, k) by {
        lemma_has_ops(shard.word(), mask, k);
        lemma_has_ops(shard.full_mask, crate::bits::bit(63), k);
        lemma_has_low_mask(old(ch).m(), k);
        lemma_has_bit(k, 63);
        if k < old(ch).m() {
            assert(old(ch)@[rx.at()][k].len() == 0);
            assert(!bit_set(shard.word(), k));
        }
    }
    lemma_zero_iff(shard.word() & mask);
}

/// A producer that has to wait is called when one of its items is taken: the next
/// look says go.
pub proof fn bitmap_mpmc_take_calls_the_producer<T, const CAP: usize>(
    rx: &signals::MpmcConsumer<T, CAP>,
    tx: &signals::MpmcProducer<T, CAP>,
    ch: &mut signals::Mpmc<T, CAP>,
    r: Option<T>,
    can: bool,
)
    requires
        rx.wf(*old(ch)),
        tx.wf(*old(ch)),
        call_ensures(signals::MpmcConsumer::<T, CAP>::try_recv, (rx, ch), r),
        r is Some,
        final(ch)@[rx.at()][tx.idx()].len() < old(ch)@[rx.at()][tx.idx()].len(),
        call_ensures(signals::MpmcProducer::<T, CAP>::can_send, (tx, &*final(ch)), can),
    ensures
        can,
{
    let qs = old(ch)@[rx.at()];
    assert(old(ch).shards@[rx.at()].wf(old(ch).m()));
    lemma_first_nonempty(qs, 0);
}

/// A new channel with bitmaps has the producers and the shards asked for, nothing in any
/// of them, and is open; producers start at different shards.
pub proof fn bitmap_mpmc_starts_empty<T, const CAP: usize>(
    m: usize,
    n: usize,
    r: (signals::Mpmc<T, CAP>, Vec<signals::MpmcProducer<T, CAP>>, Vec<signals::MpmcConsumer<T, CAP>>, signals::MpmcShutdown<T, CAP>),
)
    requires
        call_ensures(signals::Mpmc::<T, CAP>::new, (m, n), r),
    ensures
        r.0.m() == m,
        r.0.n() == n,
        forall|s: int, p: int| 0 <= s < n && 0 <= p < m ==> (#[trigger] r.0@[s][p]).len() == 0,
        !r.0.shutdown,
        r.1@.len() == m,
        r.2@.len() == n,
        forall|p: int|
            0 <= p < m ==> (#[trigger] r.1@[p]).idx() == p && r.1@[p].start(n as int) == turn(p, 0, n as int),
        forall|s: int| 0 <= s < n ==> (#[trigger] r.2@[s]).at() == s,
{
}

} // verus!
