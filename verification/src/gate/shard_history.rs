//! What the operations of a channel are to the parties of one shard.
//!
//! A shard together with whether its consumer waits shows a state of the world
//! of [`crate::gate::bitmap_wake`]. Every operation of the channel takes every
//! shard from one such state to another along steps of that world.
use super::bitmap_wake::{
    bitmap_misses_no_item, ends, forgets, goes_on, marks, posts, shard_execution, shard_step,
    shard_step_at, takes, ShardConsumerAt, ShardWorld,
};
use super::mpmc::{Mpmc, MpmcConsumer, MpmcProducer, Shard, SHUTDOWN_BIT};
use crate::bits::{bit, bit_set, lemma_has_bit, lemma_has_low_mask, lemma_has_nonzero, lemma_has_ops, lemma_has_zero, lemma_zero_iff};
use crate::route::hub::Shutdown;
use crate::route::queues::{any_ready, first_nonempty, lemma_first_nonempty};
use crate::waiter::Step;
use vstd::prelude::*;

verus! {

/// The state of the world that a shard shows.
pub open spec fn world_of<T, const CAP: usize>(
    shard: Shard<T, CAP>,
    waiting: bool,
) -> ShardWorld {
    ShardWorld {
        items: Seq::new(shard@.len(), |p: int| shard@[p].len() as int),
        bits: Set::new(|p: int| 0 <= p < shard@.len() && bit_set(shard.word(), p)),
        posting: Seq::new(shard@.len(), |p: int| false),
        told: shard.told(),
        consumer: if waiting {
            ShardConsumerAt::Park
        } else {
            ShardConsumerAt::Take
        },
    }
}

/// The execution `e` has led to this state of shard `s` of the channel.
pub open spec fn tells_of<T, const CAP: usize>(
    e: Seq<ShardWorld>,
    ch: Mpmc<T, CAP>,
    s: int,
    waiting: bool,
) -> bool {
    &&& ch.wf()
    &&& 0 <= s < ch.n()
    &&& shard_execution(e)
    &&& e.last() == world_of(ch.shards@[s], waiting)
}

/// An execution goes on with one more step.
proof fn lemma_goes_on(e: Seq<ShardWorld>, t: ShardWorld) -> (f: Seq<ShardWorld>)
    requires
        shard_execution(e),
        shard_step(e.last(), t),
    ensures
        shard_execution(f),
        e.is_prefix_of(f),
        f.last() == t,
{
    let f = e.push(t);
    assert forall|k: int| 0 <= k < f.len() - 1 implies #[trigger] shard_step_at(f, k) by {
        if k < e.len() - 1 {
            assert(shard_step_at(e, k));
        }
    }
    f
}

/// Every shard of a new channel shows an initial state.
pub proof fn a_new_channel_starts<T, const CAP: usize>(ch: Mpmc<T, CAP>, s: int) -> (e: Seq<
    ShardWorld,
>)
    requires
        ch.wf(),
        0 <= s < ch.n(),
        forall|p: int| 0 <= p < ch.m() ==> (#[trigger] ch@[s][p]).len() == 0,
        ch.shards@[s].word() == 0,
    ensures
        tells_of(e, ch, s, false),
{
    let e = seq![world_of(ch.shards@[s], false)];
    assert forall|p: int| 0 <= p < 64 implies !#[trigger] bit_set(0, p) by {
        lemma_has_zero(p);
    }
    assert(e[0].bits =~= Set::<int>::empty());
    assert forall|p: int| 0 <= p < e[0].items.len() implies (#[trigger] e[0].items[p]) == 0
        && !e[0].posting[p] by {
        assert(ch@[s][p].len() == 0);
    }
    e
}

/// Putting items into a ring is a run of its producer, in the shard where the
/// ring is: it puts them there and then sets its bit. To every other shard it
/// is no step at all.
pub proof fn a_post_is_a_run<T, const CAP: usize>(
    e: Seq<ShardWorld>,
    producer: MpmcProducer<T, CAP>,
    ch: Mpmc<T, CAP>,
    next: Mpmc<T, CAP>,
    at: int,
    items: Seq<T>,
    s: int,
    waiting: bool,
) -> (f: Seq<ShardWorld>)
    requires
        tells_of(e, ch, s, waiting),
        next.wf(),
        producer.wf(ch),
        0 <= at < ch.n(),
        items.len() > 0,
        producer.posted(ch, next, at, items),
    ensures
        e.is_prefix_of(f),
        tells_of(f, next, s, waiting),
{
    if s != at {
        assert(next.shards@[s] == ch.shards@[s]);
        e
    } else {
        let p = producer.idx();
        let w = e.last();
        let t = world_of(next.shards@[s], waiting);
        let m = ShardWorld {
            items: w.items.update(p, w.items[p] + items.len()),
            posting: w.posting.update(p, true),
            ..w
        };
        assert(posts(w, m, p, items.len() as int));
        let g = lemma_goes_on(e, m);
        let before = ch.shards@[s].word();
        assert forall|k: int| 0 <= k < 64 implies #[trigger] bit_set(before | bit(p), k) == (
        bit_set(before, k) || k == p) by {
            lemma_has_ops(before, bit(p), k);
            lemma_has_bit(k, p);
        }
        assert(ch@[s] == ch.shards@[s]@);
        assert(t.items =~= m.items);
        assert(t.bits =~= m.bits.insert(p));
        assert(t.posting =~= m.posting.update(p, false));
        assert(marks(m, t, p));
        lemma_goes_on(g, t)
    }
}

/// Sending a value without waiting is a run of the producer, in the shard that
/// takes the value.
pub proof fn a_send_is_a_run<T, const CAP: usize>(
    e: Seq<ShardWorld>,
    producer: MpmcProducer<T, CAP>,
    handle: MpmcProducer<T, CAP>,
    ch: Mpmc<T, CAP>,
    next: Mpmc<T, CAP>,
    value: T,
    accepted: bool,
    s: int,
    waiting: bool,
) -> (f: Seq<ShardWorld>)
    requires
        tells_of(e, ch, s, waiting),
        next.wf(),
        producer.wf(ch),
        producer.sent(ch, value, handle, next, accepted),
    ensures
        e.is_prefix_of(f),
        tells_of(f, next, s, waiting),
{
    if accepted {
        let k = ch.route(producer.idx(), producer.start(ch.n()));
        let x = producer.start(ch.n()) + k;
        vstd::arithmetic::div_mod::lemma_mod_bound(x, ch.n());
        a_post_is_a_run(e, producer, ch, next, x % ch.n(), seq![value], s, waiting)
    } else {
        e
    }
}

/// Taking an item without waiting is a step of the consumer of the shard; an
/// attempt that finds nothing is no step at all.
pub proof fn a_take_is_a_run<T, const CAP: usize>(
    e: Seq<ShardWorld>,
    consumer: MpmcConsumer<T, CAP>,
    ch: Mpmc<T, CAP>,
    next: Mpmc<T, CAP>,
    r: Option<T>,
    s: int,
    waiting: bool,
) -> (f: Seq<ShardWorld>)
    requires
        tells_of(e, ch, s, waiting),
        next.wf(),
        consumer.wf(ch),
        consumer.took(ch, next, r),
        s == consumer.at() ==> !waiting,
    ensures
        e.is_prefix_of(f),
        tells_of(f, next, s, waiting),
{
    let qs = ch@[consumer.at()];
    let p = first_nonempty(qs, 0);
    if p >= qs.len() {
        e
    } else if s != consumer.at() {
        assert(next.shards@[s] == ch.shards@[s]);
        e
    } else {
        let w = e.last();
        let t = world_of(next.shards@[s], false);
        lemma_first_nonempty(qs, 0);
        assert(qs[p].len() > 0);
        assert(ch.shards@[s].rings@[p]@.len() > 0);
        assert(next@[s] == next.shards@[s]@);
        assert(t =~= (ShardWorld { items: w.items.update(p, w.items[p] - 1), ..w }));
        assert(takes(w, t, p, 1));
        lemma_goes_on(e, t)
    }
}

/// Rings are emptied one after the other, from ring `k` on.
proof fn lemma_takes_all(e: Seq<ShardWorld>, k: int) -> (f: Seq<ShardWorld>)
    requires
        shard_execution(e),
        e.last().consumer is Take,
        0 <= k <= e.last().items.len(),
        forall|p: int|
            0 <= p < e.last().items.len() ==> (#[trigger] e.last().items[p]) >= 0 && (
            e.last().items[p] > 0 ==> p >= k && e.last().bits.contains(p)),
    ensures
        shard_execution(f),
        e.is_prefix_of(f),
        f.last() == (ShardWorld {
            items: Seq::new(e.last().items.len(), |p: int| 0int),
            ..e.last()
        }),
    decreases e.last().items.len() - k,
{
    let w = e.last();
    if k == w.items.len() {
        assert(w.items =~= Seq::new(w.items.len(), |p: int| 0int));
        e
    } else if w.items[k] > 0 {
        let t = ShardWorld { items: w.items.update(k, 0), ..w };
        assert(takes(w, t, k, w.items[k]));
        let g = lemma_goes_on(e, t);
        lemma_takes_all(g, k + 1)
    } else {
        lemma_takes_all(e, k + 1)
    }
}

/// Taking everything in a shard is a run of its consumer, ring by ring.
pub proof fn a_drain_is_a_run<T, const CAP: usize>(
    e: Seq<ShardWorld>,
    consumer: MpmcConsumer<T, CAP>,
    ch: Mpmc<T, CAP>,
    next: Mpmc<T, CAP>,
    s: int,
    waiting: bool,
) -> (f: Seq<ShardWorld>)
    requires
        tells_of(e, ch, s, waiting),
        next.wf(),
        consumer.wf(ch),
        consumer.drained(ch, next),
        s == consumer.at() ==> !waiting,
    ensures
        e.is_prefix_of(f),
        tells_of(f, next, s, waiting),
{
    if s != consumer.at() {
        assert(next.shards@[s] == ch.shards@[s]);
        e
    } else {
        let w = e.last();
        let t = world_of(next.shards@[s], false);
        assert forall|p: int| 0 <= p < w.items.len() && (#[trigger] w.items[p]) > 0 implies
            w.bits.contains(p) by {
            assert(ch.shards@[s].rings@[p]@.len() > 0);
        }
        assert(next@[s] == next.shards@[s]@);
        assert(t =~= (ShardWorld { items: Seq::new(w.items.len(), |p: int| 0int), ..w }));
        lemma_takes_all(e, 0)
    }
}

/// The bitmap of shard `s` calls a consumer that waits.
pub open spec fn called<T, const CAP: usize>(ch: Mpmc<T, CAP>, s: int) -> bool {
    ch.shards@[s].word() & (ch.shards@[s].full_mask | bit(SHUTDOWN_BIT as int)) != 0
}

/// A consumer that is called wakes up.
proof fn lemma_wakes_up<T, const CAP: usize>(
    e: Seq<ShardWorld>,
    ch: Mpmc<T, CAP>,
    s: int,
    waiting: bool,
) -> (f: Seq<ShardWorld>)
    requires
        tells_of(e, ch, s, waiting),
        waiting ==> called(ch, s),
    ensures
        e.is_prefix_of(f),
        tells_of(f, ch, s, false),
{
    if waiting {
        let w = e.last();
        let t = world_of(ch.shards@[s], false);
        let word = ch.shards@[s].word();
        let full = ch.shards@[s].full_mask;
        let mask = full | bit(SHUTDOWN_BIT as int);
        lemma_zero_iff(word & mask);
        let k = choose|k: int| 0 <= k < 64 && #[trigger] bit_set(word & mask, k);
        lemma_has_ops(word, mask, k);
        lemma_has_ops(full, bit(SHUTDOWN_BIT as int), k);
        lemma_has_bit(k, SHUTDOWN_BIT as int);
        lemma_has_low_mask(ch.m(), k);
        if k != SHUTDOWN_BIT {
            assert(w.bits.contains(k));
        }
        assert(goes_on(w, t));
        lemma_goes_on(e, t)
    } else {
        e
    }
}

/// A consumer that looks at empty rings, from ring `k` on, goes to sleep.
proof fn lemma_goes_to_sleep(e: Seq<ShardWorld>, k: int) -> (f: Seq<ShardWorld>)
    requires
        shard_execution(e),
        e.last().consumer == ShardConsumerAt::Recheck(k, false),
        0 <= k <= e.last().items.len(),
        forall|p: int| 0 <= p < e.last().items.len() ==> (#[trigger] e.last().items[p]) == 0,
    ensures
        shard_execution(f),
        e.is_prefix_of(f),
        f.last() == (ShardWorld { consumer: ShardConsumerAt::Park, ..e.last() }),
    decreases e.last().items.len() - k,
{
    let w = e.last();
    if k == w.items.len() {
        let t = ShardWorld { consumer: ShardConsumerAt::Park, ..w };
        assert(goes_on(w, t));
        lemma_goes_on(e, t)
    } else {
        let t = ShardWorld { consumer: ShardConsumerAt::Recheck(k + 1, false), ..w };
        assert(goes_on(w, t));
        let g = lemma_goes_on(e, t);
        lemma_goes_to_sleep(g, k + 1)
    }
}

/// A pass that has found nothing is a run of the consumer: it sees the
/// shutdown, or it clears all bits, looks at every ring once more and goes to
/// sleep.
pub proof fn finding_nothing_is_a_run<T, const CAP: usize>(
    e: Seq<ShardWorld>,
    consumer: MpmcConsumer<T, CAP>,
    ch: Mpmc<T, CAP>,
    next: Mpmc<T, CAP>,
    ended: bool,
    s: int,
    waiting: bool,
) -> (f: Seq<ShardWorld>)
    requires
        tells_of(e, ch, s, waiting),
        next.wf(),
        consumer.wf(ch),
        !any_ready(ch@[consumer.at()]),
        consumer.found_nothing(ch, next, ended),
        s == consumer.at() ==> !waiting,
    ensures
        e.is_prefix_of(f),
        tells_of(
            f,
            next,
            s,
            if s == consumer.at() {
                !ended
            } else {
                waiting
            },
        ),
{
    if s != consumer.at() {
        assert(next.shards@[s] == ch.shards@[s]);
        e
    } else {
        let w = e.last();
        let word = ch.shards@[s].word();
        assert(next@[s] == next.shards@[s]@);
        assert(ch@[s] == ch.shards@[s]@);
        if ended {
            let t = world_of(next.shards@[s], false);
            assert forall|k: int| 0 <= k < 63 implies #[trigger] bit_set(
                word & !bit(SHUTDOWN_BIT as int),
                k,
            ) == bit_set(word, k) by {
                lemma_has_ops(word, bit(SHUTDOWN_BIT as int), k);
                lemma_has_bit(k, SHUTDOWN_BIT as int);
            }
            assert(t =~= (ShardWorld { told: false, ..w }));
            assert(forgets(w, t));
            lemma_goes_on(e, t)
        } else {
            let t = world_of(next.shards@[s], true);
            let clear = ShardWorld { consumer: ShardConsumerAt::Clear, ..w };
            assert(goes_on(w, clear));
            let g = lemma_goes_on(e, clear);
            let looking = ShardWorld {
                bits: Set::empty(),
                consumer: ShardConsumerAt::Recheck(0, false),
                ..clear
            };
            assert(goes_on(clear, looking));
            let g = lemma_goes_on(g, looking);
            assert forall|p: int| 0 <= p < w.items.len() implies (#[trigger] w.items[p]) == 0 by {
                assert(ch@[s][p].len() == 0);
            }
            assert forall|p: int| 0 <= p < w.items.len() implies !#[trigger] bit_set(
                next.shards@[s].word(),
                p,
            ) by {
                assert(w.items[p] == 0);
            }
            assert(t =~= (ShardWorld { consumer: ShardConsumerAt::Park, ..looking }));
            lemma_goes_to_sleep(g, 0)
        }
    }
}

/// One pass of a blocking receive is a run of the consumer of the shard: it
/// wakes up if it was waiting, and then takes an item, sees the shutdown, or
/// goes to sleep. Whoever is waiting calls again when the bitmap calls.
pub proof fn a_receive_is_a_run<T, const CAP: usize>(
    e: Seq<ShardWorld>,
    consumer: MpmcConsumer<T, CAP>,
    ch: Mpmc<T, CAP>,
    next: Mpmc<T, CAP>,
    r: Step<Result<T, Shutdown>, ()>,
    waiting: bool,
) -> (f: Seq<ShardWorld>)
    requires
        tells_of(e, ch, consumer.at(), waiting),
        next.wf(),
        consumer.wf(ch),
        waiting ==> called(ch, consumer.at()),
        if any_ready(ch@[consumer.at()]) {
            &&& r is Done
            &&& r->Done_0 is Ok
            &&& consumer.took(ch, next, Some(r->Done_0->Ok_0))
        } else {
            consumer.found_nothing(ch, next, r is Done)
        },
    ensures
        e.is_prefix_of(f),
        tells_of(f, next, consumer.at(), r is Wait),
{
    let g = lemma_wakes_up(e, ch, consumer.at(), waiting);
    if any_ready(ch@[consumer.at()]) {
        a_take_is_a_run(g, consumer, ch, next, Some(r->Done_0->Ok_0), consumer.at(), false)
    } else {
        finding_nothing_is_a_run(g, consumer, ch, next, r is Done, consumer.at(), false)
    }
}

/// One pass of a blocking batch receive is a run of the consumer of the shard.
pub proof fn a_batch_receive_is_a_run<T, const CAP: usize>(
    e: Seq<ShardWorld>,
    consumer: MpmcConsumer<T, CAP>,
    ch: Mpmc<T, CAP>,
    next: Mpmc<T, CAP>,
    r: Step<Result<usize, Shutdown>, ()>,
    waiting: bool,
) -> (f: Seq<ShardWorld>)
    requires
        tells_of(e, ch, consumer.at(), waiting),
        next.wf(),
        consumer.wf(ch),
        waiting ==> called(ch, consumer.at()),
        if any_ready(ch@[consumer.at()]) {
            &&& r is Done
            &&& consumer.drained(ch, next)
        } else {
            consumer.found_nothing(ch, next, r is Done)
        },
    ensures
        e.is_prefix_of(f),
        tells_of(f, next, consumer.at(), r is Wait),
{
    let g = lemma_wakes_up(e, ch, consumer.at(), waiting);
    if any_ready(ch@[consumer.at()]) {
        a_drain_is_a_run(g, consumer, ch, next, consumer.at(), false)
    } else {
        finding_nothing_is_a_run(g, consumer, ch, next, r is Done, consumer.at(), false)
    }
}

/// A shutdown tells every shard.
pub proof fn a_shutdown_is_a_step<T, const CAP: usize>(
    e: Seq<ShardWorld>,
    ch: Mpmc<T, CAP>,
    next: Mpmc<T, CAP>,
    s: int,
    waiting: bool,
) -> (f: Seq<ShardWorld>)
    requires
        tells_of(e, ch, s, waiting),
        next.wf(),
        next@ == ch@,
        next.n() == ch.n(),
        next.shards@[s].told(),
        next.shards@[s].word() == ch.shards@[s].word() | bit(SHUTDOWN_BIT as int),
    ensures
        e.is_prefix_of(f),
        tells_of(f, next, s, waiting),
{
    let w = e.last();
    let t = world_of(next.shards@[s], waiting);
    let word = ch.shards@[s].word();
    assert(next@[s] == next.shards@[s]@);
    assert(ch@[s] == ch.shards@[s]@);
    assert forall|k: int| 0 <= k < 63 implies #[trigger] bit_set(
        word | bit(SHUTDOWN_BIT as int),
        k,
    ) == bit_set(word, k) by {
        lemma_has_ops(word, bit(SHUTDOWN_BIT as int), k);
        lemma_has_bit(k, SHUTDOWN_BIT as int);
    }
    assert(t =~= (ShardWorld { told: true, ..w }));
    assert(ends(w, t));
    lemma_goes_on(e, t)
}

/// Registering a handle, waiting for room and delivering a wake is no step:
/// nothing in flight and no bit changes.
pub proof fn the_rest_is_no_step<T, const CAP: usize>(
    e: Seq<ShardWorld>,
    ch: Mpmc<T, CAP>,
    next: Mpmc<T, CAP>,
    s: int,
    waiting: bool,
)
    requires
        tells_of(e, ch, s, waiting),
        next.wf(),
        next.n() == ch.n(),
        next@[s] == ch@[s],
        next.shards@[s].word() == ch.shards@[s].word(),
    ensures
        tells_of(e, next, s, waiting),
{
    assert(next@[s] == next.shards@[s]@);
    assert(ch@[s] == ch.shards@[s]@);
}

/// No consumer of a channel ever sleeps uncalled while there is an item in its
/// shard.
pub proof fn no_consumer_sleeps_on_items<T, const CAP: usize>(
    e: Seq<ShardWorld>,
    ch: Mpmc<T, CAP>,
    s: int,
    waiting: bool,
)
    requires
        tells_of(e, ch, s, waiting),
        any_ready(ch@[s]),
    ensures
        called(ch, s),
{
    let p = choose|p: int| 0 <= p < ch@[s].len() && (#[trigger] ch@[s][p]).len() > 0;
    assert(e.last().items[p] > 0);
    bitmap_misses_no_item(e, e.len() - 1, p);
    let word = ch.shards@[s].word();
    let full = ch.shards@[s].full_mask;
    let mask = full | bit(SHUTDOWN_BIT as int);
    lemma_has_ops(word, mask, p);
    lemma_has_ops(full, bit(SHUTDOWN_BIT as int), p);
    lemma_has_low_mask(ch.m(), p);
    lemma_has_nonzero(word & mask, p);
}

} // verus!
