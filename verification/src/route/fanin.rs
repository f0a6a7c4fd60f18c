//! What a channel with many producers and one consumer promises over any
//! sequence of operations.
use super::mpsc::{Mpsc, MpscConsumer, MpscProducer};
use super::pool::MpscProducerPool;
use super::queues::{all_empty, any_ready, first_nonempty, lemma_all_empty_same, lemma_first_nonempty, taken_at};
use crate::waiter::Waiter;
use vstd::prelude::*;

verus! {

/// An operation on a channel.
pub enum FanInOp<T> {
    /// Producer `.0` tries to send `.1`.
    Send(int, T),
    /// The consumer tries to take one item.
    Recv,
    /// The consumer takes everything.
    Drain,
    /// Producer `.0` leaves.
    Leave(int),
    Shutdown,
}

/// A channel together with the values that each of its producers has had
/// accepted and delivered so far.
pub struct FanIn<T> {
    pub queues: Seq<Seq<T>>,
    pub live: Set<int>,
    pub shutdown: bool,
    pub accepted: Seq<Seq<T>>,
    pub delivered: Seq<Seq<T>>,
}

/// A new channel with `m` producers.
pub open spec fn fresh_fan_in<T>(m: nat) -> FanIn<T> {
    FanIn {
        queues: Seq::new(m, |i: int| Seq::empty()),
        live: Set::new(|i: int| 0 <= i < m),
        shutdown: false,
        accepted: Seq::new(m, |i: int| Seq::empty()),
        delivered: Seq::new(m, |i: int| Seq::empty()),
    }
}

/// Nothing more will be sent.
pub open spec fn fan_in_closed<T>(h: FanIn<T>) -> bool {
    h.shutdown || h.live =~= Set::<int>::empty()
}

/// A producer is there to try and its value is accepted.
pub open spec fn accepts<T>(h: FanIn<T>, cap: int, i: int) -> bool {
    &&& 0 <= i < h.queues.len()
    &&& h.live.contains(i)
    &&& !h.shutdown
    &&& h.queues[i].len() < cap
}

/// The channel after one operation.
pub open spec fn apply_fan_in<T>(h: FanIn<T>, cap: int, op: FanInOp<T>) -> FanIn<T> {
    match op {
        FanInOp::Send(i, v) => if accepts(h, cap, i) {
            FanIn {
                queues: h.queues.update(i, h.queues[i].push(v)),
                accepted: h.accepted.update(i, h.accepted[i].push(v)),
                ..h
            }
        } else {
            h
        },
        FanInOp::Recv => {
            let at = first_nonempty(h.queues, 0);
            if at < h.queues.len() {
                FanIn {
                    queues: taken_at(h.queues, at),
                    delivered: h.delivered.update(at, h.delivered[at].push(h.queues[at][0])),
                    ..h
                }
            } else {
                h
            }
        },
        FanInOp::Drain => FanIn {
            queues: Seq::new(h.queues.len(), |i: int| Seq::empty()),
            delivered: Seq::new(h.queues.len(), |i: int| h.delivered[i] + h.queues[i]),
            ..h
        },
        FanInOp::Leave(i) => FanIn { live: h.live.remove(i), ..h },
        FanInOp::Shutdown => FanIn { shutdown: true, ..h },
    }
}

/// The channel `h` after all of `ops`, in order.
pub open spec fn fan_in_after<T>(h: FanIn<T>, cap: int, ops: Seq<FanInOp<T>>) -> FanIn<T>
    decreases ops.len(),
{
    if ops.len() == 0 {
        h
    } else {
        apply_fan_in(fan_in_after(h, cap, ops.drop_last()), cap, ops.last())
    }
}

/// A new channel after all of `ops`, in order.
pub open spec fn run_fan_in<T>(m: nat, cap: int, ops: Seq<FanInOp<T>>) -> FanIn<T> {
    fan_in_after(fresh_fan_in(m), cap, ops)
}

/// First in, first out by producer, exactly once: whatever the operations,
/// what was delivered of a producer followed by what is in flight is what was
/// accepted of that producer, in that order; and at most `cap` of its items
/// are in flight.
pub proof fn fan_in_keeps_each_producers_order<T>(m: nat, cap: int, ops: Seq<FanInOp<T>>, i: int)
    requires
        cap > 0,
        0 <= i < m,
    ensures
        run_fan_in(m, cap, ops).queues.len() == m,
        run_fan_in(m, cap, ops).accepted.len() == m,
        run_fan_in(m, cap, ops).delivered.len() == m,
        run_fan_in(m, cap, ops).accepted[i] == run_fan_in(m, cap, ops).delivered[i] + run_fan_in(
            m,
            cap,
            ops,
        ).queues[i],
        run_fan_in(m, cap, ops).queues[i].len() <= cap,
    decreases ops.len(),
{
    let h = run_fan_in(m, cap, ops);
    if ops.len() == 0 {
        assert(h.accepted[i] =~= h.delivered[i] + h.queues[i]);
    } else {
        fan_in_keeps_each_producers_order(m, cap, ops.drop_last(), i);
        let g = run_fan_in(m, cap, ops.drop_last());
        match ops.last() {
            FanInOp::Send(j, v) => {
                assert(h.accepted[i] =~= h.delivered[i] + h.queues[i]);
            },
            FanInOp::Recv => {
                lemma_first_nonempty(g.queues, 0);
                let at = first_nonempty(g.queues, 0);
                if at == i {
                    assert(g.queues[i] =~= seq![g.queues[i][0]] + g.queues[i].drop_first());
                }
                assert(h.accepted[i] =~= h.delivered[i] + h.queues[i]);
            },
            FanInOp::Drain => {
                assert(h.accepted[i] =~= h.delivered[i] + h.queues[i]);
            },
            FanInOp::Leave(j) => {},
            FanInOp::Shutdown => {},
        }
    }
}

/// The consumer is told that the channel has ended only when everything that
/// was accepted of every producer has been delivered.
pub proof fn end_comes_last<T>(m: nat, cap: int, ops: Seq<FanInOp<T>>, i: int)
    requires
        cap > 0,
        0 <= i < m,
        all_empty(run_fan_in(m, cap, ops).queues),
        fan_in_closed(run_fan_in(m, cap, ops)),
    ensures
        run_fan_in(m, cap, ops).delivered[i] == run_fan_in(m, cap, ops).accepted[i],
{
    fan_in_keeps_each_producers_order(m, cap, ops, i);
    let h = run_fan_in(m, cap, ops);
    assert(h.delivered[i] + h.queues[i] =~= h.delivered[i]);
}

/// Once the channel has ended it stays so, and nothing is accepted any more.
pub proof fn ended_for_good<T>(m: nat, cap: int, ops: Seq<FanInOp<T>>, n: int)
    requires
        0 <= n <= ops.len(),
        fan_in_closed(run_fan_in(m, cap, ops.take(n))),
    ensures
        fan_in_closed(run_fan_in(m, cap, ops)),
        run_fan_in(m, cap, ops).accepted == run_fan_in(m, cap, ops.take(n)).accepted,
    decreases ops.len() - n,
{
    if n < ops.len() {
        assert(ops.take(n + 1).drop_last() =~= ops.take(n));
        assert(ops.take(n + 1).last() == ops[n]);
        let g = run_fan_in(m, cap, ops.take(n));
        let h = run_fan_in(m, cap, ops.take(n + 1));
        assert(h == apply_fan_in(g, cap, ops[n]));
        if !g.shutdown {
            assert(g.live =~= Set::<int>::empty());
            assert(h.live =~= Set::<int>::empty());
        }
        ended_for_good(m, cap, ops, n + 1);
    } else {
        assert(ops.take(n) =~= ops);
    }
}

/// `h` tells of `ch`: what is in flight, who is there, and whether it was shut
/// down. An [`super::mpsc2::Mpsc2`] is told of by what it holds.
pub open spec fn tells_of<T, const CAP: usize, W: Waiter>(h: FanIn<T>, ch: Mpsc<T, CAP, W>) -> bool {
    &&& h.queues == ch@
    &&& h.live == ch.live@
    &&& h.shutdown == ch.shutdown
    &&& h.accepted.len() == ch@.len()
    &&& h.delivered.len() == ch@.len()
}

/// A channel as [`Mpsc::new`] builds it is a new one.
pub proof fn a_built_channel_is_new<T, const CAP: usize, W: Waiter>(ch: Mpsc<T, CAP, W>, m: nat)
    requires
        ch@.len() == m,
        all_empty(ch@),
        !ch.shutdown,
        forall|i: int| #[trigger] ch.live@.contains(i) <==> 0 <= i < m,
    ensures
        tells_of(fresh_fan_in(m), ch),
{
    lemma_all_empty_same(fresh_fan_in::<T>(m).queues, ch@);
    assert(fresh_fan_in::<T>(m).live =~= ch.live@);
}

/// Offering a value, with or without waiting, is one `Send`: the value counts
/// as accepted iff it was.
pub proof fn an_offer_is_a_send<T, const CAP: usize, W: Waiter>(
    h: FanIn<T>,
    ch: Mpsc<T, CAP, W>,
    producer: MpscProducer<T, CAP, W>,
    value: T,
    wake: bool,
    next: Mpsc<T, CAP, W>,
)
    requires
        tells_of(h, ch),
        producer.wf(ch),
        producer.offered(ch, value, wake, next),
    ensures
        tells_of(apply_fan_in(h, CAP as int, FanInOp::Send(producer.idx(), value)), next),
        accepts(h, CAP as int, producer.idx()) == producer.fits(ch),
{
    let i = producer.idx();
    let g = apply_fan_in(h, CAP as int, FanInOp::Send(i, value));
    if producer.fits(ch) {
        assert(ch@[i].push(value) =~= ch@[i] + seq![value]);
    } else {
        assert(ch@[i] + Seq::<T>::empty() =~= ch@[i]);
    }
    assert(g.queues =~= next@);
}

/// One `Send` per item, in order.
pub open spec fn sends<T>(i: int, items: Seq<T>) -> Seq<FanInOp<T>> {
    Seq::new(items.len(), |k: int| FanInOp::Send(i, items[k]))
}

/// A bulk send is one `Send` per item that it moves, the last item first.
pub proof fn a_bulk_send_is_sends<T, const CAP: usize, W: Waiter>(
    h: FanIn<T>,
    ch: Mpsc<T, CAP, W>,
    producer: MpscProducer<T, CAP, W>,
    items: Seq<T>,
    wake: bool,
    next: Mpsc<T, CAP, W>,
)
    requires
        tells_of(h, ch),
        producer.wf(ch),
        next.wf(),
        producer.put(ch, items, wake, next),
        ch.shutdown ==> items.len() == 0,
    ensures
        tells_of(fan_in_after(h, CAP as int, sends(producer.idx(), items)), next),
        fan_in_after(h, CAP as int, sends(producer.idx(), items)).accepted == h.accepted.update(
            producer.idx(),
            h.accepted[producer.idx()] + items,
        ),
{
    let i = producer.idx();
    assert(next@[i] == next.rings@[i]@);
    assert(next.rings@[i].wf());
    lemma_sends(h, CAP as int, i, items);
    assert(next@ =~= h.queues.update(i, h.queues[i] + items));
}

proof fn lemma_sends<T>(h: FanIn<T>, cap: int, i: int, items: Seq<T>)
    requires
        0 <= i < h.queues.len(),
        h.accepted.len() == h.queues.len(),
        h.live.contains(i),
        h.shutdown ==> items.len() == 0,
        h.queues[i].len() + items.len() <= cap,
    ensures
        fan_in_after(h, cap, sends(i, items)) == (FanIn {
            queues: h.queues.update(i, h.queues[i] + items),
            accepted: h.accepted.update(i, h.accepted[i] + items),
            ..h
        }),
    decreases items.len(),
{
    let ops = sends(i, items);
    if items.len() == 0 {
        assert(h.queues[i] + items =~= h.queues[i]);
        assert(h.accepted[i] + items =~= h.accepted[i]);
        assert(h.queues.update(i, h.queues[i] + items) =~= h.queues);
        assert(h.accepted.update(i, h.accepted[i] + items) =~= h.accepted);
    } else {
        let rest = items.drop_last();
        lemma_sends(h, cap, i, rest);
        assert(ops.drop_last() =~= sends(i, rest));
        assert((h.queues[i] + rest).push(items.last()) =~= h.queues[i] + items);
        assert((h.accepted[i] + rest).push(items.last()) =~= h.accepted[i] + items);
        let g = fan_in_after(h, cap, sends(i, rest));
        assert(g.queues.update(i, g.queues[i].push(items.last())) =~= h.queues.update(
            i,
            h.queues[i] + items,
        ));
        assert(g.accepted.update(i, g.accepted[i].push(items.last())) =~= h.accepted.update(
            i,
            h.accepted[i] + items,
        ));
    }
}

/// Taking one item, with or without waiting, is one `Recv`, and what is handed
/// out is what counts as delivered.
pub proof fn taking_an_item_is_a_receive<T, const CAP: usize, W: Waiter>(
    h: FanIn<T>,
    ch: Mpsc<T, CAP, W>,
    next: Mpsc<T, CAP, W>,
    r: Option<T>,
)
    requires
        tells_of(h, ch),
        MpscConsumer::took(ch, next, r),
    ensures
        tells_of(apply_fan_in(h, CAP as int, FanInOp::Recv), next),
        r matches Some(v) ==> {
            let at = first_nonempty(ch@, 0);
            &&& 0 <= at < ch@.len()
            &&& apply_fan_in(h, CAP as int, FanInOp::Recv).delivered == h.delivered.update(
                at,
                h.delivered[at].push(v),
            )
        },
        r is None ==> apply_fan_in(h, CAP as int, FanInOp::Recv) == h,
{
    lemma_first_nonempty(ch@, 0);
}

/// Taking everything, with or without waiting, is one `Drain`.
pub proof fn taking_everything_is_a_drain<T, const CAP: usize, W: Waiter>(
    h: FanIn<T>,
    ch: Mpsc<T, CAP, W>,
    next: Mpsc<T, CAP, W>,
)
    requires
        tells_of(h, ch),
        next@ == Seq::new(ch@.len(), |i: int| Seq::<T>::empty()),
        next.live == ch.live,
        next.shutdown == ch.shutdown,
    ensures
        tells_of(apply_fan_in(h, CAP as int, FanInOp::Drain), next),
        forall|i: int|
            0 <= i < ch@.len() ==> (#[trigger] apply_fan_in(
                h,
                CAP as int,
                FanInOp::Drain,
            ).delivered[i]) == h.delivered[i] + ch@[i],
{
    assert(apply_fan_in(h, CAP as int, FanInOp::Drain).queues =~= next@);
}

/// Closing a producer is one `Leave`.
pub proof fn closing_a_producer_is_a_leave<T, const CAP: usize, W: Waiter>(
    h: FanIn<T>,
    ch: Mpsc<T, CAP, W>,
    producer: MpscProducer<T, CAP, W>,
    next: Mpsc<T, CAP, W>,
)
    requires
        tells_of(h, ch),
        producer.left(ch, next),
    ensures
        tells_of(apply_fan_in(h, CAP as int, FanInOp::Leave(producer.idx())), next),
{
}

/// One `Leave` per producer of the first `n` slots of a pool.
pub open spec fn leaves<T, const CAP: usize, W: Waiter>(
    pool: MpscProducerPool<T, CAP, W>,
    n: nat,
) -> Seq<FanInOp<T>> {
    Seq::new(n, |k: int| FanInOp::Leave(pool.producer(k).idx()))
}

/// Closing a pool is one `Leave` per producer.
pub proof fn closing_a_pool_is_leaves<T, const CAP: usize, W: Waiter>(
    h: FanIn<T>,
    ch: Mpsc<T, CAP, W>,
    pool: MpscProducerPool<T, CAP, W>,
    next: Mpsc<T, CAP, W>,
)
    requires
        tells_of(h, ch),
        0 <= pool.m(),
        next@ == ch@,
        next.shutdown == ch.shutdown,
        forall|k: int| #[trigger]
            next.live@.contains(k) <==> ch.live@.contains(k) && !pool.owns(pool.m(), k),
    ensures
        tells_of(fan_in_after(h, CAP as int, leaves(pool, pool.m() as nat)), next),
{
    lemma_leaves(h, CAP as int, pool, pool.m() as nat);
    assert(fan_in_after(h, CAP as int, leaves(pool, pool.m() as nat)).live =~= next.live@);
}

proof fn lemma_leaves<T, const CAP: usize, W: Waiter>(
    h: FanIn<T>,
    cap: int,
    pool: MpscProducerPool<T, CAP, W>,
    n: nat,
)
    ensures
        ({
            let g = fan_in_after(h, cap, leaves(pool, n));
            &&& g == (FanIn { live: g.live, ..h })
            &&& forall|k: int| #[trigger]
                g.live.contains(k) <==> h.live.contains(k) && !pool.owns(n as int, k)
        }),
    decreases n,
{
    if n > 0 {
        let f = (n - 1) as nat;
        lemma_leaves(h, cap, pool, f);
        assert(leaves(pool, n).drop_last() =~= leaves(pool, f));
        assert forall|k: int| #[trigger] pool.owns(n as int, k) == (pool.owns(f as int, k)
            || pool.producer(f as int).idx() == k) by {
            if pool.owns(f as int, k) {
                let j = choose|j: int| 0 <= j < f && (#[trigger] pool.producer(j)).idx() == k;
                assert(0 <= j < n && pool.producer(j).idx() == k);
            }
            if pool.producer(f as int).idx() == k {
                assert(0 <= f < n);
            }
        }
    }
}

/// A shutdown is one `Shutdown`.
pub proof fn a_signal_is_a_shutdown<T, const CAP: usize, W: Waiter>(
    h: FanIn<T>,
    ch: Mpsc<T, CAP, W>,
    next: Mpsc<T, CAP, W>,
)
    requires
        tells_of(h, ch),
        next.shutdown,
        next.rings == ch.rings,
        next.live == ch.live,
    ensures
        tells_of(apply_fan_in(h, CAP as int, FanInOp::Shutdown), next),
{
    assert(next@ =~= ch@);
}

/// Registering a party, and closing the consumer, are no operations at all.
pub proof fn the_rest_is_no_operation<T, const CAP: usize, W: Waiter>(
    h: FanIn<T>,
    ch: Mpsc<T, CAP, W>,
    next: Mpsc<T, CAP, W>,
)
    requires
        tells_of(h, ch),
        next.rings == ch.rings || MpscConsumer::left(ch, next),
        next.live == ch.live,
        next.shutdown == ch.shutdown,
    ensures
        tells_of(h, next),
{
    assert(next@ =~= ch@);
}

/// The consumer is told of the end exactly where the channel is closed and
/// nothing is in flight.
pub proof fn the_end_is_told_at_the_end<T, const CAP: usize, W: Waiter>(
    h: FanIn<T>,
    ch: Mpsc<T, CAP, W>,
)
    requires
        tells_of(h, ch),
        ch.wf(),
    ensures
        ch.closed() == fan_in_closed(h),
        ch.finished() == (fan_in_closed(h) && all_empty(h.queues)),
{
    if ch.live_producers == 0 {
        assert(ch.live@ =~= Set::<int>::empty());
    }
}

/// There is an item to take iff not all queues are empty: a blocked consumer
/// that has something to do either finds an item or the end of the channel.
pub proof fn a_ready_consumer_gets_on<T, const CAP: usize, W: Waiter>(ch: Mpsc<T, CAP, W>)
    requires
        ch.recv_ready(),
    ensures
        any_ready(ch@) != all_empty(ch@),
        any_ready(ch@) ==> 0 <= first_nonempty(ch@, 0) < ch@.len(),
        !any_ready(ch@) ==> ch.closed(),
{
    lemma_first_nonempty(ch@, 0);
}

/// What one producer does leaves the other handles valid.
pub proof fn a_producer_disturbs_no_other_handle<T, const CAP: usize, W: Waiter>(
    before: Mpsc<T, CAP, W>,
    after: Mpsc<T, CAP, W>,
    at: int,
    other: MpscProducer<T, CAP, W>,
    consumer: MpscConsumer<T, CAP, W>,
)
    requires
        after.wf(),
        after.written_at(before, at),
        after.live == before.live,
    ensures
        other.wf(before) && other.idx() != at ==> other.wf(after),
        consumer.wf(before) ==> consumer.wf(after),
{
    if consumer.wf(before) {
        assert forall|i: int| 0 <= i < after.rings@.len() implies (
        #[trigger] consumer.rings()[i]).wf(after.rings@[i]) by {
            assert(consumer.rings()[i].wf(before.rings@[i]));
        }
    }
}

/// What the consumer does leaves every producer valid, and takes no room from
/// it.
pub proof fn the_consumer_disturbs_no_producer<T, const CAP: usize, W: Waiter>(
    before: Mpsc<T, CAP, W>,
    after: Mpsc<T, CAP, W>,
    producer: MpscProducer<T, CAP, W>,
)
    requires
        after.wf(),
        after.writers_kept(before),
        after.live == before.live,
        producer.wf(before),
    ensures
        producer.wf(after),
        after@[producer.idx()].len() <= before@[producer.idx()].len(),
        after.shutdown == before.shutdown && producer.send_ready(before) ==> producer.send_ready(
            after,
        ),
{
    let i = producer.idx();
    assert(after.rings@[i].buf.head() == before.rings@[i].buf.head());
}

} // verus!
