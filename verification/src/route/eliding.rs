//! Why a channel whose producers wake its consumer only when they found their
//! ring empty strands no item.
//!
//! The first part is about one ring, its producer and the consumer, however
//! they interleave: every step is one operation of one of them. The second part
//! shows the operations of an [`Mpsc2`] to be runs of such steps, on every one
//! of its rings.
use super::hub::Shutdown;
use super::mpsc::MpscConsumer;
use super::mpsc2::{Mpsc2, Mpsc2Producer};
use super::queues::{all_empty, any_ready, first_nonempty, lemma_first_nonempty};
use crate::waiter::{Step, Waiter};
use vstd::prelude::*;

verus! {

/// Where the producer of one ring stands that wakes only when it found its
/// ring empty.
pub enum ElidingAt {
    Idle,
    /// It has published this many items and not looked at the ring yet.
    Published(int),
    /// It found only its own items in the ring and is about to wake.
    Waking,
}

/// One ring whose producer elides wakes.
#[verifier::ext_equal]
pub struct ElidingWorld {
    /// Items in the ring.
    pub items: int,
    pub producer: ElidingAt,
    /// The consumer has announced its sleep and then found this ring empty.
    pub committed: bool,
    /// A wake has reached the consumer since it committed to sleep.
    pub called: bool,
}

/// One operation of the producer, which publishes `n` items if it is idle.
pub open spec fn eliding_producer_steps(s: ElidingWorld, t: ElidingWorld, n: int) -> bool {
    match s.producer {
        ElidingAt::Idle => n > 0 && t == (ElidingWorld {
            items: s.items + n,
            producer: ElidingAt::Published(n),
            ..s
        }),
        ElidingAt::Published(m) => t == (ElidingWorld {
            producer: if s.items == m {
                ElidingAt::Waking
            } else {
                ElidingAt::Idle
            },
            ..s
        }),
        ElidingAt::Waking => t == (ElidingWorld {
            called: s.called || s.committed,
            producer: ElidingAt::Idle,
            ..s
        }),
    }
}

/// One operation of the consumer: it takes `n` items, commits to sleep after
/// it found the ring empty, or gets up, called or for another reason.
pub open spec fn eliding_consumer_steps(s: ElidingWorld, t: ElidingWorld, n: int) -> bool {
    ||| !s.committed && 0 < n <= s.items && t == (ElidingWorld { items: s.items - n, ..s })
    ||| !s.committed && s.items == 0 && t == (ElidingWorld { committed: true, ..s })
    ||| s.committed && t == (ElidingWorld { committed: false, called: false, ..s })
}

/// Somebody else wakes the consumer: the producer of another ring, or whoever
/// ends the channel.
pub open spec fn other_wakes(s: ElidingWorld, t: ElidingWorld) -> bool {
    t == (ElidingWorld { called: s.called || s.committed, ..s })
}

/// One step of any of the parties.
pub open spec fn eliding_step(s: ElidingWorld, t: ElidingWorld) -> bool {
    ||| exists|n: int| #[trigger] eliding_producer_steps(s, t, n)
    ||| exists|n: int| #[trigger] eliding_consumer_steps(s, t, n)
    ||| other_wakes(s, t)
}

/// Step `k` of an execution.
pub open spec fn eliding_step_at(trace: Seq<ElidingWorld>, k: int) -> bool {
    eliding_step(trace[k], trace[k + 1])
}

/// An execution from an empty ring.
pub open spec fn eliding_execution(trace: Seq<ElidingWorld>) -> bool {
    &&& trace.len() > 0
    &&& trace[0].items == 0
    &&& trace[0].producer is Idle
    &&& !trace[0].committed
    &&& !trace[0].called
    &&& forall|k: int| 0 <= k < trace.len() - 1 ==> #[trigger] eliding_step_at(trace, k)
}

/// A wake that is elided is not missed: in no state of any execution does the
/// consumer sleep uncalled on a ring with items, unless the producer is about
/// to find nothing but its own items there, or about to wake.
pub proof fn elided_wakes_are_not_missed(trace: Seq<ElidingWorld>, k: int)
    requires
        eliding_execution(trace),
        0 <= k < trace.len(),
    ensures
        trace[k].items >= 0,
        trace[k].committed && trace[k].items > 0 && !trace[k].called ==> trace[k].producer is Waking
            || trace[k].producer == ElidingAt::Published(trace[k].items),
    decreases k,
{
    if k > 0 {
        elided_wakes_are_not_missed(trace, k - 1);
        assert(eliding_step_at(trace, k - 1));
    }
}

/// The execution `e` has led to this state of ring `i` of the channel. The
/// consumer waits iff `waiting`, and somebody has woken it since it began to
/// iff `called`.
pub open spec fn tells_of<T, const CAP: usize, W: Waiter>(
    e: Seq<ElidingWorld>,
    ch: Mpsc2<T, CAP, W>,
    i: int,
    waiting: bool,
    called: bool,
) -> bool {
    &&& 0 <= i < ch@.len()
    &&& eliding_execution(e)
    &&& e.last() == (ElidingWorld {
        items: ch@[i].len() as int,
        producer: ElidingAt::Idle,
        committed: waiting,
        called,
    })
}

/// An execution goes on with one more step.
proof fn lemma_goes_on(e: Seq<ElidingWorld>, t: ElidingWorld) -> (f: Seq<ElidingWorld>)
    requires
        eliding_execution(e),
        eliding_step(e.last(), t),
    ensures
        eliding_execution(f),
        e.is_prefix_of(f),
        f.last() == t,
{
    let f = e.push(t);
    assert forall|k: int| 0 <= k < f.len() - 1 implies #[trigger] eliding_step_at(f, k) by {
        if k < e.len() - 1 {
            assert(eliding_step_at(e, k));
        }
    }
    f
}

/// Every ring of a new channel shows an initial state.
pub proof fn a_new_channel_starts<T, const CAP: usize, W: Waiter>(
    ch: Mpsc2<T, CAP, W>,
    i: int,
) -> (e: Seq<ElidingWorld>)
    requires
        0 <= i < ch@.len(),
        all_empty(ch@),
    ensures
        tells_of(e, ch, i, false, false),
{
    assert(ch@[i].len() == 0);
    seq![ElidingWorld { items: 0, producer: ElidingAt::Idle, committed: false, called: false }]
}

/// Putting items into a ring is a run of its producer: it publishes them, looks
/// whether there is anything but them in the ring, and wakes the consumer if
/// not. To every other ring it is a wake from elsewhere, or no step at all.
pub proof fn a_put_is_a_run<T, const CAP: usize, W: Waiter>(
    e: Seq<ElidingWorld>,
    producer: Mpsc2Producer<T, CAP, W>,
    ch: Mpsc2<T, CAP, W>,
    items: Seq<T>,
    wake: bool,
    next: Mpsc2<T, CAP, W>,
    i: int,
    waiting: bool,
    called: bool,
) -> (f: Seq<ElidingWorld>)
    requires
        tells_of(e, ch, i, waiting, called),
        producer.wf(ch),
        wake == (items.len() > 0 && producer.finds_empty(ch)),
        producer.base().put(ch.inner, items, wake, next.inner),
    ensures
        e.is_prefix_of(f),
        tells_of(f, next, i, waiting, called || (waiting && wake)),
{
    let w = e.last();
    let n = items.len() as int;
    let t = ElidingWorld {
        items: next@[i].len() as int,
        called: called || (waiting && wake),
        ..w
    };
    if producer.idx() != i {
        assert(next@[i] == ch@[i]);
        if wake {
            assert(other_wakes(w, t));
            lemma_goes_on(e, t)
        } else {
            e
        }
    } else if n == 0 {
        assert(next@[i] =~= ch@[i]);
        e
    } else {
        let published = ElidingWorld {
            items: w.items + n,
            producer: ElidingAt::Published(n),
            ..w
        };
        assert(eliding_producer_steps(w, published, n));
        let g = lemma_goes_on(e, published);
        if wake {
            let waking = ElidingWorld { producer: ElidingAt::Waking, ..published };
            assert(eliding_producer_steps(published, waking, n));
            let g = lemma_goes_on(g, waking);
            assert(eliding_producer_steps(waking, t, n));
            lemma_goes_on(g, t)
        } else {
            assert(eliding_producer_steps(published, t, n));
            lemma_goes_on(g, t)
        }
    }
}

/// Offering a value is a run of its producer: an accepted value is published,
/// and the consumer is woken iff the producer then finds only that value in its
/// ring. A value that is not accepted is no step.
pub proof fn an_offer_is_a_run<T, const CAP: usize, W: Waiter>(
    e: Seq<ElidingWorld>,
    producer: Mpsc2Producer<T, CAP, W>,
    ch: Mpsc2<T, CAP, W>,
    value: T,
    next: Mpsc2<T, CAP, W>,
    i: int,
    waiting: bool,
    called: bool,
) -> (f: Seq<ElidingWorld>)
    requires
        tells_of(e, ch, i, waiting, called),
        producer.wf(ch),
        producer.offered(ch, value, next),
    ensures
        e.is_prefix_of(f),
        tells_of(
            f,
            next,
            i,
            waiting,
            called || (waiting && producer.fits(ch) && producer.finds_empty(ch)),
        ),
{
    let items = if producer.fits(ch) {
        seq![value]
    } else {
        Seq::empty()
    };
    let wake = producer.fits(ch) && producer.finds_empty(ch);
    a_put_is_a_run(e, producer, ch, items, wake, next, i, waiting, called)
}

/// Taking an item without waiting is a step of the consumer on the ring that
/// the item comes from, and no step on any other.
pub proof fn a_take_is_a_run<T, const CAP: usize, W: Waiter>(
    e: Seq<ElidingWorld>,
    ch: Mpsc2<T, CAP, W>,
    next: Mpsc2<T, CAP, W>,
    r: Option<T>,
    i: int,
    called: bool,
) -> (f: Seq<ElidingWorld>)
    requires
        tells_of(e, ch, i, false, called),
        MpscConsumer::took(ch.inner, next.inner, r),
    ensures
        e.is_prefix_of(f),
        tells_of(f, next, i, false, called),
{
    lemma_first_nonempty(ch@, 0);
    let t = ElidingWorld { items: next@[i].len() as int, ..e.last() };
    if first_nonempty(ch@, 0) == i {
        assert(eliding_consumer_steps(e.last(), t, 1));
        lemma_goes_on(e, t)
    } else {
        assert(next@[i] == ch@[i]);
        e
    }
}

/// Taking everything is a step of the consumer on every ring with items.
pub proof fn a_drain_is_a_run<T, const CAP: usize, W: Waiter>(
    e: Seq<ElidingWorld>,
    ch: Mpsc2<T, CAP, W>,
    next: Mpsc2<T, CAP, W>,
    i: int,
    called: bool,
) -> (f: Seq<ElidingWorld>)
    requires
        tells_of(e, ch, i, false, called),
        MpscConsumer::drained(ch.inner, next.inner),
    ensures
        e.is_prefix_of(f),
        tells_of(f, next, i, false, called),
{
    let t = ElidingWorld { items: 0, ..e.last() };
    assert(next@[i].len() == 0);
    if ch@[i].len() > 0 {
        assert(eliding_consumer_steps(e.last(), t, ch@[i].len() as int));
        lemma_goes_on(e, t)
    } else {
        e
    }
}

/// A consumer that waits gets up.
proof fn lemma_gets_up<T, const CAP: usize, W: Waiter>(
    e: Seq<ElidingWorld>,
    ch: Mpsc2<T, CAP, W>,
    i: int,
    waiting: bool,
    called: bool,
) -> (f: Seq<ElidingWorld>)
    requires
        tells_of(e, ch, i, waiting, called),
    ensures
        e.is_prefix_of(f),
        tells_of(f, ch, i, false, !waiting && called),
{
    if waiting {
        let t = ElidingWorld { committed: false, called: false, ..e.last() };
        assert(eliding_consumer_steps(e.last(), t, 0));
        lemma_goes_on(e, t)
    } else {
        e
    }
}

/// A consumer that has found every ring empty commits to sleep.
proof fn lemma_commits<T, const CAP: usize, W: Waiter>(
    e: Seq<ElidingWorld>,
    ch: Mpsc2<T, CAP, W>,
    i: int,
    called: bool,
) -> (f: Seq<ElidingWorld>)
    requires
        tells_of(e, ch, i, false, called),
        ch@[i].len() == 0,
    ensures
        e.is_prefix_of(f),
        tells_of(f, ch, i, true, called),
{
    let t = ElidingWorld { committed: true, ..e.last() };
    assert(eliding_consumer_steps(e.last(), t, 0));
    lemma_goes_on(e, t)
}

/// One pass of a blocking receive is a run of the consumer on every ring: it
/// gets up if it was waiting, and then takes an item, sees the end of the
/// channel, or commits to sleep.
pub proof fn a_receive_is_a_run<T, const CAP: usize, W: Waiter>(
    e: Seq<ElidingWorld>,
    ch: Mpsc2<T, CAP, W>,
    next: Mpsc2<T, CAP, W>,
    r: Step<Result<T, Shutdown>, ()>,
    i: int,
    waiting: bool,
    called: bool,
) -> (f: Seq<ElidingWorld>)
    requires
        tells_of(e, ch, i, waiting, called),
        MpscConsumer::received(ch.inner, next.inner, r),
    ensures
        e.is_prefix_of(f),
        tells_of(f, next, i, r is Wait, !waiting && called),
{
    let now = !waiting && called;
    let g = lemma_gets_up(e, ch, i, waiting, called);
    let item = if any_ready(ch@) {
        Some(r->Done_0->Ok_0)
    } else {
        None
    };
    let g = a_take_is_a_run(g, ch, next, item, i, now);
    if r is Wait {
        lemma_first_nonempty(ch@, 0);
        assert(ch@[i].len() == 0);
        lemma_commits(g, next, i, now)
    } else {
        g
    }
}

/// One pass of a blocking batch receive is a run of the consumer on every
/// ring.
pub proof fn a_batch_receive_is_a_run<T, const CAP: usize, W: Waiter>(
    e: Seq<ElidingWorld>,
    ch: Mpsc2<T, CAP, W>,
    next: Mpsc2<T, CAP, W>,
    appended: Seq<T>,
    r: Step<Result<usize, Shutdown>, ()>,
    i: int,
    waiting: bool,
    called: bool,
) -> (f: Seq<ElidingWorld>)
    requires
        tells_of(e, ch, i, waiting, called),
        MpscConsumer::received_batch(ch.inner, next.inner, appended, r),
    ensures
        e.is_prefix_of(f),
        tells_of(f, next, i, r is Wait, !waiting && called),
{
    let now = !waiting && called;
    let g = lemma_gets_up(e, ch, i, waiting, called);
    let g = a_drain_is_a_run(g, ch, next, i, now);
    if r is Wait {
        lemma_commits(g, next, i, now)
    } else {
        g
    }
}

/// A wake for another reason, such as a shutdown or the last producer leaving,
/// is a step on every ring.
pub proof fn a_wake_is_a_step<T, const CAP: usize, W: Waiter>(
    e: Seq<ElidingWorld>,
    ch: Mpsc2<T, CAP, W>,
    next: Mpsc2<T, CAP, W>,
    i: int,
    waiting: bool,
    called: bool,
) -> (f: Seq<ElidingWorld>)
    requires
        tells_of(e, ch, i, waiting, called),
        next@ == ch@,
        next.inner.fanin_waiter == ch.inner.fanin_waiter.woken(),
    ensures
        e.is_prefix_of(f),
        tells_of(f, next, i, waiting, called || waiting),
{
    let t = ElidingWorld { called: called || waiting, ..e.last() };
    assert(other_wakes(e.last(), t));
    lemma_goes_on(e, t)
}

/// No consumer of a channel ever sleeps uncalled while there is an item in any
/// ring, although most sends wake nobody.
pub proof fn no_consumer_sleeps_on_items<T, const CAP: usize, W: Waiter>(
    e: Seq<ElidingWorld>,
    ch: Mpsc2<T, CAP, W>,
    i: int,
    waiting: bool,
    called: bool,
)
    requires
        tells_of(e, ch, i, waiting, called),
        waiting,
        ch@[i].len() > 0,
    ensures
        called,
{
    elided_wakes_are_not_missed(e, e.len() - 1);
}

} // verus!
