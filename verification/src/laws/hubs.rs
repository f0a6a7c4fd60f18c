//! What the calls of a hub and of a pool of producers come to: every message is taken
//! once, every reply goes back to the port that asked, and a producer is out with one
//! holder at a time.
use crate::route::hub::{a_batch_holds_pending_messages, batch, batch_from, each_message_is_taken_once, Hub, HubDrain, HubMessage, HubPort, HubReply, HubShutdown, Shutdown};
use crate::route::mpsc::{Mpsc, MpscConsumer, MpscProducer, MpscShutdown};
use crate::route::pool::{free_below, MpscProducerLease, MpscProducerPool};
use crate::waiter::{BlockingWaiter, Step, Waiter};
use vstd::prelude::*;

verus! {

/// A port takes a message iff it is idle; the message is then pending at that port and
/// no other, and the drain is woken and told to go on. Otherwise the message comes
/// back and nothing changes.
pub proof fn hub_try_send_posts_or_gives_back<In, Out, W: Waiter>(
    port: &HubPort<In, Out, W>,
    hub: &mut Hub<In, Out, W>,
    v: In,
    r: Result<(), In>,
    was: bool,
    now: bool,
    called: bool,
)
    requires
        port.wf(*old(hub)),
        call_ensures(HubPort::<In, Out, W>::is_idle, (port, &*old(hub)), was),
        call_ensures(HubPort::<In, Out, W>::try_send, (port, hub, v), r),
        call_ensures(HubPort::<In, Out, W>::is_idle, (port, &*final(hub)), now),
        call_ensures(Hub::<In, Out, W>::can_recv, (&*final(hub),), called),
    ensures
        was <==> old(hub).inbound@[port.idx()] is None,
        r is Ok <==> was,
        r is Ok ==> {
            &&& final(hub).inbound@[port.idx()] == Some(v)
            &&& forall|i: int|
                0 <= i < old(hub).n() && i != port.idx() ==> #[trigger] final(hub).inbound@[i]
                    == old(hub).inbound@[i]
            &&& final(hub).coordinator.waiter == old(hub).coordinator.waiter.woken()
            &&& final(hub).outbound == old(hub).outbound
            &&& called
        },
        r matches Err(w) ==> w == v && *final(hub) == *old(hub),
        !now,
        final(hub).n() == old(hub).n(),
{
    if r is Ok {
        assert(final(hub).inbound@[port.idx()] is Some);
    }
}

/// A send through an idle port leaves the message pending at that port and no other, and
/// wakes the drain.
pub proof fn hub_send_posts<In, Out, W: Waiter>(
    port: &HubPort<In, Out, W>,
    hub: &mut Hub<In, Out, W>,
    v: In,
)
    requires
        port.wf(*old(hub)),
        call_ensures(HubPort::<In, Out, W>::send, (port, hub, v), ()),
    ensures
        final(hub).inbound@[port.idx()] == Some(v),
        forall|i: int|
                0 <= i < old(hub).n() && i != port.idx() ==> #[trigger] final(hub).inbound@[i]
                    == old(hub).inbound@[i],
        final(hub).coordinator.waiter == old(hub).coordinator.waiter.woken(),
        final(hub).outbound == old(hub).outbound,
        final(hub).n() == old(hub).n(),
{
}

/// How long after `start` the turn of port `i` comes, of `n` ports.
pub open spec fn turns_until(start: int, i: int, n: int) -> int {
    if i >= start {
        i - start
    } else {
        i - start + n
    }
}

/// What a batch of a hub holds: pending messages, each with its own port and
/// reply, each once, and none is missed.
proof fn lemma_batch_from<In>(inbound: Seq<Option<In>>, start: int)
    requires
        0 <= start <= inbound.len() <= crate::route::hub::MAX_HUB_PORTS,
    ensures
        forall|k: int|
            0 <= k < batch_from(inbound, start).len() ==> {
                let (i, v, reply) = #[trigger] batch_from(inbound, start)[k];
                0 <= i < inbound.len() && inbound[i as int] == Some(v) && reply.idx == i
            },
        forall|j: int, k: int|
            0 <= j < k < batch_from(inbound, start).len() ==> (#[trigger] batch_from(
                inbound,
                start,
            )[j]).0 != (#[trigger] batch_from(inbound, start)[k]).0,
        forall|j: int, k: int|
            0 <= j < k < batch_from(inbound, start).len() ==> turns_until(
                start,
                (#[trigger] batch_from(inbound, start)[j]).0 as int,
                inbound.len() as int,
            ) < turns_until(
                start,
                (#[trigger] batch_from(inbound, start)[k]).0 as int,
                inbound.len() as int,
            ),
        forall|i: int|
            0 <= i < inbound.len() && (#[trigger] inbound[i]) is Some ==> exists|k: int|
                0 <= k < batch_from(inbound, start).len() && (#[trigger] batch_from(
                    inbound,
                    start,
                )[k]).0 == i,
{
    let n = inbound.len() as int;
    let high = batch(inbound, start, n);
    let all = batch_from(inbound, start);
    each_message_is_taken_once(inbound, start);
    assert forall|k: int| 0 <= k < all.len() implies {
        let (i, v, reply) = #[trigger] all[k];
        0 <= i < inbound.len() && inbound[i as int] == Some(v) && reply.idx == i
    } by {
        if k < high.len() {
            a_batch_holds_pending_messages(inbound, start, n, k);
        } else {
            a_batch_holds_pending_messages(inbound, 0, start, k - high.len());
        }
    }
    assert forall|j: int, k: int| 0 <= j < k < all.len() implies turns_until(
        start,
        (#[trigger] all[j]).0 as int,
        n,
    ) < turns_until(start, (#[trigger] all[k]).0 as int, n) by {
        if k < high.len() {
            a_batch_holds_pending_messages(inbound, start, n, k);
            a_batch_holds_pending_messages(inbound, start, n, j);
        } else {
            a_batch_holds_pending_messages(inbound, 0, start, k - high.len());
            if j < high.len() {
                a_batch_holds_pending_messages(inbound, start, n, j);
            } else {
                a_batch_holds_pending_messages(inbound, 0, start, j - high.len());
                assert(batch(inbound, 0, start)[j - high.len()].0 < batch(inbound, 0, start)[k
                    - high.len()].0);
            }
        }
    }
    assert forall|i: int| 0 <= i < inbound.len() && (#[trigger] inbound[i]) is Some implies exists|
        k: int,
    |
        0 <= k < all.len() && (#[trigger] all[k]).0 == i by {
        let m = crate::route::hub::message(i, inbound[i]->Some_0);
        assert(all.contains(m));
        let k = choose|k: int| 0 <= k < all.len() && all[k] == m;
        assert(all[k].0 == i);
    }
}

/// What was taken from a hub, put behind what was there before.
proof fn lemma_appended<In>(
    inbound: Seq<Option<In>>,
    start: int,
    before: Seq<HubMessage<In>>,
    after: Seq<HubMessage<In>>,
)
    requires
        0 <= start <= inbound.len() <= crate::route::hub::MAX_HUB_PORTS,
        after == before + batch_from(inbound, start),
    ensures
        forall|k: int|
            before.len() <= k < after.len() ==> {
                let (i, v, reply) = #[trigger] after[k];
                0 <= i < inbound.len() && inbound[i as int] == Some(v) && reply.idx == i
            },
        forall|j: int, k: int|
            before.len() <= j < k < after.len() ==> (#[trigger] after[j]).0 != (
            #[trigger] after[k]).0,
        forall|j: int, k: int|
            before.len() <= j < k < after.len() ==> turns_until(
                start,
                (#[trigger] after[j]).0 as int,
                inbound.len() as int,
            ) < turns_until(start, (#[trigger] after[k]).0 as int, inbound.len() as int),
        forall|i: int|
            0 <= i < inbound.len() && (#[trigger] inbound[i]) is Some ==> exists|k: int|
                before.len() <= k < after.len() && (#[trigger] after[k]).0 == i,
{
    lemma_batch_from(inbound, start);
    let all = batch_from(inbound, start);
    assert forall|k: int| before.len() <= k < after.len() implies {
        let (i, v, reply) = #[trigger] after[k];
        0 <= i < inbound.len() && inbound[i as int] == Some(v) && reply.idx == i
    } by {
        assert(after[k] == all[k - before.len()]);
    }
    assert forall|j: int, k: int| before.len() <= j < k < after.len() implies (
    #[trigger] after[j]).0 != (#[trigger] after[k]).0 by {
        assert(after[j] == all[j - before.len()]);
        assert(after[k] == all[k - before.len()]);
    }
    assert forall|j: int, k: int| before.len() <= j < k < after.len() implies turns_until(
        start,
        (#[trigger] after[j]).0 as int,
        inbound.len() as int,
    ) < turns_until(start, (#[trigger] after[k]).0 as int, inbound.len() as int) by {
        assert(after[j] == all[j - before.len()]);
        assert(after[k] == all[k - before.len()]);
    }
    assert forall|i: int| 0 <= i < inbound.len() && (#[trigger] inbound[i]) is Some implies exists|
        k: int,
    |
        before.len() <= k < after.len() && (#[trigger] after[k]).0 == i by {
        let k = choose|k: int| 0 <= k < all.len() && (#[trigger] all[k]).0 == i;
        assert(after[before.len() + k] == all[k]);
    }
}

/// Taking a batch from a hub takes every pending message, each once, with its port and
/// the means to reply to that port; false iff there was none. The turn to come first
/// passes on by one.
pub proof fn hub_batch_takes_every_message_once<In, Out, W: Waiter>(
    drain: &mut HubDrain<In, Out, W>,
    hub: &mut Hub<In, Out, W>,
    out: &mut Vec<HubMessage<In>>,
    b: bool,
)
    requires
        old(hub).wf(),
        call_ensures(HubDrain::<In, Out, W>::try_recv_batch, (drain, hub, out), b),
    ensures
        b <==> exists|i: int| 0 <= i < old(hub).n() && (#[trigger] old(hub).inbound@[i]) is Some,
        b <==> final(out)@.len() > old(out)@.len(),
        b ==> final(drain).start(old(hub).n()) == (old(drain).start(old(hub).n()) + 1) % old(hub).n(),
        !b ==> *final(drain) == *old(drain),
        final(hub).n() == old(hub).n(),
        forall|i: int| 0 <= i < old(hub).n() ==> (#[trigger] final(hub).inbound@[i]) is None,
        final(hub).outbound == old(hub).outbound,
        forall|k: int| 0 <= k < old(out)@.len() ==> #[trigger] final(out)@[k] == old(out)@[k],
        forall|k: int|
            old(out)@.len() <= k < final(out)@.len() ==> {
                let (i, v, reply) = #[trigger] final(out)@[k];
                0 <= i < old(hub).n() && old(hub).inbound@[i as int] == Some(v) && reply.idx == i
            },
        forall|j: int, k: int|
            old(out)@.len() <= j < k < final(out)@.len() ==> (#[trigger] final(out)@[j]).0 != (
            #[trigger] final(out)@[k]).0,
        forall|i: int|
            0 <= i < old(hub).n() && (#[trigger] old(hub).inbound@[i]) is Some ==> exists|k: int|
                old(out)@.len() <= k < final(out)@.len() && (#[trigger] final(out)@[k]).0 == i,
        final(out)@.len() >= old(out)@.len(),
        forall|j: int, k: int|
            old(out)@.len() <= j < k < final(out)@.len() ==> turns_until(
                old(drain).start(old(hub).n()),
                (#[trigger] final(out)@[j]).0 as int,
                old(hub).n(),
            ) < turns_until(
                old(drain).start(old(hub).n()),
                (#[trigger] final(out)@[k]).0 as int,
                old(hub).n(),
            ),
{
    let n = old(hub).n();
    old(drain).lemma_start_in_range(n);
    let start = old(drain).start(n);
    if b {
        lemma_appended(old(hub).inbound@, start, old(out)@, final(out)@);
        let i = choose|i: int| 0 <= i < n && (#[trigger] old(hub).inbound@[i]) is Some;
        assert(exists|k: int|
            old(out)@.len() <= k < final(out)@.len() && (#[trigger] final(out)@[k]).0 == i);
    }
    assert(final(hub).inbound@.len() == n);
}

/// One pass of a blocking batch receive of a hub takes every pending message, each once,
/// also when the hub is shut down, which it then says; it waits iff nothing is
/// pending and there is no shutdown, which is what `can_recv` denies.
pub proof fn hub_recv_batch_delivers_before_the_end<In, Out, W: BlockingWaiter>(
    drain: &mut HubDrain<In, Out, W>,
    hub: &mut Hub<In, Out, W>,
    out: &mut Vec<HubMessage<In>>,
    r: Step<Result<(), Shutdown>, ()>,
    can: bool,
)
    requires
        old(hub).wf(),
        call_ensures(Hub::<In, Out, W>::can_recv, (&*old(hub),), can),
        call_ensures(HubDrain::<In, Out, W>::recv_batch, (drain, hub, out), r),
    ensures
        r is Wait <==> !can,
        r matches Step::Done(Err(_)) ==> old(hub).signaled(),
        old(hub).signaled() ==> r is Done && r->Done_0 is Err,
        r matches Step::Done(Ok(_)) ==> final(out)@.len() > old(out)@.len() && !old(hub).signaled(),
        r is Wait ==> final(out)@.len() == old(out)@.len(),
        (exists|i: int| 0 <= i < old(hub).n() && (#[trigger] old(hub).inbound@[i]) is Some) ==> r is Done,
        final(hub).n() == old(hub).n(),
        forall|i: int| 0 <= i < old(hub).n() ==> (#[trigger] final(hub).inbound@[i]) is None,
        final(hub).outbound == old(hub).outbound,
        forall|k: int| 0 <= k < old(out)@.len() ==> #[trigger] final(out)@[k] == old(out)@[k],
        forall|k: int|
            old(out)@.len() <= k < final(out)@.len() ==> {
                let (i, v, reply) = #[trigger] final(out)@[k];
                0 <= i < old(hub).n() && old(hub).inbound@[i as int] == Some(v) && reply.idx == i
            },
        forall|j: int, k: int|
            old(out)@.len() <= j < k < final(out)@.len() ==> (#[trigger] final(out)@[j]).0 != (
            #[trigger] final(out)@[k]).0,
        forall|i: int|
            0 <= i < old(hub).n() && (#[trigger] old(hub).inbound@[i]) is Some ==> exists|k: int|
                old(out)@.len() <= k < final(out)@.len() && (#[trigger] final(out)@[k]).0 == i,
        final(out)@.len() >= old(out)@.len(),
        !old(hub).signaled() ==> forall|j: int, k: int|
            old(out)@.len() <= j < k < final(out)@.len() ==> turns_until(
                old(drain).start(old(hub).n()),
                (#[trigger] final(out)@[j]).0 as int,
                old(hub).n(),
            ) < turns_until(
                old(drain).start(old(hub).n()),
                (#[trigger] final(out)@[k]).0 as int,
                old(hub).n(),
            ),
        r matches Step::Done(Ok(_)) ==> final(drain).start(old(hub).n()) == (old(drain).start(
            old(hub).n(),
        ) + 1) % old(hub).n(),
{
    let n = old(hub).n();
    old(drain).lemma_start_in_range(n);
    let start = if old(hub).signaled() {
        0
    } else {
        old(drain).start(n)
    };
    assert(batch(old(hub).inbound@, 0, 0).len() == 0);
    assert(batch_from(old(hub).inbound@, 0) =~= batch(old(hub).inbound@, 0, n));
    lemma_appended(old(hub).inbound@, start, old(out)@, final(out)@);
    if exists|i: int| 0 <= i < n && (#[trigger] old(hub).inbound@[i]) is Some {
        let i = choose|i: int| 0 <= i < n && (#[trigger] old(hub).inbound@[i]) is Some;
        assert(exists|k: int|
            old(out)@.len() <= k < final(out)@.len() && (#[trigger] final(out)@[k]).0 == i);
    } else if final(out)@.len() > old(out)@.len() {
        let k = old(out)@.len() as int;
        let i = final(out)@[k].0 as int;
        assert(old(hub).inbound@[i] is Some);
    }
    assert(final(hub).inbound@.len() == n);
}

/// A reply goes to the port that asked: what is sent through a `HubReply` is what that
/// port then gets, once, and no other port is touched.
pub proof fn hub_try_recv_reply_gets_the_reply<In, Out, W: Waiter>(
    reply: HubReply,
    port: &HubPort<In, Out, W>,
    a: &mut Hub<In, Out, W>,
    b: &mut Hub<In, Out, W>,
    c: &mut Hub<In, Out, W>,
    answer: Out,
    r: Option<Out>,
    again: Option<Out>,
    i: int,
)
    requires
        old(a).wf(),
        reply.idx < old(a).n(),
        port.idx() == reply.idx,
        0 <= i < old(a).n(),
        i != reply.idx,
        call_ensures(HubReply::send::<In, Out, W>, (reply, a, answer), ()),
        *old(b) == *final(a),
        call_ensures(HubPort::<In, Out, W>::try_recv_reply, (port, b), r),
        *old(c) == *final(b),
        call_ensures(HubPort::<In, Out, W>::try_recv_reply, (port, c), again),
    ensures
        r matches Some(v) && v == answer,
        again is None,
        final(a).outbound@[reply.idx as int].waiter == old(a).outbound@[reply.idx as int].waiter.woken(),
        final(c).outbound@[i] == old(a).outbound@[i],
        final(c).inbound == old(a).inbound,
{
}

/// A reply goes to the port that asked: what is sent through a `HubReply` is what that
/// port then gets, once, and no other port is touched.
pub proof fn hub_recv_reply_gets_the_reply<In, Out, W: BlockingWaiter>(
    reply: HubReply,
    port: &HubPort<In, Out, W>,
    a: &mut Hub<In, Out, W>,
    b: &mut Hub<In, Out, W>,
    c: &mut Hub<In, Out, W>,
    answer: Out,
    r: Step<Out, ()>,
    again: Step<Out, ()>,
    i: int,
)
    requires
        old(a).wf(),
        reply.idx < old(a).n(),
        port.idx() == reply.idx,
        0 <= i < old(a).n(),
        i != reply.idx,
        call_ensures(HubReply::send::<In, Out, W>, (reply, a, answer), ()),
        *old(b) == *final(a),
        call_ensures(HubPort::<In, Out, W>::recv_reply, (port, b), r),
        *old(c) == *final(b),
        call_ensures(HubPort::<In, Out, W>::recv_reply, (port, c), again),
    ensures
        r matches Step::Done(v) && v == answer,
        again is Wait,
        final(a).outbound@[reply.idx as int].waiter == old(a).outbound@[reply.idx as int].waiter.woken(),
        final(c).outbound@[i] == old(a).outbound@[i],
        final(c).inbound == old(a).inbound,
{
}

/// A call through an idle port posts the message and waits iff no reply is there yet.
pub proof fn hub_call_posts_and_waits<In, Out, W: BlockingWaiter>(
    port: &HubPort<In, Out, W>,
    hub: &mut Hub<In, Out, W>,
    v: In,
    r: Step<Out, ()>,
)
    requires
        port.wf(*old(hub)),
        call_ensures(HubPort::<In, Out, W>::call, (port, hub, v), r),
    ensures
        final(hub).inbound@[port.idx()] == Some(v),
        r is Wait <==> old(hub).outbound@[port.idx()].slot is None,
        r matches Step::Done(w) ==> old(hub).outbound@[port.idx()].slot == Some(w),
        final(hub).coordinator.waiter == old(hub).coordinator.waiter.woken(),
        forall|i: int|
            0 <= i < old(hub).n() && i != port.idx() ==> #[trigger] final(hub).inbound@[i]
                == old(hub).inbound@[i],
{
}

/// A shutdown of a hub is there for everybody to see, wakes the drain unless it was told
/// already, and leaves what is pending.
pub proof fn hub_shutdown_wakes_the_drain<In, Out, W: Waiter>(
    handle: &HubShutdown<In, Out, W>,
    hub: &mut Hub<In, Out, W>,
    before: bool,
    after: bool,
    called: bool,
)
    requires
        old(hub).wf(),
        call_ensures(HubShutdown::<In, Out, W>::is_signaled, (handle, &*old(hub)), before),
        call_ensures(HubShutdown::<In, Out, W>::signal, (handle, hub), ()),
        call_ensures(HubShutdown::<In, Out, W>::is_signaled, (handle, &*final(hub)), after),
        call_ensures(Hub::<In, Out, W>::can_recv, (&*final(hub),), called),
    ensures
        after,
        called,
        final(hub).inbound == old(hub).inbound,
        final(hub).outbound == old(hub).outbound,
        !before ==> final(hub).coordinator.waiter == old(hub).coordinator.waiter.woken(),
{
}

/// A new hub has the ports asked for, all idle, and is open.
pub proof fn hub_starts_idle<In, Out, W: Waiter>(
    n: usize,
    r: (Hub<In, Out, W>, HubDrain<In, Out, W>, Vec<HubPort<In, Out, W>>),
    len: usize,
    can: bool,
)
    requires
        call_ensures(Hub::<In, Out, W>::new, (n,), r),
        call_ensures(Hub::<In, Out, W>::len, (&r.0,), len),
        call_ensures(Hub::<In, Out, W>::can_recv, (&r.0,), can),
    ensures
        len == n,
        !can,
        r.2@.len() == n,
        forall|i: int| 0 <= i < n ==> (#[trigger] r.2@[i]).idx() == i,
        forall|i: int| 0 <= i < n ==> (#[trigger] r.0.inbound@[i]) is None,
        forall|i: int| 0 <= i < n ==> (#[trigger] r.0.outbound@[i]).slot is None,
{
}

/// Leasing hands out the producer of the lowest free slot, which is out from then on and
/// no other; nothing is handed out iff every slot is out.
pub proof fn pool_acquire_leases_the_lowest_free<T, const CAP: usize, W: Waiter>(
    pool: &mut MpscProducerPool<T, CAP, W>,
    r: Option<MpscProducerLease<T, CAP, W>>,
    i: int,
)
    requires
        0 <= i < old(pool).m(),
        call_ensures(MpscProducerPool::<T, CAP, W>::acquire, (pool,), r),
    ensures
        r is None ==> old(pool).leased(i) && *final(pool) == *old(pool),
        r matches Some(lease) ==> {
            &&& 0 <= lease.at() < old(pool).m()
            &&& !old(pool).leased(lease.at())
            &&& final(pool).leased(i) == (old(pool).leased(i) || i == lease.at())
            &&& i < lease.at() ==> old(pool).leased(i)
            &&& lease.held() == old(pool).producer(lease.at())
        },
        !old(pool).leased(i) ==> r is Some,
        final(pool).m() == old(pool).m(),
{
}

/// A lease that is given back frees its slot and no other, and the slot holds the
/// producer that was given back, for the next lease to use.
pub proof fn pool_close_gives_the_slot_back<T, const CAP: usize, W: Waiter>(
    lease: MpscProducerLease<T, CAP, W>,
    a: &mut MpscProducerPool<T, CAP, W>,
    b: &mut MpscProducerPool<T, CAP, W>,
    r: Option<MpscProducerLease<T, CAP, W>>,
    i: int,
)
    requires
        0 <= i < old(a).m(),
        0 <= lease.at() < old(a).m(),
        call_ensures(MpscProducerLease::<T, CAP, W>::close, (lease, a), ()),
        *old(b) == *final(a),
        call_ensures(MpscProducerPool::<T, CAP, W>::acquire, (b,), r),
    ensures
        final(a).leased(i) == (old(a).leased(i) && i != lease.at()),
        final(a).producer(lease.at()) == lease.held(),
        r is Some,
        r matches Some(next) ==> next.at() <= lease.at(),
        (forall|j: int| 0 <= j < lease.at() ==> #[trigger] old(a).leased(j)) ==> (r matches Some(next)
            && next.at() == lease.at() && next.held() == lease.held()),
{
    assert(!final(a).leased(lease.at()));
    if r is Some {
        let next = r->Some_0;
        if next.at() > lease.at() {
            assert(final(a).leased(lease.at()));
        }
        if forall|j: int| 0 <= j < lease.at() ==> #[trigger] old(a).leased(j) {
            if next.at() < lease.at() {
                assert(old(a).leased(next.at()));
                assert(final(a).leased(next.at()));
            }
            assert(final(a).producer(lease.at()) == lease.held());
        }
    }
}

proof fn lemma_one_less(a: spec_fn(int) -> bool, b: spec_fn(int) -> bool, slot: int, n: int)
    requires
        0 <= slot,
        !a(slot),
        b(slot),
        forall|i: int| 0 <= i < n && i != slot ==> #[trigger] b(i) == a(i),
    ensures
        free_below(a, n) == free_below(b, n) + (if slot < n {
            1nat
        } else {
            0nat
        }),
    decreases n,
{
    if n > 0 {
        lemma_one_less(a, b, slot, n - 1);
        if n - 1 != slot {
            assert(b(n - 1) == a(n - 1));
        }
    }
}

/// Every lease leaves one producer less to lease, every return one more.
pub proof fn pool_available_counts_down_and_up<T, const CAP: usize, W: Waiter>(
    a: &mut MpscProducerPool<T, CAP, W>,
    b: &mut MpscProducerPool<T, CAP, W>,
    r: Option<MpscProducerLease<T, CAP, W>>,
    lease: MpscProducerLease<T, CAP, W>,
    n0: usize,
    n1: usize,
    n2: usize,
    cap: usize,
)
    requires
        old(a).wf(),
        call_ensures(MpscProducerPool::<T, CAP, W>::capacity, (&*old(a),), cap),
        call_ensures(MpscProducerPool::<T, CAP, W>::available, (&*old(a),), n0),
        call_ensures(MpscProducerPool::<T, CAP, W>::acquire, (a,), r),
        r == Some(lease),
        call_ensures(MpscProducerPool::<T, CAP, W>::available, (&*final(a),), n1),
        *old(b) == *final(a),
        call_ensures(MpscProducerLease::<T, CAP, W>::close, (lease, b), ()),
        call_ensures(MpscProducerPool::<T, CAP, W>::available, (&*final(b),), n2),
    ensures
        n1 + 1 == n0,
        n2 == n0,
        cap == old(a).m(),
{
    let f0 = |i: int| old(a).leased(i);
    let f1 = |i: int| final(a).leased(i);
    let f2 = |i: int| final(b).leased(i);
    let m = old(a).m();
    assert(!f0(lease.at()) && f1(lease.at())) by {
        assert(final(a).leased(lease.at()));
    }
    assert forall|i: int| 0 <= i < m && i != lease.at() implies #[trigger] f1(i) == f0(i) by {
        assert(final(a).leased(i) == old(a).leased(i));
    }
    assert(!f2(lease.at())) by {
        assert(!final(b).leased(lease.at()));
    }
    assert forall|i: int| 0 <= i < m && i != lease.at() implies #[trigger] f1(i) == f2(i) by {
        assert(final(b).leased(i) == final(a).leased(i));
    }
    lemma_one_less(f0, f1, lease.at(), m);
    lemma_one_less(f2, f1, lease.at(), m);
}

/// A pool holds the producers it was made of, none of them out.
pub proof fn pool_starts_with_every_producer<T, const CAP: usize, W: Waiter>(
    producers: Vec<MpscProducer<T, CAP, W>>,
    pool: MpscProducerPool<T, CAP, W>,
    m: usize,
    r: (Mpsc<T, CAP, W>, MpscProducerPool<T, CAP, W>, MpscConsumer<T, CAP, W>, MpscShutdown<W>),
    i: int,
)
    requires
        call_ensures(Mpsc::<T, CAP, W>::pool_from_producers, (producers,), pool),
        call_ensures(Mpsc::<T, CAP, W>::producer_pool, (m,), r),
    ensures
        pool.m() == producers@.len(),
        0 <= i < producers@.len() ==> !pool.leased(i) && pool.producer(i) == producers@[i],
        r.1.m() == m,
        r.0@.len() == m,
        0 <= i < m ==> !r.1.leased(i) && r.1.producer(i).idx() == i && r.0@[i].len() == 0,
        r.0.live_producers == m,
        !r.0.shutdown,
{
}

/// A pool that goes takes all its producers out of the channel, and wakes the consumer
/// iff nobody is left; what is in flight stays.
pub proof fn pool_that_goes_takes_its_producers<T, const CAP: usize, W: Waiter>(
    pool: MpscProducerPool<T, CAP, W>,
    ch: &mut Mpsc<T, CAP, W>,
    i: int,
)
    requires
        pool.complete(*old(ch)),
        0 <= i < pool.m(),
        call_ensures(MpscProducerPool::<T, CAP, W>::close, (pool, ch), ()),
    ensures
        final(ch)@ == old(ch)@,
        final(ch).live_producers == old(ch).live_producers - pool.m(),
        final(ch).rings@[pool.producer(i).idx()].closed,
        final(ch).live_producers == 0 ==> final(ch).fanin_waiter == old(ch).fanin_waiter.woken(),
        final(ch).live_producers > 0 ==> final(ch).fanin_waiter == old(ch).fanin_waiter,
        final(ch).shutdown == old(ch).shutdown,
{
    assert(!pool.leased(i));
    let k = pool.producer(i).idx();
    assert(pool.owns(pool.m(), k));
    assert(final(ch).rings@[k].closed);
}

/// A lease lends its producer: what a holder sees and changes through it is that
/// producer.
pub proof fn lease_lends_its_producer<T, const CAP: usize, W: Waiter>(
    lease: &MpscProducerLease<T, CAP, W>,
    p: &MpscProducer<T, CAP, W>,
)
    requires
        call_ensures(MpscProducerLease::<T, CAP, W>::deref, (lease,), p),
    ensures
        *p == lease.held(),
{
}

} // verus!
