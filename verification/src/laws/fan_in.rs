//! What the calls of a channel with many producers and one consumer come to:
//! everything accepted is delivered, in each producer's order and before the
//! end is told, and nobody waits for what is already there.
use crate::route::hub::Shutdown;
use crate::route::fanin::{run_fan_in, tells_of, FanInOp};
use crate::route::mpsc::{Mpsc, MpscConsumer, MpscProducer, MpscShutdown};
use crate::route::mpsc2::{Mpsc2, Mpsc2Consumer, Mpsc2Producer, Mpsc2Shutdown};
use crate::route::queues::{any_ready, first_nonempty, joined, lemma_first_nonempty, lemma_joined_holds};
use crate::waiter::{AsyncWaiter, BlockingWaiter, NotifyWaiter, Step, Waiter};
use vstd::prelude::*;

verus! {

/// How many items the first `n` queues hold.
pub open spec fn count<T>(qs: Seq<Seq<T>>, n: int) -> int
    decreases n,
{
    if n <= 0 {
        0
    } else {
        count(qs, n - 1) + qs[n - 1].len()
    }
}

pub(crate) proof fn lemma_count<T>(qs: Seq<Seq<T>>, n: int)
    requires
        0 <= n <= qs.len(),
    ensures
        joined(qs, n).len() == count(qs, n),
        (forall|i: int| 0 <= i < n ==> (#[trigger] qs[i]).len() == 0) ==> count(qs, n) == 0,
    decreases n,
{
    if n > 0 {
        lemma_count(qs, n - 1);
    }
}

/// `MpscProducer::try_send` accepts a value iff the channel is not shut down
/// and the producer's ring has room. The value then goes behind everything else
/// in that ring, no other ring changes, and the consumer is woken.
/// Otherwise it comes back and nothing in flight changes.
pub proof fn mpsc_try_send_appends_or_gives_back<T, const CAP: usize, W: Waiter>(
    tx: &mut MpscProducer<T, CAP, W>,
    ch: &mut Mpsc<T, CAP, W>,
    value: T,
    r: Result<(), T>,
)
    requires
        old(tx).wf(*old(ch)),
        call_ensures(MpscProducer::<T, CAP, W>::try_send, (tx, ch, value), r),
    ensures
        r is Ok <==> !old(ch).shutdown && old(ch)@[old(tx).idx()].len() < CAP,
        r is Ok ==> {
            &&& final(ch)@.len() == old(ch)@.len()
            &&& final(ch)@[old(tx).idx()].len() == old(ch)@[old(tx).idx()].len() + 1
            &&& final(ch)@[old(tx).idx()].last() == value
            &&& forall|k: int|
                0 <= k < old(ch)@[old(tx).idx()].len() ==> #[trigger] final(ch)@[old(tx).idx()][k]
                    == old(ch)@[old(tx).idx()][k]
            &&& forall|i: int| 0 <= i < old(ch)@.len() && i != old(tx).idx() ==> #[trigger] final(ch)@[i] == old(ch)@[i]
            &&& final(ch).fanin_waiter == old(ch).fanin_waiter.woken()
        },
        r matches Err(v) ==> {
            &&& v == value
            &&& final(ch)@ == old(ch)@
            &&& final(ch).fanin_waiter == old(ch).fanin_waiter
        },
        final(ch).shutdown == old(ch).shutdown,
        final(ch).live_producers == old(ch).live_producers,
        final(tx).idx() == old(tx).idx(),
{
    assert(final(ch)@ =~= old(ch)@ || r is Ok) by {
        if r is Err {
            assert(old(ch)@[old(tx).idx()] + Seq::<T>::empty() =~= old(ch)@[old(tx).idx()]);
        }
    }
}

/// One pass of `MpscProducer::send` ends iff the channel is shut down or
/// the producer's ring has room. Without a shutdown an
/// ended pass with room has put the value behind everything else in the ring; with
/// one, nothing is sent, full or not. A pass that waits keeps the value.
pub proof fn mpsc_send_ends_on_room_or_shutdown<T, const CAP: usize, W: BlockingWaiter>(
    tx: &mut MpscProducer<T, CAP, W>,
    ch: &mut Mpsc<T, CAP, W>,
    value: T,
    r: Step<(), T>,
)
    requires
        old(tx).wf(*old(ch)),
        call_ensures(MpscProducer::<T, CAP, W>::send, (tx, ch, value), r),
    ensures
        r is Done <==> old(ch).shutdown || old(ch)@[old(tx).idx()].len() < CAP,
        old(ch).shutdown ==> r is Done && final(ch)@ == old(ch)@,
        !old(ch).shutdown && old(ch)@[old(tx).idx()].len() < CAP ==> {
            &&& r is Done
            &&& final(ch)@.len() == old(ch)@.len()
            &&& final(ch)@[old(tx).idx()].len() == old(ch)@[old(tx).idx()].len() + 1
            &&& final(ch)@[old(tx).idx()].last() == value
            &&& forall|k: int|
                0 <= k < old(ch)@[old(tx).idx()].len() ==> #[trigger] final(ch)@[old(tx).idx()][k]
                    == old(ch)@[old(tx).idx()][k]
            &&& forall|i: int| 0 <= i < old(ch)@.len() && i != old(tx).idx() ==> #[trigger] final(ch)@[i] == old(ch)@[i]
            &&& final(ch).fanin_waiter == old(ch).fanin_waiter.woken()
        },
        old(ch)@[old(tx).idx()].len() >= CAP ==> final(ch)@ == old(ch)@ && final(ch).fanin_waiter == old(ch).fanin_waiter,
        r matches Step::Wait(v) ==> v == value,
        final(ch).shutdown == old(ch).shutdown,
        final(ch).live_producers == old(ch).live_producers,
        final(tx).idx() == old(tx).idx(),
{
    assert(old(ch)@[old(tx).idx()] + Seq::<T>::empty() =~= old(ch)@[old(tx).idx()]);
    assert(old(ch)@.update(old(tx).idx(), old(ch)@[old(tx).idx()]) =~= old(ch)@);
}

/// One pass of `MpscProducer::send_async` ends iff the channel is shut down or
/// the producer's ring has room. Without a shutdown an
/// ended pass with room has put the value behind everything else in the ring; with
/// one, nothing is sent, full or not. A pass that waits keeps the value.
pub proof fn mpsc_send_async_ends_on_room_or_shutdown<T, const CAP: usize, W: AsyncWaiter>(
    tx: &mut MpscProducer<T, CAP, W>,
    ch: &mut Mpsc<T, CAP, W>,
    value: T,
    r: Step<(), T>,
)
    requires
        old(tx).wf(*old(ch)),
        call_ensures(MpscProducer::<T, CAP, W>::send_async, (tx, ch, value), r),
    ensures
        r is Done <==> old(ch).shutdown || old(ch)@[old(tx).idx()].len() < CAP,
        old(ch).shutdown ==> r is Done && final(ch)@ == old(ch)@,
        !old(ch).shutdown && old(ch)@[old(tx).idx()].len() < CAP ==> {
            &&& r is Done
            &&& final(ch)@.len() == old(ch)@.len()
            &&& final(ch)@[old(tx).idx()].len() == old(ch)@[old(tx).idx()].len() + 1
            &&& final(ch)@[old(tx).idx()].last() == value
            &&& forall|k: int|
                0 <= k < old(ch)@[old(tx).idx()].len() ==> #[trigger] final(ch)@[old(tx).idx()][k]
                    == old(ch)@[old(tx).idx()][k]
            &&& forall|i: int| 0 <= i < old(ch)@.len() && i != old(tx).idx() ==> #[trigger] final(ch)@[i] == old(ch)@[i]
            &&& final(ch).fanin_waiter == old(ch).fanin_waiter.woken()
        },
        old(ch)@[old(tx).idx()].len() >= CAP ==> final(ch)@ == old(ch)@ && final(ch).fanin_waiter == old(ch).fanin_waiter,
        r matches Step::Wait(v) ==> v == value,
        final(ch).shutdown == old(ch).shutdown,
        final(ch).live_producers == old(ch).live_producers,
        final(tx).idx() == old(tx).idx(),
{
    assert(old(ch)@[old(tx).idx()] + Seq::<T>::empty() =~= old(ch)@[old(tx).idx()]);
    assert(old(ch)@.update(old(tx).idx(), old(ch)@[old(tx).idx()]) =~= old(ch)@);
}

/// One pass of `MpscProducer::send_async_send` ends iff the channel is shut down or
/// the producer's ring has room, or nobody is left to make any. Without a shutdown an
/// ended pass with room has put the value behind everything else in the ring; with
/// one, nothing is sent, full or not. A pass that waits keeps the value.
pub proof fn mpsc_send_async_send_ends_on_room_or_shutdown<T, const CAP: usize>(
    tx: &mut MpscProducer<T, CAP, NotifyWaiter>,
    ch: &mut Mpsc<T, CAP, NotifyWaiter>,
    value: T,
    r: Step<(), T>,
)
    requires
        old(tx).wf(*old(ch)),
        call_ensures(MpscProducer::<T, CAP, NotifyWaiter>::send_async_send, (tx, ch, value), r),
    ensures
        r is Done <==> old(ch).shutdown || old(ch)@[old(tx).idx()].len() < CAP || old(ch).rings@[old(tx).idx()].closed,
        old(ch).shutdown ==> r is Done && final(ch)@ == old(ch)@,
        !old(ch).shutdown && old(ch)@[old(tx).idx()].len() < CAP ==> {
            &&& r is Done
            &&& final(ch)@.len() == old(ch)@.len()
            &&& final(ch)@[old(tx).idx()].len() == old(ch)@[old(tx).idx()].len() + 1
            &&& final(ch)@[old(tx).idx()].last() == value
            &&& forall|k: int|
                0 <= k < old(ch)@[old(tx).idx()].len() ==> #[trigger] final(ch)@[old(tx).idx()][k]
                    == old(ch)@[old(tx).idx()][k]
            &&& forall|i: int| 0 <= i < old(ch)@.len() && i != old(tx).idx() ==> #[trigger] final(ch)@[i] == old(ch)@[i]
            &&& final(ch).fanin_waiter == old(ch).fanin_waiter.woken()
        },
        old(ch)@[old(tx).idx()].len() >= CAP ==> final(ch)@ == old(ch)@ && final(ch).fanin_waiter == old(ch).fanin_waiter,
        r matches Step::Wait(v) ==> v == value,
        final(ch).shutdown == old(ch).shutdown,
        final(ch).live_producers == old(ch).live_producers,
        final(tx).idx() == old(tx).idx(),
{
    assert(old(ch)@[old(tx).idx()] + Seq::<T>::empty() =~= old(ch)@[old(tx).idx()]);
    assert(old(ch)@.update(old(tx).idx(), old(ch)@[old(tx).idx()]) =~= old(ch)@);
}

/// A producer that is told to go on does not wait again: no pass of
/// `{nm}` waits while `can_send` holds, and every pass waits while it does
/// not.
pub proof fn mpsc_send_does_not_wait_when_called<T, const CAP: usize, W: BlockingWaiter>(
    tx: &mut MpscProducer<T, CAP, W>,
    ch: &mut Mpsc<T, CAP, W>,
    value: T,
    can: bool,
    r: Step<(), T>,
)
    requires
        old(tx).wf(*old(ch)),
        call_ensures(MpscProducer::<T, CAP, W>::can_send, (&*old(tx), &*old(ch)), can),
        call_ensures(MpscProducer::<T, CAP, W>::send, (tx, ch, value), r),
    ensures
        r is Wait <==> !can,
{
}

/// A producer that is told to go on does not wait again: no pass of
/// `{nm}` waits while `can_send` holds, and every pass waits while it does
/// not.
pub proof fn mpsc_send_async_does_not_wait_when_called<T, const CAP: usize, W: AsyncWaiter>(
    tx: &mut MpscProducer<T, CAP, W>,
    ch: &mut Mpsc<T, CAP, W>,
    value: T,
    can: bool,
    r: Step<(), T>,
)
    requires
        old(tx).wf(*old(ch)),
        call_ensures(MpscProducer::<T, CAP, W>::can_send, (&*old(tx), &*old(ch)), can),
        call_ensures(MpscProducer::<T, CAP, W>::send_async, (tx, ch, value), r),
    ensures
        r is Wait <==> !can,
{
}

/// `MpscProducer::try_send_bulk` moves as much as it can: without a shutdown,
/// as many items as are offered or as the producer knows of room for, whichever
/// is less; after one, none. They are taken from the end of the list and go
/// behind everything else in the producer's ring; no other ring changes.
pub proof fn mpsc_bulk_send_moves_all_that_fits<T, const CAP: usize, W: Waiter>(
    tx: &mut MpscProducer<T, CAP, W>,
    ch: &mut Mpsc<T, CAP, W>,
    items: &mut Vec<T>,
    n: usize,
)
    requires
        old(tx).wf(*old(ch)),
        call_ensures(MpscProducer::<T, CAP, W>::try_send_bulk, (tx, ch, items), n),
    ensures
        n <= old(items)@.len(),
        old(ch)@[old(tx).idx()].len() + n <= CAP,
        old(ch).shutdown ==> n == 0,
        !old(ch).shutdown && n < old(items)@.len() ==> n == CAP - (if old(tx).used(*old(ch)) < CAP {
            old(tx).used(*old(ch))
        } else {
            old(ch)@[old(tx).idx()].len() as int
        }),
        !old(ch).shutdown && old(items)@.len() > 0 && old(ch)@[old(tx).idx()].len() < CAP ==> n > 0,
        final(items)@.len() == old(items)@.len() - n,
        forall|k: int|
            0 <= k < final(items)@.len() ==> #[trigger] final(items)@[k] == old(items)@[k],
        final(ch)@.len() == old(ch)@.len(),
        final(ch)@[old(tx).idx()].len() == old(ch)@[old(tx).idx()].len() + n,
        forall|k: int|
            0 <= k < old(ch)@[old(tx).idx()].len() ==> #[trigger] final(ch)@[old(tx).idx()][k]
                == old(ch)@[old(tx).idx()][k],
        forall|k: int|
            0 <= k < n ==> final(ch)@[old(tx).idx()][old(ch)@[old(tx).idx()].len() + k]
                == #[trigger] old(items)@[old(items)@.len() - 1 - k],
        forall|i: int|
            0 <= i < old(ch)@.len() && i != old(tx).idx() ==> #[trigger] final(ch)@[i] == old(ch)@[i],
        final(ch).fanin_waiter == (if n > 0 {
            old(ch).fanin_waiter.woken()
        } else {
            old(ch).fanin_waiter
        }),
        final(ch).shutdown == old(ch).shutdown,
        final(ch).live_producers == old(ch).live_producers,
        final(tx).idx() == old(tx).idx(),
{
}

/// `MpscConsumer::try_recv` hands out the oldest item of the first ring that
/// has any, and wakes its producer; `None` iff nothing is in flight.
pub proof fn mpsc_try_recv_takes_the_oldest_of_a_ring<T, const CAP: usize, W: Waiter>(
    rx: &mut MpscConsumer<T, CAP, W>,
    ch: &mut Mpsc<T, CAP, W>,
    r: Option<T>,
)
    requires
        old(rx).wf(*old(ch)),
        call_ensures(MpscConsumer::<T, CAP, W>::try_recv, (rx, ch), r),
    ensures
        r is None <==> forall|i: int| 0 <= i < old(ch)@.len() ==> (#[trigger] old(ch)@[i]).len() == 0,
        r matches Some(v) ==> exists|p: int|
            #![trigger old(ch)@[p]]
            {
                &&& 0 <= p < old(ch)@.len()
                &&& old(ch)@[p].len() > 0
                &&& v == old(ch)@[p][0]
                &&& final(ch)@ == old(ch)@.update(p, old(ch)@[p].drop_first())
                &&& forall|j: int| 0 <= j < p ==> (#[trigger] old(ch)@[j]).len() == 0
                &&& final(ch).producer_waiters@ == old(ch).producer_waiters@.update(
                    p,
                    old(ch).producer_waiters@[p].woken(),
                )
            },
        r is None ==> final(ch)@ == old(ch)@,
        final(ch).shutdown == old(ch).shutdown,
        final(ch).live_producers == old(ch).live_producers,
{
    lemma_first_nonempty(old(ch)@, 0);
    let p = first_nonempty(old(ch)@, 0);
    assert(old(ch)@[p].len() > 0 || p == old(ch)@.len());
}

/// One pass of `MpscConsumer::recv` delivers before it ends: while any ring
/// holds an item, shut down or not, it hands out the oldest item of the first
/// such ring; it says that the channel has ended iff nothing is in flight and the
/// channel is shut down or every producer is gone; otherwise it waits.
pub proof fn mpsc_recv_delivers_before_the_end<T, const CAP: usize, W: BlockingWaiter>(
    rx: &mut MpscConsumer<T, CAP, W>,
    ch: &mut Mpsc<T, CAP, W>,
    r: Step<Result<T, Shutdown>, ()>,
)
    requires
        old(rx).wf(*old(ch)),
        call_ensures(MpscConsumer::<T, CAP, W>::recv, (rx, ch), r),
    ensures
        forall|i: int|
            0 <= i < old(ch)@.len() && (#[trigger] old(ch)@[i]).len() > 0 ==> r is Done && r->Done_0 is Ok,
        r matches Step::Done(Ok(v)) ==> exists|p: int|
            #![trigger old(ch)@[p]]
            {
                &&& 0 <= p < old(ch)@.len()
                &&& old(ch)@[p].len() > 0
                &&& v == old(ch)@[p][0]
                &&& final(ch)@ == old(ch)@.update(p, old(ch)@[p].drop_first())
                &&& forall|j: int| 0 <= j < p ==> (#[trigger] old(ch)@[j]).len() == 0
                &&& final(ch).producer_waiters@ == old(ch).producer_waiters@.update(
                    p,
                    old(ch).producer_waiters@[p].woken(),
                )
            },
        r matches Step::Done(Err(_)) ==> {
            &&& old(ch).shutdown || old(ch).live_producers == 0
            &&& forall|i: int| 0 <= i < old(ch)@.len() ==> (#[trigger] old(ch)@[i]).len() == 0
        },
        r is Wait ==> !old(ch).shutdown && old(ch).live_producers > 0,
        !(r is Done && r->Done_0 is Ok) ==> final(ch)@ == old(ch)@,
        final(ch).shutdown == old(ch).shutdown,
        final(ch).live_producers == old(ch).live_producers,
{
    lemma_first_nonempty(old(ch)@, 0);
    let p = first_nonempty(old(ch)@, 0);
    assert(old(ch)@[p].len() > 0 || p == old(ch)@.len());
}

/// When `MpscConsumer::recv` says that the channel has ended, everything
/// that was ever accepted of every producer has been delivered.
pub proof fn mpsc_recv_ends_after_everything_was_delivered<T, const CAP: usize, W: BlockingWaiter>(
    rx: &mut MpscConsumer<T, CAP, W>,
    ch: &mut Mpsc<T, CAP, W>,
    r: Step<Result<T, Shutdown>, ()>,
    ops: Seq<FanInOp<T>>,
    i: int,
)
    requires
        old(rx).wf(*old(ch)),
        CAP > 0,
        0 <= i < old(ch)@.len(),
        tells_of(run_fan_in(old(ch)@.len(), CAP as int, ops), *old(ch)),
        call_ensures(MpscConsumer::<T, CAP, W>::recv, (rx, ch), r),
        r is Done,
        r->Done_0 is Err,
    ensures
        run_fan_in(old(ch)@.len(), CAP as int, ops).delivered[i] == run_fan_in(
            old(ch)@.len(),
            CAP as int,
            ops,
        ).accepted[i],
{
    let h = run_fan_in(old(ch)@.len(), CAP as int, ops);
    crate::route::fanin::fan_in_keeps_each_producers_order(
        old(ch)@.len(),
        CAP as int,
        ops,
        i,
    );
    assert(old(ch)@[i].len() == 0);
    assert(h.delivered[i] + h.queues[i] =~= h.delivered[i]);
}

/// One pass of `MpscConsumer::recv_async` delivers before it ends: while any ring
/// holds an item, shut down or not, it hands out the oldest item of the first
/// such ring; it says that the channel has ended iff nothing is in flight and the
/// channel is shut down or every producer is gone; otherwise it waits.
pub proof fn mpsc_recv_async_delivers_before_the_end<T, const CAP: usize, W: AsyncWaiter>(
    rx: &mut MpscConsumer<T, CAP, W>,
    ch: &mut Mpsc<T, CAP, W>,
    r: Step<Result<T, Shutdown>, ()>,
)
    requires
        old(rx).wf(*old(ch)),
        call_ensures(MpscConsumer::<T, CAP, W>::recv_async, (rx, ch), r),
    ensures
        forall|i: int|
            0 <= i < old(ch)@.len() && (#[trigger] old(ch)@[i]).len() > 0 ==> r is Done && r->Done_0 is Ok,
        r matches Step::Done(Ok(v)) ==> exists|p: int|
            #![trigger old(ch)@[p]]
            {
                &&& 0 <= p < old(ch)@.len()
                &&& old(ch)@[p].len() > 0
                &&& v == old(ch)@[p][0]
                &&& final(ch)@ == old(ch)@.update(p, old(ch)@[p].drop_first())
                &&& forall|j: int| 0 <= j < p ==> (#[trigger] old(ch)@[j]).len() == 0
                &&& final(ch).producer_waiters@ == old(ch).producer_waiters@.update(
                    p,
                    old(ch).producer_waiters@[p].woken(),
                )
            },
        r matches Step::Done(Err(_)) ==> {
            &&& old(ch).shutdown || old(ch).live_producers == 0
            &&& forall|i: int| 0 <= i < old(ch)@.len() ==> (#[trigger] old(ch)@[i]).len() == 0
        },
        r is Wait ==> !old(ch).shutdown && old(ch).live_producers > 0,
        !(r is Done && r->Done_0 is Ok) ==> final(ch)@ == old(ch)@,
        final(ch).shutdown == old(ch).shutdown,
        final(ch).live_producers == old(ch).live_producers,
{
    lemma_first_nonempty(old(ch)@, 0);
    let p = first_nonempty(old(ch)@, 0);
    assert(old(ch)@[p].len() > 0 || p == old(ch)@.len());
}

/// When `MpscConsumer::recv_async` says that the channel has ended, everything
/// that was ever accepted of every producer has been delivered.
pub proof fn mpsc_recv_async_ends_after_everything_was_delivered<T, const CAP: usize, W: AsyncWaiter>(
    rx: &mut MpscConsumer<T, CAP, W>,
    ch: &mut Mpsc<T, CAP, W>,
    r: Step<Result<T, Shutdown>, ()>,
    ops: Seq<FanInOp<T>>,
    i: int,
)
    requires
        old(rx).wf(*old(ch)),
        CAP > 0,
        0 <= i < old(ch)@.len(),
        tells_of(run_fan_in(old(ch)@.len(), CAP as int, ops), *old(ch)),
        call_ensures(MpscConsumer::<T, CAP, W>::recv_async, (rx, ch), r),
        r is Done,
        r->Done_0 is Err,
    ensures
        run_fan_in(old(ch)@.len(), CAP as int, ops).delivered[i] == run_fan_in(
            old(ch)@.len(),
            CAP as int,
            ops,
        ).accepted[i],
{
    let h = run_fan_in(old(ch)@.len(), CAP as int, ops);
    crate::route::fanin::fan_in_keeps_each_producers_order(
        old(ch)@.len(),
        CAP as int,
        ops,
        i,
    );
    assert(old(ch)@[i].len() == 0);
    assert(h.delivered[i] + h.queues[i] =~= h.delivered[i]);
}

/// One pass of `MpscConsumer::recv_async_send` delivers before it ends: while any ring
/// holds an item, shut down or not, it hands out the oldest item of the first
/// such ring; it says that the channel has ended iff nothing is in flight and the
/// channel is shut down or every producer is gone; otherwise it waits.
pub proof fn mpsc_recv_async_send_delivers_before_the_end<T, const CAP: usize>(
    rx: &mut MpscConsumer<T, CAP, NotifyWaiter>,
    ch: &mut Mpsc<T, CAP, NotifyWaiter>,
    r: Step<Result<T, Shutdown>, ()>,
)
    requires
        old(rx).wf(*old(ch)),
        call_ensures(MpscConsumer::<T, CAP, NotifyWaiter>::recv_async_send, (rx, ch), r),
    ensures
        forall|i: int|
            0 <= i < old(ch)@.len() && (#[trigger] old(ch)@[i]).len() > 0 ==> r is Done && r->Done_0 is Ok,
        r matches Step::Done(Ok(v)) ==> exists|p: int|
            #![trigger old(ch)@[p]]
            {
                &&& 0 <= p < old(ch)@.len()
                &&& old(ch)@[p].len() > 0
                &&& v == old(ch)@[p][0]
                &&& final(ch)@ == old(ch)@.update(p, old(ch)@[p].drop_first())
                &&& forall|j: int| 0 <= j < p ==> (#[trigger] old(ch)@[j]).len() == 0
                &&& final(ch).producer_waiters@ == old(ch).producer_waiters@.update(
                    p,
                    old(ch).producer_waiters@[p].woken(),
                )
            },
        r matches Step::Done(Err(_)) ==> {
            &&& old(ch).shutdown || old(ch).live_producers == 0
            &&& forall|i: int| 0 <= i < old(ch)@.len() ==> (#[trigger] old(ch)@[i]).len() == 0
        },
        r is Wait ==> !old(ch).shutdown && old(ch).live_producers > 0,
        !(r is Done && r->Done_0 is Ok) ==> final(ch)@ == old(ch)@,
        final(ch).shutdown == old(ch).shutdown,
        final(ch).live_producers == old(ch).live_producers,
{
    lemma_first_nonempty(old(ch)@, 0);
    let p = first_nonempty(old(ch)@, 0);
    assert(old(ch)@[p].len() > 0 || p == old(ch)@.len());
}

/// When `MpscConsumer::recv_async_send` says that the channel has ended, everything
/// that was ever accepted of every producer has been delivered.
pub proof fn mpsc_recv_async_send_ends_after_everything_was_delivered<T, const CAP: usize>(
    rx: &mut MpscConsumer<T, CAP, NotifyWaiter>,
    ch: &mut Mpsc<T, CAP, NotifyWaiter>,
    r: Step<Result<T, Shutdown>, ()>,
    ops: Seq<FanInOp<T>>,
    i: int,
)
    requires
        old(rx).wf(*old(ch)),
        CAP > 0,
        0 <= i < old(ch)@.len(),
        tells_of(run_fan_in(old(ch)@.len(), CAP as int, ops), *old(ch)),
        call_ensures(MpscConsumer::<T, CAP, NotifyWaiter>::recv_async_send, (rx, ch), r),
        r is Done,
        r->Done_0 is Err,
    ensures
        run_fan_in(old(ch)@.len(), CAP as int, ops).delivered[i] == run_fan_in(
            old(ch)@.len(),
            CAP as int,
            ops,
        ).accepted[i],
{
    let h = run_fan_in(old(ch)@.len(), CAP as int, ops);
    crate::route::fanin::fan_in_keeps_each_producers_order(
        old(ch)@.len(),
        CAP as int,
        ops,
        i,
    );
    assert(old(ch)@[i].len() == 0);
    assert(h.delivered[i] + h.queues[i] =~= h.delivered[i]);
}

/// `MpscConsumer::try_recv_batch` takes everything in flight: the items of each
/// producer stand together and in their order, producer by producer, nothing is
/// left, and every producer that had items is woken.
pub proof fn mpsc_batch_takes_everything_in_order<T, const CAP: usize, W: Waiter>(
    rx: &mut MpscConsumer<T, CAP, W>,
    ch: &mut Mpsc<T, CAP, W>,
    out: &mut Vec<T>,
    n: usize,
    i: int,
)
    requires
        old(rx).wf(*old(ch)),
        call_ensures(MpscConsumer::<T, CAP, W>::try_recv_batch, (rx, ch, out), n),
    ensures
        n == count(old(ch)@, old(ch)@.len() as int),
        final(out)@.len() == old(out)@.len() + count(old(ch)@, old(ch)@.len() as int),
        forall|k: int| 0 <= k < old(out)@.len() ==> #[trigger] final(out)@[k] == old(out)@[k],
        0 <= i < old(ch)@.len() ==> {
            let from = old(out)@.len() + count(old(ch)@, i);
            final(out)@.subrange(from as int, from + old(ch)@[i].len()) == old(ch)@[i]
        },
        forall|j: int| 0 <= j < final(ch)@.len() ==> (#[trigger] final(ch)@[j]).len() == 0,
        final(ch)@.len() == old(ch)@.len(),
        0 <= i < old(ch)@.len() ==> final(ch).producer_waiters@[i] == (if old(ch)@[i].len() > 0 {
            old(ch).producer_waiters@[i].woken()
        } else {
            old(ch).producer_waiters@[i]
        }),
        final(ch).shutdown == old(ch).shutdown,
        final(ch).live_producers == old(ch).live_producers,
{
    let all = joined(old(ch)@, old(ch)@.len() as int);
    lemma_count(old(ch)@, old(ch)@.len() as int);
    if 0 <= i < old(ch)@.len() {
        lemma_count(old(ch)@, i);
        lemma_joined_holds(old(ch)@, old(ch)@.len() as int, i);
        let from = count(old(ch)@, i);
        assert(final(out)@.subrange(
            old(out)@.len() + from,
            old(out)@.len() + from + old(ch)@[i].len(),
        ) =~= all.subrange(from, from + old(ch)@[i].len()));
    }
}

/// One pass of `MpscConsumer::recv_batch` takes everything in flight, shut down
/// or not, and says how much that was; only when that is nothing it says that the
/// channel has ended, iff it has, or waits.
pub proof fn mpsc_recv_batch_delivers_before_the_end<T, const CAP: usize, W: BlockingWaiter>(
    rx: &mut MpscConsumer<T, CAP, W>,
    ch: &mut Mpsc<T, CAP, W>,
    out: &mut Vec<T>,
    r: Step<Result<usize, Shutdown>, ()>,
    i: int,
)
    requires
        old(rx).wf(*old(ch)),
        call_ensures(MpscConsumer::<T, CAP, W>::recv_batch, (rx, ch, out), r),
    ensures
        0 <= i < old(ch)@.len() && old(ch)@[i].len() > 0 ==> r is Done && r->Done_0 is Ok,
        r matches Step::Done(Ok(n)) ==> n == count(old(ch)@, old(ch)@.len() as int) && n > 0,
        r matches Step::Done(Err(_)) ==> {
            &&& old(ch).shutdown || old(ch).live_producers == 0
            &&& count(old(ch)@, old(ch)@.len() as int) == 0
        },
        r is Wait ==> !old(ch).shutdown && old(ch).live_producers > 0 && count(
            old(ch)@,
            old(ch)@.len() as int,
        ) == 0,
        final(out)@.len() == old(out)@.len() + count(old(ch)@, old(ch)@.len() as int),
        forall|k: int| 0 <= k < old(out)@.len() ==> #[trigger] final(out)@[k] == old(out)@[k],
        0 <= i < old(ch)@.len() ==> {
            let from = old(out)@.len() + count(old(ch)@, i);
            final(out)@.subrange(from as int, from + old(ch)@[i].len()) == old(ch)@[i]
        },
        forall|j: int| 0 <= j < final(ch)@.len() ==> (#[trigger] final(ch)@[j]).len() == 0,
        final(ch)@.len() == old(ch)@.len(),
        0 <= i < old(ch)@.len() ==> final(ch).producer_waiters@[i] == (if old(ch)@[i].len() > 0 {
            old(ch).producer_waiters@[i].woken()
        } else {
            old(ch).producer_waiters@[i]
        }),
        final(ch).shutdown == old(ch).shutdown,
        final(ch).live_producers == old(ch).live_producers,
{
    let all = joined(old(ch)@, old(ch)@.len() as int);
    lemma_count(old(ch)@, old(ch)@.len() as int);
    if 0 <= i < old(ch)@.len() {
        lemma_count(old(ch)@, i);
        lemma_joined_holds(old(ch)@, old(ch)@.len() as int, i);
        let from = count(old(ch)@, i);
        assert(final(out)@.subrange(
            old(out)@.len() + from,
            old(out)@.len() + from + old(ch)@[i].len(),
        ) =~= all.subrange(from, from + old(ch)@[i].len()));
    }
    if any_ready(old(ch)@) {
        let j = choose|j: int| 0 <= j < old(ch)@.len() && (#[trigger] old(ch)@[j]).len() > 0;
        lemma_joined_holds(old(ch)@, old(ch)@.len() as int, j);
    }
}

/// One pass of `MpscConsumer::recv_batch_async` takes everything in flight, shut down
/// or not, and says how much that was; only when that is nothing it says that the
/// channel has ended, iff it has, or waits.
pub proof fn mpsc_recv_batch_async_delivers_before_the_end<T, const CAP: usize, W: AsyncWaiter>(
    rx: &mut MpscConsumer<T, CAP, W>,
    ch: &mut Mpsc<T, CAP, W>,
    out: &mut Vec<T>,
    r: Step<Result<usize, Shutdown>, ()>,
    i: int,
)
    requires
        old(rx).wf(*old(ch)),
        call_ensures(MpscConsumer::<T, CAP, W>::recv_batch_async, (rx, ch, out), r),
    ensures
        0 <= i < old(ch)@.len() && old(ch)@[i].len() > 0 ==> r is Done && r->Done_0 is Ok,
        r matches Step::Done(Ok(n)) ==> n == count(old(ch)@, old(ch)@.len() as int) && n > 0,
        r matches Step::Done(Err(_)) ==> {
            &&& old(ch).shutdown || old(ch).live_producers == 0
            &&& count(old(ch)@, old(ch)@.len() as int) == 0
        },
        r is Wait ==> !old(ch).shutdown && old(ch).live_producers > 0 && count(
            old(ch)@,
            old(ch)@.len() as int,
        ) == 0,
        final(out)@.len() == old(out)@.len() + count(old(ch)@, old(ch)@.len() as int),
        forall|k: int| 0 <= k < old(out)@.len() ==> #[trigger] final(out)@[k] == old(out)@[k],
        0 <= i < old(ch)@.len() ==> {
            let from = old(out)@.len() + count(old(ch)@, i);
            final(out)@.subrange(from as int, from + old(ch)@[i].len()) == old(ch)@[i]
        },
        forall|j: int| 0 <= j < final(ch)@.len() ==> (#[trigger] final(ch)@[j]).len() == 0,
        final(ch)@.len() == old(ch)@.len(),
        0 <= i < old(ch)@.len() ==> final(ch).producer_waiters@[i] == (if old(ch)@[i].len() > 0 {
            old(ch).producer_waiters@[i].woken()
        } else {
            old(ch).producer_waiters@[i]
        }),
        final(ch).shutdown == old(ch).shutdown,
        final(ch).live_producers == old(ch).live_producers,
{
    let all = joined(old(ch)@, old(ch)@.len() as int);
    lemma_count(old(ch)@, old(ch)@.len() as int);
    if 0 <= i < old(ch)@.len() {
        lemma_count(old(ch)@, i);
        lemma_joined_holds(old(ch)@, old(ch)@.len() as int, i);
        let from = count(old(ch)@, i);
        assert(final(out)@.subrange(
            old(out)@.len() + from,
            old(out)@.len() + from + old(ch)@[i].len(),
        ) =~= all.subrange(from, from + old(ch)@[i].len()));
    }
    if any_ready(old(ch)@) {
        let j = choose|j: int| 0 <= j < old(ch)@.len() && (#[trigger] old(ch)@[j]).len() > 0;
        lemma_joined_holds(old(ch)@, old(ch)@.len() as int, j);
    }
}

/// One pass of `MpscConsumer::recv_batch_async_send` takes everything in flight, shut down
/// or not, and says how much that was; only when that is nothing it says that the
/// channel has ended, iff it has, or waits.
pub proof fn mpsc_recv_batch_async_send_delivers_before_the_end<T, const CAP: usize>(
    rx: &mut MpscConsumer<T, CAP, NotifyWaiter>,
    ch: &mut Mpsc<T, CAP, NotifyWaiter>,
    out: &mut Vec<T>,
    r: Step<Result<usize, Shutdown>, ()>,
    i: int,
)
    requires
        old(rx).wf(*old(ch)),
        call_ensures(MpscConsumer::<T, CAP, NotifyWaiter>::recv_batch_async_send, (rx, ch, out), r),
    ensures
        0 <= i < old(ch)@.len() && old(ch)@[i].len() > 0 ==> r is Done && r->Done_0 is Ok,
        r matches Step::Done(Ok(n)) ==> n == count(old(ch)@, old(ch)@.len() as int) && n > 0,
        r matches Step::Done(Err(_)) ==> {
            &&& old(ch).shutdown || old(ch).live_producers == 0
            &&& count(old(ch)@, old(ch)@.len() as int) == 0
        },
        r is Wait ==> !old(ch).shutdown && old(ch).live_producers > 0 && count(
            old(ch)@,
            old(ch)@.len() as int,
        ) == 0,
        final(out)@.len() == old(out)@.len() + count(old(ch)@, old(ch)@.len() as int),
        forall|k: int| 0 <= k < old(out)@.len() ==> #[trigger] final(out)@[k] == old(out)@[k],
        0 <= i < old(ch)@.len() ==> {
            let from = old(out)@.len() + count(old(ch)@, i);
            final(out)@.subrange(from as int, from + old(ch)@[i].len()) == old(ch)@[i]
        },
        forall|j: int| 0 <= j < final(ch)@.len() ==> (#[trigger] final(ch)@[j]).len() == 0,
        final(ch)@.len() == old(ch)@.len(),
        0 <= i < old(ch)@.len() ==> final(ch).producer_waiters@[i] == (if old(ch)@[i].len() > 0 {
            old(ch).producer_waiters@[i].woken()
        } else {
            old(ch).producer_waiters@[i]
        }),
        final(ch).shutdown == old(ch).shutdown,
        final(ch).live_producers == old(ch).live_producers,
{
    let all = joined(old(ch)@, old(ch)@.len() as int);
    lemma_count(old(ch)@, old(ch)@.len() as int);
    if 0 <= i < old(ch)@.len() {
        lemma_count(old(ch)@, i);
        lemma_joined_holds(old(ch)@, old(ch)@.len() as int, i);
        let from = count(old(ch)@, i);
        assert(final(out)@.subrange(
            old(out)@.len() + from,
            old(out)@.len() + from + old(ch)@[i].len(),
        ) =~= all.subrange(from, from + old(ch)@[i].len()));
    }
    if any_ready(old(ch)@) {
        let j = choose|j: int| 0 <= j < old(ch)@.len() && (#[trigger] old(ch)@[j]).len() > 0;
        lemma_joined_holds(old(ch)@, old(ch)@.len() as int, j);
    }
}

/// A blocked consumer of an [`Mpsc`] is told to go on iff its next pass does not
/// wait: there is an item, or the channel has ended.
pub proof fn mpsc_can_recv_iff_a_pass_ends<T, const CAP: usize, W: BlockingWaiter>(
    rx: &mut MpscConsumer<T, CAP, W>,
    ch: &mut Mpsc<T, CAP, W>,
    can: bool,
    r: Step<Result<T, Shutdown>, ()>,
)
    requires
        old(rx).wf(*old(ch)),
        call_ensures(Mpsc::<T, CAP, W>::can_recv, (&*old(ch),), can),
        call_ensures(MpscConsumer::<T, CAP, W>::recv, (rx, ch), r),
    ensures
        r is Wait <==> !can,
{
    if any_ready(old(ch)@) {
        let j = choose|j: int| 0 <= j < old(ch)@.len() && (#[trigger] old(ch)@[j]).len() > 0;
        assert(old(ch)@[j].len() > 0);
    } else {
        assert forall|j: int| 0 <= j < old(ch)@.len() implies (#[trigger] old(ch)@[j]).len() == 0 by {}
    }
}

/// A shutdown of an [`Mpsc`] is there for everybody to see, wakes the consumer and
/// every producer, and leaves what is in flight.
pub proof fn mpsc_shutdown_wakes_everybody<T, const CAP: usize, W: Waiter>(
    handle: &MpscShutdown<W>,
    ch: &mut Mpsc<T, CAP, W>,
    after: bool,
)
    requires
        old(ch).wf(),
        call_ensures(MpscShutdown::<W>::signal::<T, CAP>, (handle, ch), ()),
        call_ensures(MpscShutdown::<W>::is_signaled::<T, CAP>, (handle, &*final(ch)), after),
    ensures
        after,
        final(ch).shutdown,
        final(ch)@ == old(ch)@,
        final(ch).fanin_waiter == old(ch).fanin_waiter.woken(),
        forall|i: int|
            0 <= i < old(ch).producer_waiters@.len() ==> #[trigger] final(ch).producer_waiters@[i]
                == old(ch).producer_waiters@[i].woken(),
        final(ch).live_producers == old(ch).live_producers,
{
    assert(final(ch)@ =~= old(ch)@);
}

/// A producer of an [`Mpsc`] that goes is counted out; what it has sent stays, and
/// the consumer is woken iff it was the last.
pub proof fn mpsc_producer_that_goes_is_counted_out<T, const CAP: usize, W: Waiter>(
    tx: MpscProducer<T, CAP, W>,
    ch: &mut Mpsc<T, CAP, W>,
)
    requires
        tx.wf(*old(ch)),
        call_ensures(MpscProducer::<T, CAP, W>::close, (tx, ch), ()),
    ensures
        final(ch).live_producers == old(ch).live_producers - 1,
        final(ch)@ == old(ch)@,
        final(ch).rings@[tx.idx()].closed,
        final(ch).shutdown == old(ch).shutdown,
        final(ch).fanin_waiter == (if old(ch).live_producers == 1 {
            old(ch).fanin_waiter.woken()
        } else {
            old(ch).fanin_waiter
        }),
{
}

/// When the consumer of an [`Mpsc`] goes, every ring is closed and what is in
/// flight stays.
pub proof fn mpsc_consumer_that_goes_closes_every_ring<T, const CAP: usize, W: Waiter>(
    rx: MpscConsumer<T, CAP, W>,
    ch: &mut Mpsc<T, CAP, W>,
)
    requires
        rx.wf(*old(ch)),
        call_ensures(MpscConsumer::<T, CAP, W>::close, (rx, ch), ()),
    ensures
        final(ch)@ == old(ch)@,
        forall|i: int| 0 <= i < final(ch).rings@.len() ==> (#[trigger] final(ch).rings@[i]).closed,
        final(ch).rings@.len() == old(ch).rings@.len(),
        final(ch).shutdown == old(ch).shutdown,
{
}

/// A new [`Mpsc`] has the producers asked for, each with an empty ring of its own,
/// and is open.
pub proof fn mpsc_starts_empty<T, const CAP: usize, W: Waiter>(
    m: usize,
    r: (Mpsc<T, CAP, W>, Vec<MpscProducer<T, CAP, W>>, MpscConsumer<T, CAP, W>, MpscShutdown<W>),
)
    requires
        call_ensures(Mpsc::<T, CAP, W>::new, (m,), r),
    ensures
        r.0@.len() == m,
        forall|i: int| 0 <= i < m ==> (#[trigger] r.0@[i]).len() == 0,
        !r.0.shutdown,
        r.0.live_producers == m,
        r.1@.len() == m,
        forall|i: int| 0 <= i < m ==> (#[trigger] r.1@[i]).idx() == i && r.1@[i].wf(r.0),
        r.2.wf(r.0),
{
}

/// `Mpsc2Producer::try_send` accepts a value iff the channel is not shut down
/// and the producer's ring has room. The value then goes behind everything else
/// in that ring, no other ring changes, and the consumer is woken iff that ring was empty.
/// Otherwise it comes back and nothing in flight changes.
pub proof fn mpsc2_try_send_appends_or_gives_back<T, const CAP: usize, W: Waiter>(
    tx: &mut Mpsc2Producer<T, CAP, W>,
    ch: &mut Mpsc2<T, CAP, W>,
    value: T,
    r: Result<(), T>,
)
    requires
        old(tx).wf(*old(ch)),
        call_ensures(Mpsc2Producer::<T, CAP, W>::try_send, (tx, ch, value), r),
    ensures
        r is Ok <==> !old(ch).inner.shutdown && old(ch)@[old(tx).idx()].len() < CAP,
        r is Ok ==> {
            &&& final(ch)@.len() == old(ch)@.len()
            &&& final(ch)@[old(tx).idx()].len() == old(ch)@[old(tx).idx()].len() + 1
            &&& final(ch)@[old(tx).idx()].last() == value
            &&& forall|k: int|
                0 <= k < old(ch)@[old(tx).idx()].len() ==> #[trigger] final(ch)@[old(tx).idx()][k]
                    == old(ch)@[old(tx).idx()][k]
            &&& forall|i: int| 0 <= i < old(ch)@.len() && i != old(tx).idx() ==> #[trigger] final(ch)@[i] == old(ch)@[i]
            &&& final(ch).inner.fanin_waiter == (if old(ch)@[old(tx).idx()].len() == 0 {
                old(ch).inner.fanin_waiter.woken()
            } else {
                old(ch).inner.fanin_waiter
            })
        },
        r matches Err(v) ==> {
            &&& v == value
            &&& final(ch)@ == old(ch)@
            &&& final(ch).inner.fanin_waiter == old(ch).inner.fanin_waiter
        },
        final(ch).inner.shutdown == old(ch).inner.shutdown,
        final(ch).inner.live_producers == old(ch).inner.live_producers,
        final(tx).idx() == old(tx).idx(),
{
    assert(final(ch)@ =~= old(ch)@ || r is Ok) by {
        if r is Err {
            assert(old(ch)@[old(tx).idx()] + Seq::<T>::empty() =~= old(ch)@[old(tx).idx()]);
        }
    }
}

/// One pass of `Mpsc2Producer::send` ends iff the channel is shut down or
/// the producer's ring has room. Without a shutdown an
/// ended pass with room has put the value behind everything else in the ring; with
/// one, nothing is sent, full or not. A pass that waits keeps the value.
pub proof fn mpsc2_send_ends_on_room_or_shutdown<T, const CAP: usize, W: BlockingWaiter>(
    tx: &mut Mpsc2Producer<T, CAP, W>,
    ch: &mut Mpsc2<T, CAP, W>,
    value: T,
    r: Step<(), T>,
)
    requires
        old(tx).wf(*old(ch)),
        call_ensures(Mpsc2Producer::<T, CAP, W>::send, (tx, ch, value), r),
    ensures
        r is Done <==> old(ch).inner.shutdown || old(ch)@[old(tx).idx()].len() < CAP,
        old(ch).inner.shutdown ==> r is Done && final(ch)@ == old(ch)@,
        !old(ch).inner.shutdown && old(ch)@[old(tx).idx()].len() < CAP ==> {
            &&& r is Done
            &&& final(ch)@.len() == old(ch)@.len()
            &&& final(ch)@[old(tx).idx()].len() == old(ch)@[old(tx).idx()].len() + 1
            &&& final(ch)@[old(tx).idx()].last() == value
            &&& forall|k: int|
                0 <= k < old(ch)@[old(tx).idx()].len() ==> #[trigger] final(ch)@[old(tx).idx()][k]
                    == old(ch)@[old(tx).idx()][k]
            &&& forall|i: int| 0 <= i < old(ch)@.len() && i != old(tx).idx() ==> #[trigger] final(ch)@[i] == old(ch)@[i]
            &&& final(ch).inner.fanin_waiter == (if old(ch)@[old(tx).idx()].len() == 0 {
                old(ch).inner.fanin_waiter.woken()
            } else {
                old(ch).inner.fanin_waiter
            })
        },
        old(ch)@[old(tx).idx()].len() >= CAP ==> final(ch)@ == old(ch)@ && final(ch).inner.fanin_waiter == old(ch).inner.fanin_waiter,
        r matches Step::Wait(v) ==> v == value,
        final(ch).inner.shutdown == old(ch).inner.shutdown,
        final(ch).inner.live_producers == old(ch).inner.live_producers,
        final(tx).idx() == old(tx).idx(),
{
    assert(old(ch)@[old(tx).idx()] + Seq::<T>::empty() =~= old(ch)@[old(tx).idx()]);
    assert(old(ch)@.update(old(tx).idx(), old(ch)@[old(tx).idx()]) =~= old(ch)@);
}

/// One pass of `Mpsc2Producer::send_async` ends iff the channel is shut down or
/// the producer's ring has room. Without a shutdown an
/// ended pass with room has put the value behind everything else in the ring; with
/// one, nothing is sent, full or not. A pass that waits keeps the value.
pub proof fn mpsc2_send_async_ends_on_room_or_shutdown<T, const CAP: usize, W: AsyncWaiter>(
    tx: &mut Mpsc2Producer<T, CAP, W>,
    ch: &mut Mpsc2<T, CAP, W>,
    value: T,
    r: Step<(), T>,
)
    requires
        old(tx).wf(*old(ch)),
        call_ensures(Mpsc2Producer::<T, CAP, W>::send_async, (tx, ch, value), r),
    ensures
        r is Done <==> old(ch).inner.shutdown || old(ch)@[old(tx).idx()].len() < CAP,
        old(ch).inner.shutdown ==> r is Done && final(ch)@ == old(ch)@,
        !old(ch).inner.shutdown && old(ch)@[old(tx).idx()].len() < CAP ==> {
            &&& r is Done
            &&& final(ch)@.len() == old(ch)@.len()
            &&& final(ch)@[old(tx).idx()].len() == old(ch)@[old(tx).idx()].len() + 1
            &&& final(ch)@[old(tx).idx()].last() == value
            &&& forall|k: int|
                0 <= k < old(ch)@[old(tx).idx()].len() ==> #[trigger] final(ch)@[old(tx).idx()][k]
                    == old(ch)@[old(tx).idx()][k]
            &&& forall|i: int| 0 <= i < old(ch)@.len() && i != old(tx).idx() ==> #[trigger] final(ch)@[i] == old(ch)@[i]
            &&& final(ch).inner.fanin_waiter == (if old(ch)@[old(tx).idx()].len() == 0 {
                old(ch).inner.fanin_waiter.woken()
            } else {
                old(ch).inner.fanin_waiter
            })
        },
        old(ch)@[old(tx).idx()].len() >= CAP ==> final(ch)@ == old(ch)@ && final(ch).inner.fanin_waiter == old(ch).inner.fanin_waiter,
        r matches Step::Wait(v) ==> v == value,
        final(ch).inner.shutdown == old(ch).inner.shutdown,
        final(ch).inner.live_producers == old(ch).inner.live_producers,
        final(tx).idx() == old(tx).idx(),
{
    assert(old(ch)@[old(tx).idx()] + Seq::<T>::empty() =~= old(ch)@[old(tx).idx()]);
    assert(old(ch)@.update(old(tx).idx(), old(ch)@[old(tx).idx()]) =~= old(ch)@);
}

/// One pass of `Mpsc2Producer::send_async_send` ends iff the channel is shut down or
/// the producer's ring has room, or nobody is left to make any. Without a shutdown an
/// ended pass with room has put the value behind everything else in the ring; with
/// one, nothing is sent, full or not. A pass that waits keeps the value.
pub proof fn mpsc2_send_async_send_ends_on_room_or_shutdown<T, const CAP: usize>(
    tx: &mut Mpsc2Producer<T, CAP, NotifyWaiter>,
    ch: &mut Mpsc2<T, CAP, NotifyWaiter>,
    value: T,
    r: Step<(), T>,
)
    requires
        old(tx).wf(*old(ch)),
        call_ensures(Mpsc2Producer::<T, CAP, NotifyWaiter>::send_async_send, (tx, ch, value), r),
    ensures
        r is Done <==> old(ch).inner.shutdown || old(ch)@[old(tx).idx()].len() < CAP || old(ch).inner.rings@[old(tx).idx()].closed,
        old(ch).inner.shutdown ==> r is Done && final(ch)@ == old(ch)@,
        !old(ch).inner.shutdown && old(ch)@[old(tx).idx()].len() < CAP ==> {
            &&& r is Done
            &&& final(ch)@.len() == old(ch)@.len()
            &&& final(ch)@[old(tx).idx()].len() == old(ch)@[old(tx).idx()].len() + 1
            &&& final(ch)@[old(tx).idx()].last() == value
            &&& forall|k: int|
                0 <= k < old(ch)@[old(tx).idx()].len() ==> #[trigger] final(ch)@[old(tx).idx()][k]
                    == old(ch)@[old(tx).idx()][k]
            &&& forall|i: int| 0 <= i < old(ch)@.len() && i != old(tx).idx() ==> #[trigger] final(ch)@[i] == old(ch)@[i]
            &&& final(ch).inner.fanin_waiter == (if old(ch)@[old(tx).idx()].len() == 0 {
                old(ch).inner.fanin_waiter.woken()
            } else {
                old(ch).inner.fanin_waiter
            })
        },
        old(ch)@[old(tx).idx()].len() >= CAP ==> final(ch)@ == old(ch)@ && final(ch).inner.fanin_waiter == old(ch).inner.fanin_waiter,
        r matches Step::Wait(v) ==> v == value,
        final(ch).inner.shutdown == old(ch).inner.shutdown,
        final(ch).inner.live_producers == old(ch).inner.live_producers,
        final(tx).idx() == old(tx).idx(),
{
    assert(old(ch)@[old(tx).idx()] + Seq::<T>::empty() =~= old(ch)@[old(tx).idx()]);
    assert(old(ch)@.update(old(tx).idx(), old(ch)@[old(tx).idx()]) =~= old(ch)@);
}

/// A producer that is told to go on does not wait again: no pass of
/// `{nm}` waits while `can_send` holds, and every pass waits while it does
/// not.
pub proof fn mpsc2_send_does_not_wait_when_called<T, const CAP: usize, W: BlockingWaiter>(
    tx: &mut Mpsc2Producer<T, CAP, W>,
    ch: &mut Mpsc2<T, CAP, W>,
    value: T,
    can: bool,
    r: Step<(), T>,
)
    requires
        old(tx).wf(*old(ch)),
        call_ensures(Mpsc2Producer::<T, CAP, W>::can_send, (&*old(tx), &*old(ch)), can),
        call_ensures(Mpsc2Producer::<T, CAP, W>::send, (tx, ch, value), r),
    ensures
        r is Wait <==> !can,
{
}

/// A producer that is told to go on does not wait again: no pass of
/// `{nm}` waits while `can_send` holds, and every pass waits while it does
/// not.
pub proof fn mpsc2_send_async_does_not_wait_when_called<T, const CAP: usize, W: AsyncWaiter>(
    tx: &mut Mpsc2Producer<T, CAP, W>,
    ch: &mut Mpsc2<T, CAP, W>,
    value: T,
    can: bool,
    r: Step<(), T>,
)
    requires
        old(tx).wf(*old(ch)),
        call_ensures(Mpsc2Producer::<T, CAP, W>::can_send, (&*old(tx), &*old(ch)), can),
        call_ensures(Mpsc2Producer::<T, CAP, W>::send_async, (tx, ch, value), r),
    ensures
        r is Wait <==> !can,
{
}

/// `Mpsc2Producer::try_send_bulk` moves as much as it can: without a shutdown,
/// as many items as are offered or as the producer knows of room for, whichever
/// is less; after one, none. They are taken from the end of the list and go
/// behind everything else in the producer's ring; no other ring changes.
pub proof fn mpsc2_bulk_send_moves_all_that_fits<T, const CAP: usize, W: Waiter>(
    tx: &mut Mpsc2Producer<T, CAP, W>,
    ch: &mut Mpsc2<T, CAP, W>,
    items: &mut Vec<T>,
    n: usize,
)
    requires
        old(tx).wf(*old(ch)),
        call_ensures(Mpsc2Producer::<T, CAP, W>::try_send_bulk, (tx, ch, items), n),
    ensures
        n <= old(items)@.len(),
        old(ch)@[old(tx).idx()].len() + n <= CAP,
        old(ch).inner.shutdown ==> n == 0,
        !old(ch).inner.shutdown && n < old(items)@.len() ==> n == CAP - (if old(tx).used(*old(ch)) < CAP {
            old(tx).used(*old(ch))
        } else {
            old(ch)@[old(tx).idx()].len() as int
        }),
        !old(ch).inner.shutdown && old(items)@.len() > 0 && old(ch)@[old(tx).idx()].len() < CAP ==> n > 0,
        final(items)@.len() == old(items)@.len() - n,
        forall|k: int|
            0 <= k < final(items)@.len() ==> #[trigger] final(items)@[k] == old(items)@[k],
        final(ch)@.len() == old(ch)@.len(),
        final(ch)@[old(tx).idx()].len() == old(ch)@[old(tx).idx()].len() + n,
        forall|k: int|
            0 <= k < old(ch)@[old(tx).idx()].len() ==> #[trigger] final(ch)@[old(tx).idx()][k]
                == old(ch)@[old(tx).idx()][k],
        forall|k: int|
            0 <= k < n ==> final(ch)@[old(tx).idx()][old(ch)@[old(tx).idx()].len() + k]
                == #[trigger] old(items)@[old(items)@.len() - 1 - k],
        forall|i: int|
            0 <= i < old(ch)@.len() && i != old(tx).idx() ==> #[trigger] final(ch)@[i] == old(ch)@[i],
        final(ch).inner.fanin_waiter == (if n > 0 && old(ch)@[old(tx).idx()].len() == 0 {
            old(ch).inner.fanin_waiter.woken()
        } else {
            old(ch).inner.fanin_waiter
        }),
        final(ch).inner.shutdown == old(ch).inner.shutdown,
        final(ch).inner.live_producers == old(ch).inner.live_producers,
        final(tx).idx() == old(tx).idx(),
{
}

/// `Mpsc2Consumer::try_recv` hands out the oldest item of the first ring that
/// has any, and wakes its producer; `None` iff nothing is in flight.
pub proof fn mpsc2_try_recv_takes_the_oldest_of_a_ring<T, const CAP: usize, W: Waiter>(
    rx: &mut Mpsc2Consumer<T, CAP, W>,
    ch: &mut Mpsc2<T, CAP, W>,
    r: Option<T>,
)
    requires
        old(rx).wf(*old(ch)),
        call_ensures(Mpsc2Consumer::<T, CAP, W>::try_recv, (rx, ch), r),
    ensures
        r is None <==> forall|i: int| 0 <= i < old(ch)@.len() ==> (#[trigger] old(ch)@[i]).len() == 0,
        r matches Some(v) ==> exists|p: int|
            #![trigger old(ch)@[p]]
            {
                &&& 0 <= p < old(ch)@.len()
                &&& old(ch)@[p].len() > 0
                &&& v == old(ch)@[p][0]
                &&& final(ch)@ == old(ch)@.update(p, old(ch)@[p].drop_first())
                &&& forall|j: int| 0 <= j < p ==> (#[trigger] old(ch)@[j]).len() == 0
                &&& final(ch).inner.producer_waiters@ == old(ch).inner.producer_waiters@.update(
                    p,
                    old(ch).inner.producer_waiters@[p].woken(),
                )
            },
        r is None ==> final(ch)@ == old(ch)@,
        final(ch).inner.shutdown == old(ch).inner.shutdown,
        final(ch).inner.live_producers == old(ch).inner.live_producers,
{
    lemma_first_nonempty(old(ch)@, 0);
    let p = first_nonempty(old(ch)@, 0);
    assert(old(ch)@[p].len() > 0 || p == old(ch)@.len());
}

/// One pass of `Mpsc2Consumer::recv` delivers before it ends: while any ring
/// holds an item, shut down or not, it hands out the oldest item of the first
/// such ring; it says that the channel has ended iff nothing is in flight and the
/// channel is shut down or every producer is gone; otherwise it waits.
pub proof fn mpsc2_recv_delivers_before_the_end<T, const CAP: usize, W: BlockingWaiter>(
    rx: &mut Mpsc2Consumer<T, CAP, W>,
    ch: &mut Mpsc2<T, CAP, W>,
    r: Step<Result<T, Shutdown>, ()>,
)
    requires
        old(rx).wf(*old(ch)),
        call_ensures(Mpsc2Consumer::<T, CAP, W>::recv, (rx, ch), r),
    ensures
        forall|i: int|
            0 <= i < old(ch)@.len() && (#[trigger] old(ch)@[i]).len() > 0 ==> r is Done && r->Done_0 is Ok,
        r matches Step::Done(Ok(v)) ==> exists|p: int|
            #![trigger old(ch)@[p]]
            {
                &&& 0 <= p < old(ch)@.len()
                &&& old(ch)@[p].len() > 0
                &&& v == old(ch)@[p][0]
                &&& final(ch)@ == old(ch)@.update(p, old(ch)@[p].drop_first())
                &&& forall|j: int| 0 <= j < p ==> (#[trigger] old(ch)@[j]).len() == 0
                &&& final(ch).inner.producer_waiters@ == old(ch).inner.producer_waiters@.update(
                    p,
                    old(ch).inner.producer_waiters@[p].woken(),
                )
            },
        r matches Step::Done(Err(_)) ==> {
            &&& old(ch).inner.shutdown || old(ch).inner.live_producers == 0
            &&& forall|i: int| 0 <= i < old(ch)@.len() ==> (#[trigger] old(ch)@[i]).len() == 0
        },
        r is Wait ==> !old(ch).inner.shutdown && old(ch).inner.live_producers > 0,
        !(r is Done && r->Done_0 is Ok) ==> final(ch)@ == old(ch)@,
        final(ch).inner.shutdown == old(ch).inner.shutdown,
        final(ch).inner.live_producers == old(ch).inner.live_producers,
{
    lemma_first_nonempty(old(ch)@, 0);
    let p = first_nonempty(old(ch)@, 0);
    assert(old(ch)@[p].len() > 0 || p == old(ch)@.len());
}

/// When `Mpsc2Consumer::recv` says that the channel has ended, everything
/// that was ever accepted of every producer has been delivered.
pub proof fn mpsc2_recv_ends_after_everything_was_delivered<T, const CAP: usize, W: BlockingWaiter>(
    rx: &mut Mpsc2Consumer<T, CAP, W>,
    ch: &mut Mpsc2<T, CAP, W>,
    r: Step<Result<T, Shutdown>, ()>,
    ops: Seq<FanInOp<T>>,
    i: int,
)
    requires
        old(rx).wf(*old(ch)),
        CAP > 0,
        0 <= i < old(ch)@.len(),
        tells_of(run_fan_in(old(ch)@.len(), CAP as int, ops), old(ch).inner),
        call_ensures(Mpsc2Consumer::<T, CAP, W>::recv, (rx, ch), r),
        r is Done,
        r->Done_0 is Err,
    ensures
        run_fan_in(old(ch)@.len(), CAP as int, ops).delivered[i] == run_fan_in(
            old(ch)@.len(),
            CAP as int,
            ops,
        ).accepted[i],
{
    let h = run_fan_in(old(ch)@.len(), CAP as int, ops);
    crate::route::fanin::fan_in_keeps_each_producers_order(
        old(ch)@.len(),
        CAP as int,
        ops,
        i,
    );
    assert(old(ch)@[i].len() == 0);
    assert(h.delivered[i] + h.queues[i] =~= h.delivered[i]);
}

/// One pass of `Mpsc2Consumer::recv_async` delivers before it ends: while any ring
/// holds an item, shut down or not, it hands out the oldest item of the first
/// such ring; it says that the channel has ended iff nothing is in flight and the
/// channel is shut down or every producer is gone; otherwise it waits.
pub proof fn mpsc2_recv_async_delivers_before_the_end<T, const CAP: usize, W: AsyncWaiter>(
    rx: &mut Mpsc2Consumer<T, CAP, W>,
    ch: &mut Mpsc2<T, CAP, W>,
    r: Step<Result<T, Shutdown>, ()>,
)
    requires
        old(rx).wf(*old(ch)),
        call_ensures(Mpsc2Consumer::<T, CAP, W>::recv_async, (rx, ch), r),
    ensures
        forall|i: int|
            0 <= i < old(ch)@.len() && (#[trigger] old(ch)@[i]).len() > 0 ==> r is Done && r->Done_0 is Ok,
        r matches Step::Done(Ok(v)) ==> exists|p: int|
            #![trigger old(ch)@[p]]
            {
                &&& 0 <= p < old(ch)@.len()
                &&& old(ch)@[p].len() > 0
                &&& v == old(ch)@[p][0]
                &&& final(ch)@ == old(ch)@.update(p, old(ch)@[p].drop_first())
                &&& forall|j: int| 0 <= j < p ==> (#[trigger] old(ch)@[j]).len() == 0
                &&& final(ch).inner.producer_waiters@ == old(ch).inner.producer_waiters@.update(
                    p,
                    old(ch).inner.producer_waiters@[p].woken(),
                )
            },
        r matches Step::Done(Err(_)) ==> {
            &&& old(ch).inner.shutdown || old(ch).inner.live_producers == 0
            &&& forall|i: int| 0 <= i < old(ch)@.len() ==> (#[trigger] old(ch)@[i]).len() == 0
        },
        r is Wait ==> !old(ch).inner.shutdown && old(ch).inner.live_producers > 0,
        !(r is Done && r->Done_0 is Ok) ==> final(ch)@ == old(ch)@,
        final(ch).inner.shutdown == old(ch).inner.shutdown,
        final(ch).inner.live_producers == old(ch).inner.live_producers,
{
    lemma_first_nonempty(old(ch)@, 0);
    let p = first_nonempty(old(ch)@, 0);
    assert(old(ch)@[p].len() > 0 || p == old(ch)@.len());
}

/// When `Mpsc2Consumer::recv_async` says that the channel has ended, everything
/// that was ever accepted of every producer has been delivered.
pub proof fn mpsc2_recv_async_ends_after_everything_was_delivered<T, const CAP: usize, W: AsyncWaiter>(
    rx: &mut Mpsc2Consumer<T, CAP, W>,
    ch: &mut Mpsc2<T, CAP, W>,
    r: Step<Result<T, Shutdown>, ()>,
    ops: Seq<FanInOp<T>>,
    i: int,
)
    requires
        old(rx).wf(*old(ch)),
        CAP > 0,
        0 <= i < old(ch)@.len(),
        tells_of(run_fan_in(old(ch)@.len(), CAP as int, ops), old(ch).inner),
        call_ensures(Mpsc2Consumer::<T, CAP, W>::recv_async, (rx, ch), r),
        r is Done,
        r->Done_0 is Err,
    ensures
        run_fan_in(old(ch)@.len(), CAP as int, ops).delivered[i] == run_fan_in(
            old(ch)@.len(),
            CAP as int,
            ops,
        ).accepted[i],
{
    let h = run_fan_in(old(ch)@.len(), CAP as int, ops);
    crate::route::fanin::fan_in_keeps_each_producers_order(
        old(ch)@.len(),
        CAP as int,
        ops,
        i,
    );
    assert(old(ch)@[i].len() == 0);
    assert(h.delivered[i] + h.queues[i] =~= h.delivered[i]);
}

/// One pass of `Mpsc2Consumer::recv_async_send` delivers before it ends: while any ring
/// holds an item, shut down or not, it hands out the oldest item of the first
/// such ring; it says that the channel has ended iff nothing is in flight and the
/// channel is shut down or every producer is gone; otherwise it waits.
pub proof fn mpsc2_recv_async_send_delivers_before_the_end<T, const CAP: usize>(
    rx: &mut Mpsc2Consumer<T, CAP, NotifyWaiter>,
    ch: &mut Mpsc2<T, CAP, NotifyWaiter>,
    r: Step<Result<T, Shutdown>, ()>,
)
    requires
        old(rx).wf(*old(ch)),
        call_ensures(Mpsc2Consumer::<T, CAP, NotifyWaiter>::recv_async_send, (rx, ch), r),
    ensures
        forall|i: int|
            0 <= i < old(ch)@.len() && (#[trigger] old(ch)@[i]).len() > 0 ==> r is Done && r->Done_0 is Ok,
        r matches Step::Done(Ok(v)) ==> exists|p: int|
            #![trigger old(ch)@[p]]
            {
                &&& 0 <= p < old(ch)@.len()
                &&& old(ch)@[p].len() > 0
                &&& v == old(ch)@[p][0]
                &&& final(ch)@ == old(ch)@.update(p, old(ch)@[p].drop_first())
                &&& forall|j: int| 0 <= j < p ==> (#[trigger] old(ch)@[j]).len() == 0
                &&& final(ch).inner.producer_waiters@ == old(ch).inner.producer_waiters@.update(
                    p,
                    old(ch).inner.producer_waiters@[p].woken(),
                )
            },
        r matches Step::Done(Err(_)) ==> {
            &&& old(ch).inner.shutdown || old(ch).inner.live_producers == 0
            &&& forall|i: int| 0 <= i < old(ch)@.len() ==> (#[trigger] old(ch)@[i]).len() == 0
        },
        r is Wait ==> !old(ch).inner.shutdown && old(ch).inner.live_producers > 0,
        !(r is Done && r->Done_0 is Ok) ==> final(ch)@ == old(ch)@,
        final(ch).inner.shutdown == old(ch).inner.shutdown,
        final(ch).inner.live_producers == old(ch).inner.live_producers,
{
    lemma_first_nonempty(old(ch)@, 0);
    let p = first_nonempty(old(ch)@, 0);
    assert(old(ch)@[p].len() > 0 || p == old(ch)@.len());
}

/// When `Mpsc2Consumer::recv_async_send` says that the channel has ended, everything
/// that was ever accepted of every producer has been delivered.
pub proof fn mpsc2_recv_async_send_ends_after_everything_was_delivered<T, const CAP: usize>(
    rx: &mut Mpsc2Consumer<T, CAP, NotifyWaiter>,
    ch: &mut Mpsc2<T, CAP, NotifyWaiter>,
    r: Step<Result<T, Shutdown>, ()>,
    ops: Seq<FanInOp<T>>,
    i: int,
)
    requires
        old(rx).wf(*old(ch)),
        CAP > 0,
        0 <= i < old(ch)@.len(),
        tells_of(run_fan_in(old(ch)@.len(), CAP as int, ops), old(ch).inner),
        call_ensures(Mpsc2Consumer::<T, CAP, NotifyWaiter>::recv_async_send, (rx, ch), r),
        r is Done,
        r->Done_0 is Err,
    ensures
        run_fan_in(old(ch)@.len(), CAP as int, ops).delivered[i] == run_fan_in(
            old(ch)@.len(),
            CAP as int,
            ops,
        ).accepted[i],
{
    let h = run_fan_in(old(ch)@.len(), CAP as int, ops);
    crate::route::fanin::fan_in_keeps_each_producers_order(
        old(ch)@.len(),
        CAP as int,
        ops,
        i,
    );
    assert(old(ch)@[i].len() == 0);
    assert(h.delivered[i] + h.queues[i] =~= h.delivered[i]);
}

/// `Mpsc2Consumer::try_recv_batch` takes everything in flight: the items of each
/// producer stand together and in their order, producer by producer, nothing is
/// left, and every producer that had items is woken.
pub proof fn mpsc2_batch_takes_everything_in_order<T, const CAP: usize, W: Waiter>(
    rx: &mut Mpsc2Consumer<T, CAP, W>,
    ch: &mut Mpsc2<T, CAP, W>,
    out: &mut Vec<T>,
    n: usize,
    i: int,
)
    requires
        old(rx).wf(*old(ch)),
        call_ensures(Mpsc2Consumer::<T, CAP, W>::try_recv_batch, (rx, ch, out), n),
    ensures
        n == count(old(ch)@, old(ch)@.len() as int),
        final(out)@.len() == old(out)@.len() + count(old(ch)@, old(ch)@.len() as int),
        forall|k: int| 0 <= k < old(out)@.len() ==> #[trigger] final(out)@[k] == old(out)@[k],
        0 <= i < old(ch)@.len() ==> {
            let from = old(out)@.len() + count(old(ch)@, i);
            final(out)@.subrange(from as int, from + old(ch)@[i].len()) == old(ch)@[i]
        },
        forall|j: int| 0 <= j < final(ch)@.len() ==> (#[trigger] final(ch)@[j]).len() == 0,
        final(ch)@.len() == old(ch)@.len(),
        0 <= i < old(ch)@.len() ==> final(ch).inner.producer_waiters@[i] == (if old(ch)@[i].len() > 0 {
            old(ch).inner.producer_waiters@[i].woken()
        } else {
            old(ch).inner.producer_waiters@[i]
        }),
        final(ch).inner.shutdown == old(ch).inner.shutdown,
        final(ch).inner.live_producers == old(ch).inner.live_producers,
{
    let all = joined(old(ch)@, old(ch)@.len() as int);
    lemma_count(old(ch)@, old(ch)@.len() as int);
    if 0 <= i < old(ch)@.len() {
        lemma_count(old(ch)@, i);
        lemma_joined_holds(old(ch)@, old(ch)@.len() as int, i);
        let from = count(old(ch)@, i);
        assert(final(out)@.subrange(
            old(out)@.len() + from,
            old(out)@.len() + from + old(ch)@[i].len(),
        ) =~= all.subrange(from, from + old(ch)@[i].len()));
    }
}

/// One pass of `Mpsc2Consumer::recv_batch` takes everything in flight, shut down
/// or not, and says how much that was; only when that is nothing it says that the
/// channel has ended, iff it has, or waits.
pub proof fn mpsc2_recv_batch_delivers_before_the_end<T, const CAP: usize, W: BlockingWaiter>(
    rx: &mut Mpsc2Consumer<T, CAP, W>,
    ch: &mut Mpsc2<T, CAP, W>,
    out: &mut Vec<T>,
    r: Step<Result<usize, Shutdown>, ()>,
    i: int,
)
    requires
        old(rx).wf(*old(ch)),
        call_ensures(Mpsc2Consumer::<T, CAP, W>::recv_batch, (rx, ch, out), r),
    ensures
        0 <= i < old(ch)@.len() && old(ch)@[i].len() > 0 ==> r is Done && r->Done_0 is Ok,
        r matches Step::Done(Ok(n)) ==> n == count(old(ch)@, old(ch)@.len() as int) && n > 0,
        r matches Step::Done(Err(_)) ==> {
            &&& old(ch).inner.shutdown || old(ch).inner.live_producers == 0
            &&& count(old(ch)@, old(ch)@.len() as int) == 0
        },
        r is Wait ==> !old(ch).inner.shutdown && old(ch).inner.live_producers > 0 && count(
            old(ch)@,
            old(ch)@.len() as int,
        ) == 0,
        final(out)@.len() == old(out)@.len() + count(old(ch)@, old(ch)@.len() as int),
        forall|k: int| 0 <= k < old(out)@.len() ==> #[trigger] final(out)@[k] == old(out)@[k],
        0 <= i < old(ch)@.len() ==> {
            let from = old(out)@.len() + count(old(ch)@, i);
            final(out)@.subrange(from as int, from + old(ch)@[i].len()) == old(ch)@[i]
        },
        forall|j: int| 0 <= j < final(ch)@.len() ==> (#[trigger] final(ch)@[j]).len() == 0,
        final(ch)@.len() == old(ch)@.len(),
        0 <= i < old(ch)@.len() ==> final(ch).inner.producer_waiters@[i] == (if old(ch)@[i].len() > 0 {
            old(ch).inner.producer_waiters@[i].woken()
        } else {
            old(ch).inner.producer_waiters@[i]
        }),
        final(ch).inner.shutdown == old(ch).inner.shutdown,
        final(ch).inner.live_producers == old(ch).inner.live_producers,
{
    let all = joined(old(ch)@, old(ch)@.len() as int);
    lemma_count(old(ch)@, old(ch)@.len() as int);
    if 0 <= i < old(ch)@.len() {
        lemma_count(old(ch)@, i);
        lemma_joined_holds(old(ch)@, old(ch)@.len() as int, i);
        let from = count(old(ch)@, i);
        assert(final(out)@.subrange(
            old(out)@.len() + from,
            old(out)@.len() + from + old(ch)@[i].len(),
        ) =~= all.subrange(from, from + old(ch)@[i].len()));
    }
    if any_ready(old(ch)@) {
        let j = choose|j: int| 0 <= j < old(ch)@.len() && (#[trigger] old(ch)@[j]).len() > 0;
        lemma_joined_holds(old(ch)@, old(ch)@.len() as int, j);
    }
}

/// One pass of `Mpsc2Consumer::recv_batch_async` takes everything in flight, shut down
/// or not, and says how much that was; only when that is nothing it says that the
/// channel has ended, iff it has, or waits.
pub proof fn mpsc2_recv_batch_async_delivers_before_the_end<T, const CAP: usize, W: AsyncWaiter>(
    rx: &mut Mpsc2Consumer<T, CAP, W>,
    ch: &mut Mpsc2<T, CAP, W>,
    out: &mut Vec<T>,
    r: Step<Result<usize, Shutdown>, ()>,
    i: int,
)
    requires
        old(rx).wf(*old(ch)),
        call_ensures(Mpsc2Consumer::<T, CAP, W>::recv_batch_async, (rx, ch, out), r),
    ensures
        0 <= i < old(ch)@.len() && old(ch)@[i].len() > 0 ==> r is Done && r->Done_0 is Ok,
        r matches Step::Done(Ok(n)) ==> n == count(old(ch)@, old(ch)@.len() as int) && n > 0,
        r matches Step::Done(Err(_)) ==> {
            &&& old(ch).inner.shutdown || old(ch).inner.live_producers == 0
            &&& count(old(ch)@, old(ch)@.len() as int) == 0
        },
        r is Wait ==> !old(ch).inner.shutdown && old(ch).inner.live_producers > 0 && count(
            old(ch)@,
            old(ch)@.len() as int,
        ) == 0,
        final(out)@.len() == old(out)@.len() + count(old(ch)@, old(ch)@.len() as int),
        forall|k: int| 0 <= k < old(out)@.len() ==> #[trigger] final(out)@[k] == old(out)@[k],
        0 <= i < old(ch)@.len() ==> {
            let from = old(out)@.len() + count(old(ch)@, i);
            final(out)@.subrange(from as int, from + old(ch)@[i].len()) == old(ch)@[i]
        },
        forall|j: int| 0 <= j < final(ch)@.len() ==> (#[trigger] final(ch)@[j]).len() == 0,
        final(ch)@.len() == old(ch)@.len(),
        0 <= i < old(ch)@.len() ==> final(ch).inner.producer_waiters@[i] == (if old(ch)@[i].len() > 0 {
            old(ch).inner.producer_waiters@[i].woken()
        } else {
            old(ch).inner.producer_waiters@[i]
        }),
        final(ch).inner.shutdown == old(ch).inner.shutdown,
        final(ch).inner.live_producers == old(ch).inner.live_producers,
{
    let all = joined(old(ch)@, old(ch)@.len() as int);
    lemma_count(old(ch)@, old(ch)@.len() as int);
    if 0 <= i < old(ch)@.len() {
        lemma_count(old(ch)@, i);
        lemma_joined_holds(old(ch)@, old(ch)@.len() as int, i);
        let from = count(old(ch)@, i);
        assert(final(out)@.subrange(
            old(out)@.len() + from,
            old(out)@.len() + from + old(ch)@[i].len(),
        ) =~= all.subrange(from, from + old(ch)@[i].len()));
    }
    if any_ready(old(ch)@) {
        let j = choose|j: int| 0 <= j < old(ch)@.len() && (#[trigger] old(ch)@[j]).len() > 0;
        lemma_joined_holds(old(ch)@, old(ch)@.len() as int, j);
    }
}

/// One pass of `Mpsc2Consumer::recv_batch_async_send` takes everything in flight, shut down
/// or not, and says how much that was; only when that is nothing it says that the
/// channel has ended, iff it has, or waits.
pub proof fn mpsc2_recv_batch_async_send_delivers_before_the_end<T, const CAP: usize>(
    rx: &mut Mpsc2Consumer<T, CAP, NotifyWaiter>,
    ch: &mut Mpsc2<T, CAP, NotifyWaiter>,
    out: &mut Vec<T>,
    r: Step<Result<usize, Shutdown>, ()>,
    i: int,
)
    requires
        old(rx).wf(*old(ch)),
        call_ensures(Mpsc2Consumer::<T, CAP, NotifyWaiter>::recv_batch_async_send, (rx, ch, out), r),
    ensures
        0 <= i < old(ch)@.len() && old(ch)@[i].len() > 0 ==> r is Done && r->Done_0 is Ok,
        r matches Step::Done(Ok(n)) ==> n == count(old(ch)@, old(ch)@.len() as int) && n > 0,
        r matches Step::Done(Err(_)) ==> {
            &&& old(ch).inner.shutdown || old(ch).inner.live_producers == 0
            &&& count(old(ch)@, old(ch)@.len() as int) == 0
        },
        r is Wait ==> !old(ch).inner.shutdown && old(ch).inner.live_producers > 0 && count(
            old(ch)@,
            old(ch)@.len() as int,
        ) == 0,
        final(out)@.len() == old(out)@.len() + count(old(ch)@, old(ch)@.len() as int),
        forall|k: int| 0 <= k < old(out)@.len() ==> #[trigger] final(out)@[k] == old(out)@[k],
        0 <= i < old(ch)@.len() ==> {
            let from = old(out)@.len() + count(old(ch)@, i);
            final(out)@.subrange(from as int, from + old(ch)@[i].len()) == old(ch)@[i]
        },
        forall|j: int| 0 <= j < final(ch)@.len() ==> (#[trigger] final(ch)@[j]).len() == 0,
        final(ch)@.len() == old(ch)@.len(),
        0 <= i < old(ch)@.len() ==> final(ch).inner.producer_waiters@[i] == (if old(ch)@[i].len() > 0 {
            old(ch).inner.producer_waiters@[i].woken()
        } else {
            old(ch).inner.producer_waiters@[i]
        }),
        final(ch).inner.shutdown == old(ch).inner.shutdown,
        final(ch).inner.live_producers == old(ch).inner.live_producers,
{
    let all = joined(old(ch)@, old(ch)@.len() as int);
    lemma_count(old(ch)@, old(ch)@.len() as int);
    if 0 <= i < old(ch)@.len() {
        lemma_count(old(ch)@, i);
        lemma_joined_holds(old(ch)@, old(ch)@.len() as int, i);
        let from = count(old(ch)@, i);
        assert(final(out)@.subrange(
            old(out)@.len() + from,
            old(out)@.len() + from + old(ch)@[i].len(),
        ) =~= all.subrange(from, from + old(ch)@[i].len()));
    }
    if any_ready(old(ch)@) {
        let j = choose|j: int| 0 <= j < old(ch)@.len() && (#[trigger] old(ch)@[j]).len() > 0;
        lemma_joined_holds(old(ch)@, old(ch)@.len() as int, j);
    }
}

/// A blocked consumer of an [`Mpsc2`] is told to go on iff its next pass does not
/// wait: there is an item, or the channel has ended.
pub proof fn mpsc2_can_recv_iff_a_pass_ends<T, const CAP: usize, W: BlockingWaiter>(
    rx: &mut Mpsc2Consumer<T, CAP, W>,
    ch: &mut Mpsc2<T, CAP, W>,
    can: bool,
    r: Step<Result<T, Shutdown>, ()>,
)
    requires
        old(rx).wf(*old(ch)),
        call_ensures(Mpsc2::<T, CAP, W>::can_recv, (&*old(ch),), can),
        call_ensures(Mpsc2Consumer::<T, CAP, W>::recv, (rx, ch), r),
    ensures
        r is Wait <==> !can,
{
    if any_ready(old(ch)@) {
        let j = choose|j: int| 0 <= j < old(ch)@.len() && (#[trigger] old(ch)@[j]).len() > 0;
        assert(old(ch)@[j].len() > 0);
    } else {
        assert forall|j: int| 0 <= j < old(ch)@.len() implies (#[trigger] old(ch)@[j]).len() == 0 by {}
    }
}

/// A shutdown of an [`Mpsc2`] is there for everybody to see, wakes the consumer and
/// every producer, and leaves what is in flight.
pub proof fn mpsc2_shutdown_wakes_everybody<T, const CAP: usize, W: Waiter>(
    handle: &Mpsc2Shutdown<W>,
    ch: &mut Mpsc2<T, CAP, W>,
    after: bool,
)
    requires
        old(ch).wf(),
        call_ensures(Mpsc2Shutdown::<W>::signal::<T, CAP>, (handle, ch), ()),
        call_ensures(Mpsc2Shutdown::<W>::is_signaled::<T, CAP>, (handle, &*final(ch)), after),
    ensures
        after,
        final(ch).inner.shutdown,
        final(ch)@ == old(ch)@,
        final(ch).inner.fanin_waiter == old(ch).inner.fanin_waiter.woken(),
        forall|i: int|
            0 <= i < old(ch).inner.producer_waiters@.len() ==> #[trigger] final(ch).inner.producer_waiters@[i]
                == old(ch).inner.producer_waiters@[i].woken(),
        final(ch).inner.live_producers == old(ch).inner.live_producers,
{
    assert(final(ch)@ =~= old(ch)@);
}

/// A producer of an [`Mpsc2`] that goes is counted out; what it has sent stays, and
/// the consumer is woken iff it was the last.
pub proof fn mpsc2_producer_that_goes_is_counted_out<T, const CAP: usize, W: Waiter>(
    tx: Mpsc2Producer<T, CAP, W>,
    ch: &mut Mpsc2<T, CAP, W>,
)
    requires
        tx.wf(*old(ch)),
        call_ensures(Mpsc2Producer::<T, CAP, W>::close, (tx, ch), ()),
    ensures
        final(ch).inner.live_producers == old(ch).inner.live_producers - 1,
        final(ch)@ == old(ch)@,
        final(ch).inner.rings@[tx.idx()].closed,
        final(ch).inner.shutdown == old(ch).inner.shutdown,
        final(ch).inner.fanin_waiter == (if old(ch).inner.live_producers == 1 {
            old(ch).inner.fanin_waiter.woken()
        } else {
            old(ch).inner.fanin_waiter
        }),
{
}

/// When the consumer of an [`Mpsc2`] goes, every ring is closed and what is in
/// flight stays.
pub proof fn mpsc2_consumer_that_goes_closes_every_ring<T, const CAP: usize, W: Waiter>(
    rx: Mpsc2Consumer<T, CAP, W>,
    ch: &mut Mpsc2<T, CAP, W>,
)
    requires
        rx.wf(*old(ch)),
        call_ensures(Mpsc2Consumer::<T, CAP, W>::close, (rx, ch), ()),
    ensures
        final(ch)@ == old(ch)@,
        forall|i: int| 0 <= i < final(ch).inner.rings@.len() ==> (#[trigger] final(ch).inner.rings@[i]).closed,
        final(ch).inner.rings@.len() == old(ch).inner.rings@.len(),
        final(ch).inner.shutdown == old(ch).inner.shutdown,
{
}

/// A new [`Mpsc2`] has the producers asked for, each with an empty ring of its own,
/// and is open.
pub proof fn mpsc2_starts_empty<T, const CAP: usize, W: Waiter>(
    m: usize,
    r: (Mpsc2<T, CAP, W>, Vec<Mpsc2Producer<T, CAP, W>>, Mpsc2Consumer<T, CAP, W>, Mpsc2Shutdown<W>),
)
    requires
        call_ensures(Mpsc2::<T, CAP, W>::new, (m,), r),
    ensures
        r.0@.len() == m,
        forall|i: int| 0 <= i < m ==> (#[trigger] r.0@[i]).len() == 0,
        !r.0.inner.shutdown,
        r.0.inner.live_producers == m,
        r.1@.len() == m,
        forall|i: int| 0 <= i < m ==> (#[trigger] r.1@[i]).idx() == i && r.1@[i].wf(r.0),
        r.2.wf(r.0),
{
}

/// What the looks at an [`Mpsc`] say fits together: room and items of a producer
/// add up to its slots, and the channel is closed iff it is shut down or nobody is
/// left to send.
pub proof fn mpsc_looks_agree<T, const CAP: usize, W: Waiter>(
    tx: &MpscProducer<T, CAP, W>,
    rx: &MpscConsumer<T, CAP, W>,
    handle: &MpscShutdown<W>,
    ch: &Mpsc<T, CAP, W>,
    cap: usize,
    pending: usize,
    available: usize,
    all: usize,
    closed: bool,
    seen: bool,
)
    requires
        tx.wf(*ch),
        rx.wf(*ch),
        call_ensures(MpscProducer::<T, CAP, W>::capacity, (tx,), cap),
        call_ensures(MpscProducer::<T, CAP, W>::pending, (tx, ch), pending),
        call_ensures(MpscProducer::<T, CAP, W>::available, (tx, ch), available),
        call_ensures(MpscConsumer::<T, CAP, W>::pending, (rx, ch), all),
        call_ensures(MpscConsumer::<T, CAP, W>::is_closed, (rx, ch), closed),
        call_ensures(MpscShutdown::<W>::is_closed::<T, CAP>, (handle, ch), seen),
    ensures
        cap == CAP,
        pending == ch@[tx.idx()].len(),
        pending + available == cap,
        all == count(ch@, ch@.len() as int),
        closed <==> ch.shutdown || ch.live_producers == 0,
        seen == closed,
{
    lemma_count(ch@, ch@.len() as int);
}

/// `MpscConsumer::run_blocking` takes everything in flight and goes on waiting
/// until the channel has ended.
pub proof fn mpsc_run_blocking_delivers_everything<T, const CAP: usize, W: BlockingWaiter>(
    rx: MpscConsumer<T, CAP, W>,
    ch: &mut Mpsc<T, CAP, W>,
    out: &mut Vec<T>,
    r: Step<(), MpscConsumer<T, CAP, W>>,
    i: int,
)
    requires
        rx.wf(*old(ch)),
        call_ensures(MpscConsumer::<T, CAP, W>::run_blocking, (rx, ch, out), r),
    ensures
        r is Done <==> old(ch).shutdown || old(ch).live_producers == 0,
        final(out)@.len() == old(out)@.len() + count(old(ch)@, old(ch)@.len() as int),
        0 <= i < old(ch)@.len() ==> {
            let from = old(out)@.len() + count(old(ch)@, i);
            final(out)@.subrange(from as int, from + old(ch)@[i].len()) == old(ch)@[i]
        },
        forall|j: int| 0 <= j < final(ch)@.len() ==> (#[trigger] final(ch)@[j]).len() == 0,
        final(ch)@.len() == old(ch)@.len(),
{
    let all = joined(old(ch)@, old(ch)@.len() as int);
    lemma_count(old(ch)@, old(ch)@.len() as int);
    if 0 <= i < old(ch)@.len() {
        lemma_count(old(ch)@, i);
        lemma_joined_holds(old(ch)@, old(ch)@.len() as int, i);
        let from = count(old(ch)@, i);
        assert(final(out)@.subrange(
            old(out)@.len() + from,
            old(out)@.len() + from + old(ch)@[i].len(),
        ) =~= all.subrange(from, from + old(ch)@[i].len()));
    }
}

} // verus!
