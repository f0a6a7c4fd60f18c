//! What the calls of a bounded ring come to: nothing is lost, doubled or moved
//! out of turn, and nobody waits for what is already there.
use crate::stream::ring::{Consumer, Producer, Ring, TryRecvError, TrySendError};
use crate::stream::ring2::Ring2;
use crate::stream::spsc2::{ConsumerSpsc2, ProducerSpsc2, Spsc2, TryRecvErrorSpsc2, TrySendErrorSpsc2};
use crate::waiter::{AsyncWaiter, BlockingWaiter, Step, Waiter};
use vstd::prelude::*;

verus! {

/// Sending without waiting to a [`Ring`]: the value is accepted iff there is
/// room, and then goes behind everything in flight, and the consumer is woken;
/// otherwise it comes back, the error says whether room can still appear, and
/// nothing changes.
pub proof fn ring_try_send_appends_or_gives_back<T, const CAP: usize, W: Waiter>(
    tx: &mut Producer<T, CAP, W>,
    ring: &mut Ring<T, CAP, W>,
    value: T,
    r: Result<(), TrySendError<T>>,
)
    requires
        call_ensures(Producer::<T, CAP, W>::try_send, (tx, ring, value), r),
        old(ring)@.len() <= CAP,
    ensures
        r is Ok <==> old(ring)@.len() < CAP,
        r is Ok ==> {
            &&& final(ring)@.len() == old(ring)@.len() + 1
            &&& final(ring)@.last() == value
            &&& forall|k: int| 0 <= k < old(ring)@.len() ==> #[trigger] final(ring)@[k] == old(ring)@[k]
            &&& final(ring).not_empty == old(ring).not_empty.woken()
            &&& final(ring).closed == old(ring).closed
        },
        r matches Err(TrySendError::Full(v)) ==> v == value && !old(ring).closed,
        r matches Err(TrySendError::Closed(v)) ==> v == value && old(ring).closed,
        r is Err ==> *final(ring) == *old(ring),
{
}

/// One pass of `Producer::send`: it waits iff the ring is full and open,
/// and then keeps the value; it fails iff the ring is full and closed; otherwise
/// the value goes behind everything in flight and the consumer is woken.
pub proof fn ring_send_waits_only_for_room<T, const CAP: usize, W: BlockingWaiter>(
    tx: &mut Producer<T, CAP, W>,
    ring: &mut Ring<T, CAP, W>,
    value: T,
    thread: u64,
    r: Step<Result<(), T>, T>,
)
    requires
        call_ensures(Producer::<T, CAP, W>::send, (tx, ring, value, thread), r),
        old(ring)@.len() <= CAP,
    ensures
        r is Wait <==> old(ring)@.len() == CAP && !old(ring).closed,
        r matches Step::Wait(v) ==> v == value && final(ring)@ == old(ring)@,
        r matches Step::Done(Err(v)) ==> v == value && old(ring)@.len() == CAP && old(ring).closed
            && final(ring)@ == old(ring)@,
        r matches Step::Done(Ok(_)) ==> {
            &&& old(ring)@.len() < CAP
            &&& final(ring)@.len() == old(ring)@.len() + 1
            &&& final(ring)@.last() == value
            &&& forall|k: int| 0 <= k < old(ring)@.len() ==> #[trigger] final(ring)@[k] == old(ring)@[k]
            &&& final(ring).not_empty == old(ring).not_empty.woken()
        },
        final(ring).closed == old(ring).closed,
{
}

/// One pass of `Producer::send_async`: it waits iff the ring is full and open,
/// and then keeps the value; it fails iff the ring is full and closed; otherwise
/// the value goes behind everything in flight and the consumer is woken.
pub proof fn ring_send_async_waits_only_for_room<T, const CAP: usize, W: AsyncWaiter>(
    tx: &mut Producer<T, CAP, W>,
    ring: &mut Ring<T, CAP, W>,
    value: T,
    r: Step<Result<(), T>, T>,
)
    requires
        call_ensures(Producer::<T, CAP, W>::send_async, (tx, ring, value), r),
        old(ring)@.len() <= CAP,
    ensures
        r is Wait <==> old(ring)@.len() == CAP && !old(ring).closed,
        r matches Step::Wait(v) ==> v == value && final(ring)@ == old(ring)@,
        r matches Step::Done(Err(v)) ==> v == value && old(ring)@.len() == CAP && old(ring).closed
            && final(ring)@ == old(ring)@,
        r matches Step::Done(Ok(_)) ==> {
            &&& old(ring)@.len() < CAP
            &&& final(ring)@.len() == old(ring)@.len() + 1
            &&& final(ring)@.last() == value
            &&& forall|k: int| 0 <= k < old(ring)@.len() ==> #[trigger] final(ring)@[k] == old(ring)@[k]
            &&& final(ring).not_empty == old(ring).not_empty.woken()
        },
        final(ring).closed == old(ring).closed,
{
}

/// Taking from a [`Ring`] without waiting: the oldest item comes out iff there
/// is any, closed or not, and the producer is woken; the end is told only when
/// nothing is left.
pub proof fn ring_try_recv_takes_the_oldest<T, const CAP: usize, W: Waiter>(
    rx: &mut Consumer<T, CAP, W>,
    ring: &mut Ring<T, CAP, W>,
    r: Result<T, TryRecvError>,
)
    requires
        call_ensures(Consumer::<T, CAP, W>::try_recv, (rx, ring), r),
    ensures
        r is Ok <==> old(ring)@.len() > 0,
        r matches Ok(v) ==> {
            &&& v == old(ring)@[0]
            &&& final(ring)@.len() == old(ring)@.len() - 1
            &&& forall|k: int| 0 <= k < final(ring)@.len() ==> #[trigger] final(ring)@[k] == old(ring)@[k + 1]
            &&& final(ring).not_full == old(ring).not_full.woken()
            &&& final(ring).closed == old(ring).closed
        },
        r == Err::<T, TryRecvError>(TryRecvError::Closed) ==> old(ring).closed,
        r == Err::<T, TryRecvError>(TryRecvError::Empty) ==> !old(ring).closed,
        r is Err ==> *final(ring) == *old(ring),
{
}

/// One pass of `Consumer::recv`: it waits iff the ring is empty and open;
/// an item is handed out as long as there is one, the oldest first; the end is
/// told iff the ring is empty and closed.
pub proof fn ring_recv_delivers_before_the_end<T, const CAP: usize, W: BlockingWaiter>(
    rx: &mut Consumer<T, CAP, W>,
    ring: &mut Ring<T, CAP, W>,
    thread: u64,
    r: Step<Option<T>, ()>,
)
    requires
        call_ensures(Consumer::<T, CAP, W>::recv, (rx, ring, thread), r),
    ensures
        r is Wait <==> old(ring)@.len() == 0 && !old(ring).closed,
        r matches Step::Done(Some(v)) ==> {
            &&& old(ring)@.len() > 0
            &&& v == old(ring)@[0]
            &&& final(ring)@.len() == old(ring)@.len() - 1
            &&& forall|k: int| 0 <= k < final(ring)@.len() ==> #[trigger] final(ring)@[k] == old(ring)@[k + 1]
            &&& final(ring).not_full == old(ring).not_full.woken()
        },
        r matches Step::Done(None) ==> old(ring)@.len() == 0 && old(ring).closed,
        old(ring)@.len() == 0 ==> final(ring)@.len() == 0 && final(ring).not_full == old(
            ring,
        ).not_full,
        final(ring).closed == old(ring).closed,
{
}

/// One pass of `Consumer::recv_async`: it waits iff the ring is empty and open;
/// an item is handed out as long as there is one, the oldest first; the end is
/// told iff the ring is empty and closed.
pub proof fn ring_recv_async_delivers_before_the_end<T, const CAP: usize, W: AsyncWaiter>(
    rx: &mut Consumer<T, CAP, W>,
    ring: &mut Ring<T, CAP, W>,
    r: Step<Option<T>, ()>,
)
    requires
        call_ensures(Consumer::<T, CAP, W>::recv_async, (rx, ring), r),
    ensures
        r is Wait <==> old(ring)@.len() == 0 && !old(ring).closed,
        r matches Step::Done(Some(v)) ==> {
            &&& old(ring)@.len() > 0
            &&& v == old(ring)@[0]
            &&& final(ring)@.len() == old(ring)@.len() - 1
            &&& forall|k: int| 0 <= k < final(ring)@.len() ==> #[trigger] final(ring)@[k] == old(ring)@[k + 1]
            &&& final(ring).not_full == old(ring).not_full.woken()
        },
        r matches Step::Done(None) ==> old(ring)@.len() == 0 && old(ring).closed,
        old(ring)@.len() == 0 ==> final(ring)@.len() == 0 && final(ring).not_full == old(
            ring,
        ).not_full,
        final(ring).closed == old(ring).closed,
{
}

/// A bulk send moves as much as it can: as many items as are offered or as
/// the handle knows of room for, whichever is less, from the end of the list;
/// what is moved goes behind everything in flight, the rest stays, and the
/// consumer is woken iff anything was moved.
pub proof fn ring_bulk_send_moves_all_that_fits<T, const CAP: usize, W: Waiter>(
    tx: &mut Producer<T, CAP, W>,
    ring: &mut Ring<T, CAP, W>,
    items: &mut Vec<T>,
    n: usize,
)
    requires
        old(tx).wf(*old(ring)),
        call_ensures(Producer::<T, CAP, W>::try_send_bulk, (tx, ring, items), n),
    ensures
        n <= old(items)@.len(),
        old(ring)@.len() + n <= CAP,
        n < old(items)@.len() ==> n == CAP - (if old(tx).used(*old(ring)) < CAP {
            old(tx).used(*old(ring))
        } else {
            old(ring)@.len() as int
        }),
        old(items)@.len() > 0 && old(tx).used(*old(ring)) < CAP ==> n > 0,
        old(items)@.len() > 0 && old(ring)@.len() < CAP && old(tx).used(*old(ring)) == CAP ==> n > 0,
        final(items)@.len() == old(items)@.len() - n,
        forall|k: int|
            0 <= k < final(items)@.len() ==> #[trigger] final(items)@[k] == old(items)@[k],
        final(ring)@.len() == old(ring)@.len() + n,
        forall|k: int|
            0 <= k < old(ring)@.len() ==> #[trigger] final(ring)@[k] == old(ring)@[k],
        forall|k: int|
            0 <= k < n ==> final(ring)@[old(ring)@.len() + k] == #[trigger] old(items)@[old(
                items,
            )@.len() - 1 - k],
        n > 0 ==> final(ring).not_empty == old(ring).not_empty.woken(),
        n == 0 ==> *final(ring) == *old(ring),
        final(ring).closed == old(ring).closed,
{
}

/// A drain takes everything in flight, oldest first, and wakes the producer iff
/// there was anything.
pub proof fn ring_drain_takes_everything_in_order<T, const CAP: usize, W: Waiter>(
    rx: &mut Consumer<T, CAP, W>,
    ring: &mut Ring<T, CAP, W>,
    out: &mut Vec<T>,
    n: usize,
)
    requires
        call_ensures(Consumer::<T, CAP, W>::drain, (rx, ring, out), n),
    ensures
        n == old(ring)@.len(),
        final(ring)@.len() == 0,
        final(out)@.len() == old(out)@.len() + n,
        forall|k: int| 0 <= k < old(out)@.len() ==> #[trigger] final(out)@[k] == old(out)@[k],
        forall|k: int|
            0 <= k < n ==> final(out)@[old(out)@.len() + k] == #[trigger] old(ring)@[k],
        n > 0 ==> final(ring).not_full == old(ring).not_full.woken(),
        n == 0 ==> final(ring).not_full == old(ring).not_full,
        final(ring).closed == old(ring).closed,
{
}

/// Whoever has just put `n` items into a ring finds out whether it was empty
/// before: the answer is yes iff nothing but them is in flight.
pub proof fn ring_tells_whether_it_was_empty<T, const CAP: usize, W: Waiter>(
    tx: &mut Producer<T, CAP, W>,
    ring: &Ring<T, CAP, W>,
    n: usize,
    b: bool,
)
    requires
        call_ensures(Producer::<T, CAP, W>::should_notify_consumer, (tx, ring, n), b),
        n <= ring@.len(),
    ensures
        b <==> ring@.len() - n == 0,
{
}

/// When the producer of a [`Ring`] goes, the ring is closed and both sides are
/// woken; what is in flight stays there.
pub proof fn ring_producer_that_goes_closes_the_ring<T, const CAP: usize, W: Waiter>(
    tx: Producer<T, CAP, W>,
    ring: &mut Ring<T, CAP, W>,
)
    requires
        call_ensures(Producer::<T, CAP, W>::close, (tx, ring), ()),
    ensures
        final(ring).closed,
        final(ring)@ == old(ring)@,
        final(ring).not_full == old(ring).not_full.woken(),
        final(ring).not_empty == old(ring).not_empty.woken(),
{
}

/// When the consumer of a [`Ring`] goes, the ring is closed and both sides are
/// woken; what is in flight stays there.
pub proof fn ring_consumer_that_goes_closes_the_ring<T, const CAP: usize, W: Waiter>(
    rx: Consumer<T, CAP, W>,
    ring: &mut Ring<T, CAP, W>,
)
    requires
        call_ensures(Consumer::<T, CAP, W>::close, (rx, ring), ()),
    ensures
        final(ring).closed,
        final(ring)@ == old(ring)@,
        final(ring).not_full == old(ring).not_full.woken(),
        final(ring).not_empty == old(ring).not_empty.woken(),
{
}

/// What the looks at a [`Ring`] say fits together, and a blocked side is told to
/// go on exactly when its next pass does not wait.
pub proof fn ring_looks_agree<T, const CAP: usize, W: Waiter>(
    ring: &Ring<T, CAP, W>,
    n: usize,
    empty: bool,
    full: bool,
    closed: bool,
    send: bool,
    recv: bool,
)
    requires
        ring@.len() <= CAP,
        call_ensures(Ring::<T, CAP, W>::len, (ring,), n),
        call_ensures(Ring::<T, CAP, W>::is_empty, (ring,), empty),
        call_ensures(Ring::<T, CAP, W>::is_full, (ring,), full),
        call_ensures(Ring::<T, CAP, W>::is_closed, (ring,), closed),
        call_ensures(Ring::<T, CAP, W>::can_send, (ring,), send),
        call_ensures(Ring::<T, CAP, W>::can_recv, (ring,), recv),
    ensures
        n == ring@.len(),
        n <= CAP,
        empty <==> n == 0,
        full <==> n == CAP,
        closed == ring.closed,
        send <==> n < CAP || closed,
        recv <==> n > 0 || closed,
{
}

/// The producer of a [`Ring`] sees the ring as it is.
pub proof fn ring_producer_sees_the_ring<T, const CAP: usize, W: Waiter>(
    tx: &Producer<T, CAP, W>,
    ring: &Ring<T, CAP, W>,
    cap: usize,
    n: usize,
    empty: bool,
    full: bool,
    closed: bool,
)
    requires
        ring@.len() <= CAP,
        call_ensures(Producer::<T, CAP, W>::capacity, (tx,), cap),
        call_ensures(Producer::<T, CAP, W>::len, (tx, ring), n),
        call_ensures(Producer::<T, CAP, W>::is_empty, (tx, ring), empty),
        call_ensures(Producer::<T, CAP, W>::is_full, (tx, ring), full),
        call_ensures(Producer::<T, CAP, W>::is_closed, (tx, ring), closed),
    ensures
        cap == CAP,
        n == ring@.len(),
        empty <==> n == 0,
        full <==> n == cap,
        closed == ring.closed,
{
}

/// The consumer of a [`Ring`] sees the ring as it is.
pub proof fn ring_consumer_sees_the_ring<T, const CAP: usize, W: Waiter>(
    rx: &Consumer<T, CAP, W>,
    ring: &Ring<T, CAP, W>,
    cap: usize,
    n: usize,
    empty: bool,
    full: bool,
    closed: bool,
)
    requires
        ring@.len() <= CAP,
        call_ensures(Consumer::<T, CAP, W>::capacity, (rx,), cap),
        call_ensures(Consumer::<T, CAP, W>::len, (rx, ring), n),
        call_ensures(Consumer::<T, CAP, W>::is_empty, (rx, ring), empty),
        call_ensures(Consumer::<T, CAP, W>::is_full, (rx, ring), full),
        call_ensures(Consumer::<T, CAP, W>::is_closed, (rx, ring), closed),
    ensures
        cap == CAP,
        n == ring@.len(),
        empty <==> n == 0,
        full <==> n == cap,
        closed == ring.closed,
{
}

/// A new [`Ring`] is empty and open, and its handles belong to it.
pub proof fn ring_starts_empty<T, const CAP: usize, W: Waiter>(
    r: (Ring<T, CAP, W>, Producer<T, CAP, W>, Consumer<T, CAP, W>),
)
    requires
        call_ensures(Ring::<T, CAP, W>::new, (), r),
    ensures
        r.0@.len() == 0,
        !r.0.closed,
        r.1.wf(r.0),
        r.2.wf(r.0),
        r.1.used(r.0) == 0,
{
}

/// Sending without waiting to a [`Spsc2`]: the value is accepted iff there is
/// room, and then goes behind everything in flight, and the consumer is woken;
/// otherwise it comes back, the error says whether room can still appear, and
/// nothing changes.
pub proof fn spsc2_try_send_appends_or_gives_back<T, const CAP: usize, W: Waiter>(
    tx: &mut ProducerSpsc2<T, CAP, W>,
    ring: &mut Spsc2<T, CAP, W>,
    value: T,
    r: Result<(), TrySendErrorSpsc2<T>>,
)
    requires
        call_ensures(ProducerSpsc2::<T, CAP, W>::try_send, (tx, ring, value), r),
        old(ring)@.len() <= CAP,
    ensures
        r is Ok <==> old(ring)@.len() < CAP,
        r is Ok ==> {
            &&& final(ring)@.len() == old(ring)@.len() + 1
            &&& final(ring)@.last() == value
            &&& forall|k: int| 0 <= k < old(ring)@.len() ==> #[trigger] final(ring)@[k] == old(ring)@[k]
            &&& final(ring).not_empty == old(ring).not_empty.woken()
            &&& final(ring).closed == old(ring).closed
        },
        r matches Err(TrySendErrorSpsc2::Full(v)) ==> v == value && !old(ring).closed,
        r matches Err(TrySendErrorSpsc2::Closed(v)) ==> v == value && old(ring).closed,
        r is Err ==> *final(ring) == *old(ring),
{
}

/// One pass of `ProducerSpsc2::send`: it waits iff the ring is full and open,
/// and then keeps the value; it fails iff the ring is full and closed; otherwise
/// the value goes behind everything in flight and the consumer is woken.
pub proof fn spsc2_send_waits_only_for_room<T, const CAP: usize, W: BlockingWaiter>(
    tx: &mut ProducerSpsc2<T, CAP, W>,
    ring: &mut Spsc2<T, CAP, W>,
    value: T,
    thread: u64,
    r: Step<Result<(), T>, T>,
)
    requires
        call_ensures(ProducerSpsc2::<T, CAP, W>::send, (tx, ring, value, thread), r),
        old(ring)@.len() <= CAP,
    ensures
        r is Wait <==> old(ring)@.len() == CAP && !old(ring).closed,
        r matches Step::Wait(v) ==> v == value && final(ring)@ == old(ring)@,
        r matches Step::Done(Err(v)) ==> v == value && old(ring)@.len() == CAP && old(ring).closed
            && final(ring)@ == old(ring)@,
        r matches Step::Done(Ok(_)) ==> {
            &&& old(ring)@.len() < CAP
            &&& final(ring)@.len() == old(ring)@.len() + 1
            &&& final(ring)@.last() == value
            &&& forall|k: int| 0 <= k < old(ring)@.len() ==> #[trigger] final(ring)@[k] == old(ring)@[k]
            &&& final(ring).not_empty == old(ring).not_empty.woken()
        },
        final(ring).closed == old(ring).closed,
{
}

/// One pass of `ProducerSpsc2::send_async`: it waits iff the ring is full and open,
/// and then keeps the value; it fails iff the ring is full and closed; otherwise
/// the value goes behind everything in flight and the consumer is woken.
pub proof fn spsc2_send_async_waits_only_for_room<T, const CAP: usize, W: AsyncWaiter>(
    tx: &mut ProducerSpsc2<T, CAP, W>,
    ring: &mut Spsc2<T, CAP, W>,
    value: T,
    r: Step<Result<(), T>, T>,
)
    requires
        call_ensures(ProducerSpsc2::<T, CAP, W>::send_async, (tx, ring, value), r),
        old(ring)@.len() <= CAP,
    ensures
        r is Wait <==> old(ring)@.len() == CAP && !old(ring).closed,
        r matches Step::Wait(v) ==> v == value && final(ring)@ == old(ring)@,
        r matches Step::Done(Err(v)) ==> v == value && old(ring)@.len() == CAP && old(ring).closed
            && final(ring)@ == old(ring)@,
        r matches Step::Done(Ok(_)) ==> {
            &&& old(ring)@.len() < CAP
            &&& final(ring)@.len() == old(ring)@.len() + 1
            &&& final(ring)@.last() == value
            &&& forall|k: int| 0 <= k < old(ring)@.len() ==> #[trigger] final(ring)@[k] == old(ring)@[k]
            &&& final(ring).not_empty == old(ring).not_empty.woken()
        },
        final(ring).closed == old(ring).closed,
{
}

/// Taking from a [`Spsc2`] without waiting: the oldest item comes out iff there
/// is any, closed or not, and the producer is woken; the end is told only when
/// nothing is left.
pub proof fn spsc2_try_recv_takes_the_oldest<T, const CAP: usize, W: Waiter>(
    rx: &mut ConsumerSpsc2<T, CAP, W>,
    ring: &mut Spsc2<T, CAP, W>,
    r: Result<T, TryRecvErrorSpsc2>,
)
    requires
        call_ensures(ConsumerSpsc2::<T, CAP, W>::try_recv, (rx, ring), r),
    ensures
        r is Ok <==> old(ring)@.len() > 0,
        r matches Ok(v) ==> {
            &&& v == old(ring)@[0]
            &&& final(ring)@.len() == old(ring)@.len() - 1
            &&& forall|k: int| 0 <= k < final(ring)@.len() ==> #[trigger] final(ring)@[k] == old(ring)@[k + 1]
            &&& final(ring).not_full == old(ring).not_full.woken()
            &&& final(ring).closed == old(ring).closed
        },
        r == Err::<T, TryRecvErrorSpsc2>(TryRecvErrorSpsc2::Closed) ==> old(ring).closed,
        r == Err::<T, TryRecvErrorSpsc2>(TryRecvErrorSpsc2::Empty) ==> !old(ring).closed,
        r is Err ==> *final(ring) == *old(ring),
{
}

/// One pass of `ConsumerSpsc2::recv`: it waits iff the ring is empty and open;
/// an item is handed out as long as there is one, the oldest first; the end is
/// told iff the ring is empty and closed.
pub proof fn spsc2_recv_delivers_before_the_end<T, const CAP: usize, W: BlockingWaiter>(
    rx: &mut ConsumerSpsc2<T, CAP, W>,
    ring: &mut Spsc2<T, CAP, W>,
    thread: u64,
    r: Step<Option<T>, ()>,
)
    requires
        call_ensures(ConsumerSpsc2::<T, CAP, W>::recv, (rx, ring, thread), r),
    ensures
        r is Wait <==> old(ring)@.len() == 0 && !old(ring).closed,
        r matches Step::Done(Some(v)) ==> {
            &&& old(ring)@.len() > 0
            &&& v == old(ring)@[0]
            &&& final(ring)@.len() == old(ring)@.len() - 1
            &&& forall|k: int| 0 <= k < final(ring)@.len() ==> #[trigger] final(ring)@[k] == old(ring)@[k + 1]
            &&& final(ring).not_full == old(ring).not_full.woken()
        },
        r matches Step::Done(None) ==> old(ring)@.len() == 0 && old(ring).closed,
        old(ring)@.len() == 0 ==> final(ring)@.len() == 0 && final(ring).not_full == old(
            ring,
        ).not_full,
        final(ring).closed == old(ring).closed,
{
}

/// One pass of `ConsumerSpsc2::recv_async`: it waits iff the ring is empty and open;
/// an item is handed out as long as there is one, the oldest first; the end is
/// told iff the ring is empty and closed.
pub proof fn spsc2_recv_async_delivers_before_the_end<T, const CAP: usize, W: AsyncWaiter>(
    rx: &mut ConsumerSpsc2<T, CAP, W>,
    ring: &mut Spsc2<T, CAP, W>,
    r: Step<Option<T>, ()>,
)
    requires
        call_ensures(ConsumerSpsc2::<T, CAP, W>::recv_async, (rx, ring), r),
    ensures
        r is Wait <==> old(ring)@.len() == 0 && !old(ring).closed,
        r matches Step::Done(Some(v)) ==> {
            &&& old(ring)@.len() > 0
            &&& v == old(ring)@[0]
            &&& final(ring)@.len() == old(ring)@.len() - 1
            &&& forall|k: int| 0 <= k < final(ring)@.len() ==> #[trigger] final(ring)@[k] == old(ring)@[k + 1]
            &&& final(ring).not_full == old(ring).not_full.woken()
        },
        r matches Step::Done(None) ==> old(ring)@.len() == 0 && old(ring).closed,
        old(ring)@.len() == 0 ==> final(ring)@.len() == 0 && final(ring).not_full == old(
            ring,
        ).not_full,
        final(ring).closed == old(ring).closed,
{
}

/// When the producer of a [`Spsc2`] goes, the ring is closed and both sides are
/// woken; what is in flight stays there.
pub proof fn spsc2_producer_that_goes_closes_the_ring<T, const CAP: usize, W: Waiter>(
    tx: ProducerSpsc2<T, CAP, W>,
    ring: &mut Spsc2<T, CAP, W>,
)
    requires
        call_ensures(ProducerSpsc2::<T, CAP, W>::close, (tx, ring), ()),
    ensures
        final(ring).closed,
        final(ring)@ == old(ring)@,
        final(ring).not_full == old(ring).not_full.woken(),
        final(ring).not_empty == old(ring).not_empty.woken(),
{
}

/// When the consumer of a [`Spsc2`] goes, the ring is closed and both sides are
/// woken; what is in flight stays there.
pub proof fn spsc2_consumer_that_goes_closes_the_ring<T, const CAP: usize, W: Waiter>(
    rx: ConsumerSpsc2<T, CAP, W>,
    ring: &mut Spsc2<T, CAP, W>,
)
    requires
        call_ensures(ConsumerSpsc2::<T, CAP, W>::close, (rx, ring), ()),
    ensures
        final(ring).closed,
        final(ring)@ == old(ring)@,
        final(ring).not_full == old(ring).not_full.woken(),
        final(ring).not_empty == old(ring).not_empty.woken(),
{
}

/// What the looks at a [`Spsc2`] say fits together, and a blocked side is told to
/// go on exactly when its next pass does not wait.
pub proof fn spsc2_looks_agree<T, const CAP: usize, W: Waiter>(
    ring: &Spsc2<T, CAP, W>,
    n: usize,
    empty: bool,
    full: bool,
    closed: bool,
    send: bool,
    recv: bool,
)
    requires
        ring@.len() <= CAP,
        call_ensures(Spsc2::<T, CAP, W>::len, (ring,), n),
        call_ensures(Spsc2::<T, CAP, W>::is_empty, (ring,), empty),
        call_ensures(Spsc2::<T, CAP, W>::is_full, (ring,), full),
        call_ensures(Spsc2::<T, CAP, W>::is_closed, (ring,), closed),
        call_ensures(Spsc2::<T, CAP, W>::can_send, (ring,), send),
        call_ensures(Spsc2::<T, CAP, W>::can_recv, (ring,), recv),
    ensures
        n == ring@.len(),
        n <= CAP,
        empty <==> n == 0,
        full <==> n == CAP,
        closed == ring.closed,
        send <==> n < CAP || closed,
        recv <==> n > 0 || closed,
{
}

/// The producer of a [`Spsc2`] sees the ring as it is.
pub proof fn spsc2_producer_sees_the_ring<T, const CAP: usize, W: Waiter>(
    tx: &ProducerSpsc2<T, CAP, W>,
    ring: &Spsc2<T, CAP, W>,
    cap: usize,
    n: usize,
    empty: bool,
    full: bool,
    closed: bool,
)
    requires
        ring@.len() <= CAP,
        call_ensures(ProducerSpsc2::<T, CAP, W>::capacity, (tx,), cap),
        call_ensures(ProducerSpsc2::<T, CAP, W>::len, (tx, ring), n),
        call_ensures(ProducerSpsc2::<T, CAP, W>::is_empty, (tx, ring), empty),
        call_ensures(ProducerSpsc2::<T, CAP, W>::is_full, (tx, ring), full),
        call_ensures(ProducerSpsc2::<T, CAP, W>::is_closed, (tx, ring), closed),
    ensures
        cap == CAP,
        n == ring@.len(),
        empty <==> n == 0,
        full <==> n == cap,
        closed == ring.closed,
{
}

/// The consumer of a [`Spsc2`] sees the ring as it is.
pub proof fn spsc2_consumer_sees_the_ring<T, const CAP: usize, W: Waiter>(
    rx: &ConsumerSpsc2<T, CAP, W>,
    ring: &Spsc2<T, CAP, W>,
    cap: usize,
    n: usize,
    empty: bool,
    full: bool,
    closed: bool,
)
    requires
        ring@.len() <= CAP,
        call_ensures(ConsumerSpsc2::<T, CAP, W>::capacity, (rx,), cap),
        call_ensures(ConsumerSpsc2::<T, CAP, W>::len, (rx, ring), n),
        call_ensures(ConsumerSpsc2::<T, CAP, W>::is_empty, (rx, ring), empty),
        call_ensures(ConsumerSpsc2::<T, CAP, W>::is_full, (rx, ring), full),
        call_ensures(ConsumerSpsc2::<T, CAP, W>::is_closed, (rx, ring), closed),
    ensures
        cap == CAP,
        n == ring@.len(),
        empty <==> n == 0,
        full <==> n == cap,
        closed == ring.closed,
{
}

/// A new [`Spsc2`] is empty and open, and its handles belong to it.
pub proof fn spsc2_starts_empty<T, const CAP: usize, W: Waiter>(
    r: (Spsc2<T, CAP, W>, ProducerSpsc2<T, CAP, W>, ConsumerSpsc2<T, CAP, W>),
)
    requires
        call_ensures(Spsc2::<T, CAP, W>::new, (), r),
    ensures
        r.0@.len() == 0,
        !r.0.closed,
        r.1.wf(r.0),
        r.2.wf(r.0),
        r.1.used(r.0) == 0,
{
}

/// `Ring2::try_send` accepts the value iff there is room; it then goes behind
/// everything in flight and the consumer is woken. Otherwise it comes back and
/// nothing in flight changes.
pub proof fn ring2_try_send_appends_or_gives_back<T, const CAP: usize, W: Waiter>(
    ring: &mut Ring2<T, CAP, W>,
    value: T,
    r: Result<(), T>,
)
    requires
        call_ensures(Ring2::<T, CAP, W>::try_send, (ring, value), r),
    ensures
        r is Ok <==> old(ring)@.len() < CAP,
        r is Ok ==> {
            &&& final(ring)@.len() == old(ring)@.len() + 1
            &&& final(ring)@.last() == value
            &&& forall|k: int| 0 <= k < old(ring)@.len() ==> #[trigger] final(ring)@[k] == old(ring)@[k]
            &&& final(ring).not_empty == old(ring).not_empty.woken()
        },
        r matches Err(v) ==> {
            &&& v == value
            &&& final(ring)@ == old(ring)@
            &&& final(ring).not_empty == old(ring).not_empty
        },
{
}

/// `Ring2::send` accepts the value iff there is room; it then goes behind
/// everything in flight and the consumer is woken. Otherwise it comes back and
/// nothing in flight changes.
pub proof fn ring2_send_appends_or_gives_back<T, const CAP: usize, W: BlockingWaiter>(
    ring: &mut Ring2<T, CAP, W>,
    value: T,
    r: Step<(), T>,
)
    requires
        call_ensures(Ring2::<T, CAP, W>::send, (ring, value), r),
    ensures
        r is Done <==> old(ring)@.len() < CAP,
        r is Done ==> {
            &&& final(ring)@.len() == old(ring)@.len() + 1
            &&& final(ring)@.last() == value
            &&& forall|k: int| 0 <= k < old(ring)@.len() ==> #[trigger] final(ring)@[k] == old(ring)@[k]
            &&& final(ring).not_empty == old(ring).not_empty.woken()
        },
        r matches Step::Wait(v) ==> {
            &&& v == value
            &&& final(ring)@ == old(ring)@
            &&& final(ring).not_empty == old(ring).not_empty
        },
{
}

/// `Ring2::send_async` accepts the value iff there is room; it then goes behind
/// everything in flight and the consumer is woken. Otherwise it comes back and
/// nothing in flight changes.
pub proof fn ring2_send_async_appends_or_gives_back<T, const CAP: usize, W: AsyncWaiter>(
    ring: &mut Ring2<T, CAP, W>,
    value: T,
    r: Step<(), T>,
)
    requires
        call_ensures(Ring2::<T, CAP, W>::send_async, (ring, value), r),
    ensures
        r is Done <==> old(ring)@.len() < CAP,
        r is Done ==> {
            &&& final(ring)@.len() == old(ring)@.len() + 1
            &&& final(ring)@.last() == value
            &&& forall|k: int| 0 <= k < old(ring)@.len() ==> #[trigger] final(ring)@[k] == old(ring)@[k]
            &&& final(ring).not_empty == old(ring).not_empty.woken()
        },
        r matches Step::Wait(v) ==> {
            &&& v == value
            &&& final(ring)@ == old(ring)@
            &&& final(ring).not_empty == old(ring).not_empty
        },
{
}

/// `Ring2::try_recv` hands out the oldest item iff there is any, and wakes the
/// producer then.
pub proof fn ring2_try_recv_takes_the_oldest<T, const CAP: usize, W: Waiter>(
    ring: &mut Ring2<T, CAP, W>,
    r: Option<T>,
)
    requires
        call_ensures(Ring2::<T, CAP, W>::try_recv, (ring,), r),
    ensures
        r is Some <==> old(ring)@.len() > 0,
        r matches Some(v) ==> {
            &&& v == old(ring)@[0]
            &&& final(ring)@.len() == old(ring)@.len() - 1
            &&& forall|k: int|
                0 <= k < final(ring)@.len() ==> #[trigger] final(ring)@[k] == old(ring)@[k + 1]
            &&& final(ring).not_full == old(ring).not_full.woken()
        },
        !(r is Some) ==> final(ring)@ == old(ring)@ && final(ring).not_full == old(ring).not_full,
{
}

/// `Ring2::recv` hands out the oldest item iff there is any, and wakes the
/// producer then.
pub proof fn ring2_recv_takes_the_oldest<T, const CAP: usize, W: BlockingWaiter>(
    ring: &mut Ring2<T, CAP, W>,
    r: Step<T, ()>,
)
    requires
        call_ensures(Ring2::<T, CAP, W>::recv, (ring,), r),
    ensures
        r is Done <==> old(ring)@.len() > 0,
        r matches Step::Done(v) ==> {
            &&& v == old(ring)@[0]
            &&& final(ring)@.len() == old(ring)@.len() - 1
            &&& forall|k: int|
                0 <= k < final(ring)@.len() ==> #[trigger] final(ring)@[k] == old(ring)@[k + 1]
            &&& final(ring).not_full == old(ring).not_full.woken()
        },
        !(r is Done) ==> final(ring)@ == old(ring)@ && final(ring).not_full == old(ring).not_full,
{
}

/// `Ring2::recv_async` hands out the oldest item iff there is any, and wakes the
/// producer then.
pub proof fn ring2_recv_async_takes_the_oldest<T, const CAP: usize, W: AsyncWaiter>(
    ring: &mut Ring2<T, CAP, W>,
    r: Step<T, ()>,
)
    requires
        call_ensures(Ring2::<T, CAP, W>::recv_async, (ring,), r),
    ensures
        r is Done <==> old(ring)@.len() > 0,
        r matches Step::Done(v) ==> {
            &&& v == old(ring)@[0]
            &&& final(ring)@.len() == old(ring)@.len() - 1
            &&& forall|k: int|
                0 <= k < final(ring)@.len() ==> #[trigger] final(ring)@[k] == old(ring)@[k + 1]
            &&& final(ring).not_full == old(ring).not_full.woken()
        },
        !(r is Done) ==> final(ring)@ == old(ring)@ && final(ring).not_full == old(ring).not_full,
{
}

/// What the looks at a [`Ring2`] say fits together.
pub proof fn ring2_looks_agree<T, const CAP: usize, W: Waiter>(
    ring: &Ring2<T, CAP, W>,
    cap: usize,
    n: usize,
    empty: bool,
    full: bool,
)
    requires
        ring@.len() <= CAP,
        call_ensures(Ring2::<T, CAP, W>::capacity, (ring,), cap),
        call_ensures(Ring2::<T, CAP, W>::len, (ring,), n),
        call_ensures(Ring2::<T, CAP, W>::is_empty, (ring,), empty),
        call_ensures(Ring2::<T, CAP, W>::is_full, (ring,), full),
    ensures
        cap == CAP,
        n == ring@.len(),
        empty <==> n == 0,
        full <==> n == cap,
{
}

/// A new [`Ring2`] is empty.
pub proof fn ring2_starts_empty<T, const CAP: usize, W: Waiter>(
    ring: Ring2<T, CAP, W>,
)
    requires
        call_ensures(Ring2::<T, CAP, W>::new, (), ring),
    ensures
        ring.wf(),
        ring@.len() == 0,
{
}

/// `Ring2::set_producer` registers one side and leaves everything in flight.
pub proof fn ring2_set_producer_touches_one_side<T, const CAP: usize, W: Waiter>(
    ring: &mut Ring2<T, CAP, W>,
)
    requires
        call_ensures(Ring2::<T, CAP, W>::set_producer, (ring,), ()),
    ensures
        final(ring)@ == old(ring)@,
        final(ring).not_empty == old(ring).not_empty,
        final(ring).not_full == old(ring).not_full.bound(),
{
}

/// `Ring2::set_consumer` registers one side and leaves everything in flight.
pub proof fn ring2_set_consumer_touches_one_side<T, const CAP: usize, W: Waiter>(
    ring: &mut Ring2<T, CAP, W>,
)
    requires
        call_ensures(Ring2::<T, CAP, W>::set_consumer, (ring,), ()),
    ensures
        final(ring)@ == old(ring)@,
        final(ring).not_full == old(ring).not_full,
        final(ring).not_empty == old(ring).not_empty.bound(),
{
}

} // verus!
