//! What the calls of the transports for a single value come to: a value is handed
//! out once, to whoever waits, and nobody waits for what is already there.
use crate::gate::one_signal::{AcquireError, OneSignal, Receiver as OneReceiver, Sender as OneSender};
use crate::gate::pipe as signals;
use crate::route::oneshot::{Closed, OneShot, Receiver, Sender, SlotState};
use crate::route::oneshot_async as tasks;
use crate::slot::pipe as slots;
use crate::slot::pipe_async::PipeAsync;
use crate::waiter::{AsyncWaiter, BlockingWaiter, ParkWaiter, Step, Waiter};
use vstd::prelude::*;

verus! {

/// What was sent through a `Pipe` is what `try_recv` then hands out, once; the consumer is
/// woken by the send, and the observer sees the send and the receipt.
pub proof fn pipe_try_recv_gives_what_was_sent<T, H: slots::PipeHook<T>, W: Waiter>(
    a: &mut slots::Pipe<T, H, W>,
    b: &mut slots::Pipe<T, H, W>,
    value: T,
    r: Option<T>,
    seen: bool,
    left: bool,
)
    requires
        call_ensures(slots::Pipe::<T, H, W>::send, (a, value), ()),
        call_ensures(slots::Pipe::<T, H, W>::has_data, (&*final(a),), seen),
        *old(b) == *final(a),
        call_ensures(slots::Pipe::<T, H, W>::try_recv, (b,), r),
        call_ensures(slots::Pipe::<T, H, W>::has_data, (&*final(b),), left),
    ensures
        r matches Some(v) && v == value,
        seen,
        !left,
        final(b).slot is None,
        final(a).waiter == old(a).waiter.woken(),
        final(b).hook == old(a).hook.after_send(value).after_recv(value),
{
}

/// `try_recv` on a `Pipe` hands out a value iff there is one, which is what `has_data`
/// says, and leaves none.
pub proof fn pipe_try_recv_takes_what_is_there<T, H: slots::PipeHook<T>, W: Waiter>(
    p: &mut slots::Pipe<T, H, W>,
    r: Option<T>,
    had: bool,
)
    requires
        call_ensures(slots::Pipe::<T, H, W>::has_data, (&*old(p),), had),
        call_ensures(slots::Pipe::<T, H, W>::try_recv, (p,), r),
    ensures
        r is None <==> old(p).slot is None,
        r matches Some(v) ==> old(p).slot == Some(v),
        final(p).slot is None,
        r is Some <==> had,
        old(p).slot is None ==> final(p).hook == old(p).hook,
        final(p).waiter == old(p).waiter,
{
}

/// What was sent through a `Pipe` is what `recv` then hands out, once; the consumer is
/// woken by the send, and the observer sees the send and the receipt.
pub proof fn pipe_recv_gives_what_was_sent<T, H: slots::PipeHook<T>, W: BlockingWaiter>(
    a: &mut slots::Pipe<T, H, W>,
    b: &mut slots::Pipe<T, H, W>,
    value: T,
    r: Step<T, ()>,
    seen: bool,
    left: bool,
)
    requires
        call_ensures(slots::Pipe::<T, H, W>::send, (a, value), ()),
        call_ensures(slots::Pipe::<T, H, W>::has_data, (&*final(a),), seen),
        *old(b) == *final(a),
        call_ensures(slots::Pipe::<T, H, W>::recv, (b,), r),
        call_ensures(slots::Pipe::<T, H, W>::has_data, (&*final(b),), left),
    ensures
        r matches Step::Done(v) && v == value,
        seen,
        !left,
        final(b).slot is None,
        final(a).waiter == old(a).waiter.woken(),
        final(b).hook == old(a).hook.after_send(value).after_recv(value),
{
}

/// `recv` on a `Pipe` hands out a value iff there is one, which is what `has_data`
/// says, and leaves none.
pub proof fn pipe_recv_takes_what_is_there<T, H: slots::PipeHook<T>, W: BlockingWaiter>(
    p: &mut slots::Pipe<T, H, W>,
    r: Step<T, ()>,
    had: bool,
)
    requires
        call_ensures(slots::Pipe::<T, H, W>::has_data, (&*old(p),), had),
        call_ensures(slots::Pipe::<T, H, W>::recv, (p,), r),
    ensures
        r is Wait <==> old(p).slot is None,
        r matches Step::Done(v) ==> old(p).slot == Some(v),
        final(p).slot is None,
        r is Done <==> had,
        old(p).slot is None ==> final(p).hook == old(p).hook,
        final(p).waiter == old(p).waiter,
{
}

/// What was sent through a `Pipe` is what `recv_async` then hands out, once; the consumer is
/// woken by the send, and the observer sees the send and the receipt.
pub proof fn pipe_recv_async_gives_what_was_sent<T, H: slots::PipeHook<T>, W: AsyncWaiter>(
    a: &mut slots::Pipe<T, H, W>,
    b: &mut slots::Pipe<T, H, W>,
    value: T,
    r: Step<T, ()>,
    seen: bool,
    left: bool,
)
    requires
        call_ensures(slots::Pipe::<T, H, W>::send, (a, value), ()),
        call_ensures(slots::Pipe::<T, H, W>::has_data, (&*final(a),), seen),
        *old(b) == *final(a),
        call_ensures(slots::Pipe::<T, H, W>::recv_async, (b,), r),
        call_ensures(slots::Pipe::<T, H, W>::has_data, (&*final(b),), left),
    ensures
        r matches Step::Done(v) && v == value,
        seen,
        !left,
        final(b).slot is None,
        final(a).waiter == old(a).waiter.woken(),
        final(b).hook == old(a).hook.after_send(value).after_recv(value),
{
}

/// `recv_async` on a `Pipe` hands out a value iff there is one, which is what `has_data`
/// says, and leaves none.
pub proof fn pipe_recv_async_takes_what_is_there<T, H: slots::PipeHook<T>, W: AsyncWaiter>(
    p: &mut slots::Pipe<T, H, W>,
    r: Step<T, ()>,
    had: bool,
)
    requires
        call_ensures(slots::Pipe::<T, H, W>::has_data, (&*old(p),), had),
        call_ensures(slots::Pipe::<T, H, W>::recv_async, (p,), r),
    ensures
        r is Wait <==> old(p).slot is None,
        r matches Step::Done(v) ==> old(p).slot == Some(v),
        final(p).slot is None,
        r is Done <==> had,
        old(p).slot is None ==> final(p).hook == old(p).hook,
        final(p).waiter == old(p).waiter,
{
}

/// What was sent through a `Pipe` is what `try_recv` then hands out, once; the consumer is
/// woken by the send, and the observer sees the send and the receipt.
pub proof fn signal_pipe_try_recv_gives_what_was_sent<T, H: signals::PipeHook<T>>(
    a: &mut signals::Pipe<T, H>,
    b: &mut signals::Pipe<T, H>,
    value: T,
    r: Option<T>,
    seen: bool,
    left: bool,
)
    requires
        call_ensures(signals::Pipe::<T, H>::send, (a, value), ()),
        call_ensures(signals::Pipe::<T, H>::has_data, (&*final(a),), seen),
        *old(b) == *final(a),
        call_ensures(signals::Pipe::<T, H>::try_recv, (b,), r),
        call_ensures(signals::Pipe::<T, H>::has_data, (&*final(b),), left),
    ensures
        r matches Some(v) && v == value,
        seen,
        !left,
        final(b).slot is None,
        final(a).signal.parker == old(a).signal.parker.woken(),
        final(b).hook == old(a).hook.after_send(value).after_recv(value),
{
}

/// `try_recv` on a `Pipe` hands out a value iff there is one, which is what `has_data`
/// says, and leaves none.
pub proof fn signal_pipe_try_recv_takes_what_is_there<T, H: signals::PipeHook<T>>(
    p: &mut signals::Pipe<T, H>,
    r: Option<T>,
    had: bool,
)
    requires
        call_ensures(signals::Pipe::<T, H>::has_data, (&*old(p),), had),
        call_ensures(signals::Pipe::<T, H>::try_recv, (p,), r),
    ensures
        r is None <==> old(p).slot is None,
        r matches Some(v) ==> old(p).slot == Some(v),
        final(p).slot is None,
        r is Some <==> had,
        old(p).slot is None ==> final(p).hook == old(p).hook,
        final(p).signal.parker == old(p).signal.parker,
{
}

/// What was sent through a `Pipe` is what `recv` then hands out, once; the consumer is
/// woken by the send, and the observer sees the send and the receipt.
pub proof fn signal_pipe_recv_gives_what_was_sent<T, H: signals::PipeHook<T>>(
    a: &mut signals::Pipe<T, H>,
    b: &mut signals::Pipe<T, H>,
    value: T,
    r: Step<T, ()>,
    seen: bool,
    left: bool,
)
    requires
        call_ensures(signals::Pipe::<T, H>::send, (a, value), ()),
        call_ensures(signals::Pipe::<T, H>::has_data, (&*final(a),), seen),
        *old(b) == *final(a),
        call_ensures(signals::Pipe::<T, H>::recv, (b,), r),
        call_ensures(signals::Pipe::<T, H>::has_data, (&*final(b),), left),
    ensures
        r matches Step::Done(v) && v == value,
        seen,
        !left,
        final(b).slot is None,
        final(a).signal.parker == old(a).signal.parker.woken(),
        final(b).hook == old(a).hook.after_send(value).after_recv(value),
{
}

/// `recv` on a `Pipe` hands out a value iff there is one, which is what `has_data`
/// says, and leaves none.
pub proof fn signal_pipe_recv_takes_what_is_there<T, H: signals::PipeHook<T>>(
    p: &mut signals::Pipe<T, H>,
    r: Step<T, ()>,
    had: bool,
)
    requires
        call_ensures(signals::Pipe::<T, H>::has_data, (&*old(p),), had),
        call_ensures(signals::Pipe::<T, H>::recv, (p,), r),
    ensures
        r is Wait <==> old(p).slot is None,
        r matches Step::Done(v) ==> old(p).slot == Some(v),
        final(p).slot is None,
        r is Done <==> had,
        old(p).slot is None ==> final(p).hook == old(p).hook,
        final(p).signal.parker == old(p).signal.parker,
{
}

/// What was sent through a `PipeAsync` is what `try_recv` then hands out, once; the consumer is
/// woken by the send.
pub proof fn task_pipe_try_recv_gives_what_was_sent<T>(
    a: &mut PipeAsync<T>,
    b: &mut PipeAsync<T>,
    value: T,
    r: Option<T>,
    seen: bool,
    left: bool,
)
    requires
        call_ensures(PipeAsync::<T>::send, (a, value), ()),
        call_ensures(PipeAsync::<T>::has_data, (&*final(a),), seen),
        *old(b) == *final(a),
        call_ensures(PipeAsync::<T>::try_recv, (b,), r),
        call_ensures(PipeAsync::<T>::has_data, (&*final(b),), left),
    ensures
        r matches Some(v) && v == value,
        seen,
        !left,
        final(b).slot is None,
        final(a).owed,
{
}

/// `try_recv` on a `PipeAsync` hands out a value iff there is one, which is what `has_data`
/// says, and leaves none.
pub proof fn task_pipe_try_recv_takes_what_is_there<T>(
    p: &mut PipeAsync<T>,
    r: Option<T>,
    had: bool,
)
    requires
        call_ensures(PipeAsync::<T>::has_data, (&*old(p),), had),
        call_ensures(PipeAsync::<T>::try_recv, (p,), r),
    ensures
        r is None <==> old(p).slot is None,
        r matches Some(v) ==> old(p).slot == Some(v),
        final(p).slot is None,
        r is Some <==> had,
{
}

/// What was sent through a `PipeAsync` is what `recv` then hands out, once; the consumer is
/// woken by the send.
pub proof fn task_pipe_recv_gives_what_was_sent<T>(
    a: &mut PipeAsync<T>,
    b: &mut PipeAsync<T>,
    value: T,
    r: Step<T, ()>,
    seen: bool,
    left: bool,
)
    requires
        call_ensures(PipeAsync::<T>::send, (a, value), ()),
        call_ensures(PipeAsync::<T>::has_data, (&*final(a),), seen),
        *old(b) == *final(a),
        call_ensures(PipeAsync::<T>::recv, (b,), r),
        call_ensures(PipeAsync::<T>::has_data, (&*final(b),), left),
    ensures
        r matches Step::Done(v) && v == value,
        seen,
        !left,
        final(b).slot is None,
        final(a).owed,
{
}

/// `recv` on a `PipeAsync` hands out a value iff there is one, which is what `has_data`
/// says, and leaves none.
pub proof fn task_pipe_recv_takes_what_is_there<T>(
    p: &mut PipeAsync<T>,
    r: Step<T, ()>,
    had: bool,
)
    requires
        call_ensures(PipeAsync::<T>::has_data, (&*old(p),), had),
        call_ensures(PipeAsync::<T>::recv, (p,), r),
    ensures
        r is Wait <==> old(p).slot is None,
        r matches Step::Done(v) ==> old(p).slot == Some(v),
        final(p).slot is None,
        r is Done <==> had,
{
}

/// A notification that a send of a `PipeAsync` owes is delivered once.
pub proof fn task_pipe_notifies_once<T>(
    a: &mut PipeAsync<T>,
    b: &mut PipeAsync<T>,
    c: &mut PipeAsync<T>,
    value: T,
    first: bool,
    second: bool,
)
    requires
        call_ensures(PipeAsync::<T>::send, (a, value), ()),
        *old(b) == *final(a),
        call_ensures(PipeAsync::<T>::settle, (b,), first),
        *old(c) == *final(b),
        call_ensures(PipeAsync::<T>::settle, (c,), second),
    ensures
        first,
        !second,
        final(c).slot == Some(value),
{
}

/// A new pipe holds nothing and has nobody registered.
pub proof fn pipe_starts_empty<T, W: Waiter>(
    p: slots::Pipe<T, slots::NoHook, W>,
    q: PipeAsync<T>,
    s: signals::Pipe<T, signals::NoHook>,
)
    requires
        call_ensures(slots::Pipe::<T, slots::NoHook, W>::new, (), p),
        call_ensures(PipeAsync::<T>::new, (), q),
        call_ensures(signals::Pipe::<T, signals::NoHook>::new, (), s),
    ensures
        p.slot is None,
        p.waiter == W::initial(),
        q.slot is None,
        !q.owed,
        s.slot is None,
        s.signal.parker == ParkWaiter::initial(),
{
}

/// Waiting for data on a pipe with a signal ends only when there is some, and takes
/// none.
pub proof fn signal_pipe_wait_ends_with_data<T, H: signals::PipeHook<T>>(
    p: &mut signals::Pipe<T, H>,
    at: crate::waiter::WaitPhase,
    next: crate::waiter::WaitPhase,
)
    requires
        old(p).wf(),
        call_ensures(signals::Pipe::<T, H>::wait_data, (p, at), next),
        !(at is Leave || at is Done || at is Announce),
        next is Leave || next is Done,
    ensures
        old(p).slot is Some,
        final(p).slot == old(p).slot,
        final(p).hook == old(p).hook,
{
}

/// What the sender of a one-shot slot sends is what `try_recv` gives, exactly once:
/// the next attempt finds the slot closed. The receiver is woken.
pub proof fn one_shot_try_recv_gives_the_value_once<T, W: Waiter>(
    tx: Sender<T, W>,
    rx: &Receiver<T, W>,
    again: &Receiver<T, W>,
    a: &mut OneShot<T, W>,
    b: &mut OneShot<T, W>,
    c: &mut OneShot<T, W>,
    value: T,
    r: Result<Option<T>, Closed>,
    second: Result<Option<T>, Closed>,
)
    requires
        call_ensures(Sender::<T, W>::send, (tx, a, value), ()),
        *old(b) == *final(a),
        call_ensures(Receiver::<T, W>::try_recv, (rx, b), r),
        *old(c) == *final(b),
        call_ensures(Receiver::<T, W>::try_recv, (again, c), second),
    ensures
        r matches Ok(Some(v)) && v == value,
        second is Err,
        final(a).waiter == old(a).waiter.woken(),
{
}

/// A value that was handed out leaves a one-shot slot taken, however it was asked for; an
/// attempt that gets none leaves the slot as it was.
pub proof fn one_shot_is_taken_once_it_was_handed_out<T, W: Waiter, B: BlockingWaiter>(
    rx: &Receiver<T, W>,
    waiting: Receiver<T, B>,
    task: &tasks::Receiver<T>,
    a: &mut OneShot<T, W>,
    b: &mut OneShot<T, B>,
    c: &mut tasks::OneShotAsync<T>,
    r: Result<Option<T>, Closed>,
    waited: Step<Result<T, Closed>, Receiver<T, B>>,
    polled: Option<Result<T, Closed>>,
)
    requires
        call_ensures(Receiver::<T, W>::try_recv, (rx, a), r),
        call_ensures(Receiver::<T, B>::recv, (waiting, b), waited),
        call_ensures(tasks::Receiver::<T>::try_recv, (task, c), polled),
    ensures
        r matches Ok(Some(v)) ==> old(a).state == SlotState::Full(v) && final(a).state is Taken,
        !(r matches Ok(Some(_))) ==> final(a).state == old(a).state,
        waited matches Step::Done(Ok(v)) ==> old(b).state == SlotState::Full(v)
            && final(b).state is Taken,
        !(waited matches Step::Done(Ok(_))) ==> final(b).state == old(b).state,
        polled matches Some(Ok(v)) ==> old(c).state == SlotState::Full(v) && final(c).state is Taken,
        !(polled matches Some(Ok(_))) ==> final(c).state == old(c).state,
{
}

/// A sender of a one-shot slot that leaves without sending ends every `try_recv`, and
/// wakes the receiver.
pub proof fn one_shot_try_recv_ends_when_the_sender_leaves<T, W: Waiter>(
    tx: Sender<T, W>,
    rx: &Receiver<T, W>,
    a: &mut OneShot<T, W>,
    b: &mut OneShot<T, W>,
    r: Result<Option<T>, Closed>,
)
    requires
        call_ensures(Sender::<T, W>::close, (tx, a), ()),
        *old(b) == *final(a),
        call_ensures(Receiver::<T, W>::try_recv, (rx, b), r),
    ensures
        r matches Err(_),
        final(a).waiter == old(a).waiter.woken(),
        final(b).state is Closed,
{
}

/// `try_recv` on a one-shot slot waits iff the sender has decided nothing, which is what
/// `can_recv` says, and then changes nothing.
pub proof fn one_shot_try_recv_waits_only_for_the_sender<T, W: Waiter>(
    rx: &Receiver<T, W>,
    slot: &mut OneShot<T, W>,
    r: Result<Option<T>, Closed>,
    can: bool,
)
    requires
        call_ensures(OneShot::<T, W>::can_recv, (&*old(slot),), can),
        call_ensures(Receiver::<T, W>::try_recv, (rx, slot), r),
    ensures
        r matches Ok(None) ==> old(slot).state is Empty,
        old(slot).state is Empty ==> r == Ok::<Option<T>, Closed>(None),
        can <==> !(old(slot).state is Empty),
        !can ==> *final(slot) == *old(slot),
        final(slot).waiter == old(slot).waiter,
{
}

/// What the sender of a one-shot slot sends is what `recv` gives, exactly once:
/// the next attempt finds the slot closed. The receiver is woken.
pub proof fn one_shot_recv_gives_the_value_once<T, W: BlockingWaiter>(
    tx: Sender<T, W>,
    rx: Receiver<T, W>,
    again: &Receiver<T, W>,
    a: &mut OneShot<T, W>,
    b: &mut OneShot<T, W>,
    c: &mut OneShot<T, W>,
    value: T,
    r: Step<Result<T, Closed>, Receiver<T, W>>,
    second: Result<Option<T>, Closed>,
)
    requires
        call_ensures(Sender::<T, W>::send, (tx, a, value), ()),
        *old(b) == *final(a),
        call_ensures(Receiver::<T, W>::recv, (rx, b), r),
        *old(c) == *final(b),
        call_ensures(Receiver::<T, W>::try_recv, (again, c), second),
    ensures
        r matches Step::Done(Ok(v)) && v == value,
        second is Err,
        final(a).waiter == old(a).waiter.woken(),
{
}

/// A sender of a one-shot slot that leaves without sending ends every `recv`, and
/// wakes the receiver.
pub proof fn one_shot_recv_ends_when_the_sender_leaves<T, W: BlockingWaiter>(
    tx: Sender<T, W>,
    rx: Receiver<T, W>,
    a: &mut OneShot<T, W>,
    b: &mut OneShot<T, W>,
    r: Step<Result<T, Closed>, Receiver<T, W>>,
)
    requires
        call_ensures(Sender::<T, W>::close, (tx, a), ()),
        *old(b) == *final(a),
        call_ensures(Receiver::<T, W>::recv, (rx, b), r),
    ensures
        r matches Step::Done(Err(_)),
        final(a).waiter == old(a).waiter.woken(),
        final(b).state is Closed,
{
}

/// `recv` on a one-shot slot waits iff the sender has decided nothing, which is what
/// `can_recv` says, and then changes nothing.
pub proof fn one_shot_recv_waits_only_for_the_sender<T, W: BlockingWaiter>(
    rx: Receiver<T, W>,
    slot: &mut OneShot<T, W>,
    r: Step<Result<T, Closed>, Receiver<T, W>>,
    can: bool,
)
    requires
        call_ensures(OneShot::<T, W>::can_recv, (&*old(slot),), can),
        call_ensures(Receiver::<T, W>::recv, (rx, slot), r),
    ensures
        r is Wait ==> old(slot).state is Empty,
        old(slot).state is Empty ==> r is Wait,
        can <==> !(old(slot).state is Empty),
        !can ==> *final(slot) == *old(slot),
        final(slot).waiter == old(slot).waiter,
{
}

/// What the sender of a one-shot slot sends is what `recv_async` gives, exactly once:
/// the next attempt finds the slot closed. The receiver is woken.
pub proof fn one_shot_recv_async_gives_the_value_once<T, W: AsyncWaiter>(
    tx: Sender<T, W>,
    rx: Receiver<T, W>,
    again: &Receiver<T, W>,
    a: &mut OneShot<T, W>,
    b: &mut OneShot<T, W>,
    c: &mut OneShot<T, W>,
    value: T,
    r: Step<Result<T, Closed>, Receiver<T, W>>,
    second: Result<Option<T>, Closed>,
)
    requires
        call_ensures(Sender::<T, W>::send, (tx, a, value), ()),
        *old(b) == *final(a),
        call_ensures(Receiver::<T, W>::recv_async, (rx, b), r),
        *old(c) == *final(b),
        call_ensures(Receiver::<T, W>::try_recv, (again, c), second),
    ensures
        r matches Step::Done(Ok(v)) && v == value,
        second is Err,
        final(a).waiter == old(a).waiter.woken(),
{
}

/// A sender of a one-shot slot that leaves without sending ends every `recv_async`, and
/// wakes the receiver.
pub proof fn one_shot_recv_async_ends_when_the_sender_leaves<T, W: AsyncWaiter>(
    tx: Sender<T, W>,
    rx: Receiver<T, W>,
    a: &mut OneShot<T, W>,
    b: &mut OneShot<T, W>,
    r: Step<Result<T, Closed>, Receiver<T, W>>,
)
    requires
        call_ensures(Sender::<T, W>::close, (tx, a), ()),
        *old(b) == *final(a),
        call_ensures(Receiver::<T, W>::recv_async, (rx, b), r),
    ensures
        r matches Step::Done(Err(_)),
        final(a).waiter == old(a).waiter.woken(),
        final(b).state is Closed,
{
}

/// `recv_async` on a one-shot slot waits iff the sender has decided nothing, which is what
/// `can_recv` says, and then changes nothing.
pub proof fn one_shot_recv_async_waits_only_for_the_sender<T, W: AsyncWaiter>(
    rx: Receiver<T, W>,
    slot: &mut OneShot<T, W>,
    r: Step<Result<T, Closed>, Receiver<T, W>>,
    can: bool,
)
    requires
        call_ensures(OneShot::<T, W>::can_recv, (&*old(slot),), can),
        call_ensures(Receiver::<T, W>::recv_async, (rx, slot), r),
    ensures
        r is Wait ==> old(slot).state is Empty,
        old(slot).state is Empty ==> r is Wait,
        can <==> !(old(slot).state is Empty),
        !can ==> *final(slot) == *old(slot),
        final(slot).waiter == old(slot).waiter,
{
}

/// What is sent to a one-shot slot of a task is what `recv` gives, exactly once, and
/// the task is notified; a sender that leaves ends the wait instead.
pub proof fn task_slot_recv_gives_the_value_once<T>(
    tx: tasks::Sender<T>,
    rx: tasks::Receiver<T>,
    again: &tasks::Receiver<T>,
    a: &mut tasks::OneShotAsync<T>,
    b: &mut tasks::OneShotAsync<T>,
    c: &mut tasks::OneShotAsync<T>,
    value: T,
    r: Step<Result<T, Closed>, tasks::Receiver<T>>,
    second: Option<Result<T, Closed>>,
)
    requires
        call_ensures(tasks::Sender::<T>::send, (tx, a, value), ()),
        *old(b) == *final(a),
        call_ensures(tasks::Receiver::<T>::recv, (rx, b), r),
        *old(c) == *final(b),
        call_ensures(tasks::Receiver::<T>::try_recv, (again, c), second),
    ensures
        r matches Step::Done(Ok(v)) && v == value,
        second matches Some(Err(_)),
        final(a).owed,
{
}

/// `recv` of a task ends when the sender leaves, and waits iff the sender has
/// decided nothing.
pub proof fn task_slot_recv_waits_only_for_the_sender<T>(
    tx: tasks::Sender<T>,
    rx: tasks::Receiver<T>,
    a: &mut tasks::OneShotAsync<T>,
    b: &mut tasks::OneShotAsync<T>,
    slot: &mut tasks::OneShotAsync<T>,
    left: Step<Result<T, Closed>, tasks::Receiver<T>>,
    r: Step<Result<T, Closed>, tasks::Receiver<T>>,
)
    requires
        call_ensures(tasks::Sender::<T>::close, (tx, a), ()),
        *old(b) == *final(a),
        call_ensures(tasks::Receiver::<T>::recv, (rx, b), left),
        call_ensures(tasks::Receiver::<T>::recv, (rx, slot), r),
    ensures
        left matches Step::Done(Err(_)),
        final(a).owed,
        r is Wait <==> old(slot).state is Empty,
        old(slot).state is Empty ==> *final(slot) == *old(slot),
{
}

/// What is sent to a one-shot slot of a task is what `try_recv` gives, exactly once, and
/// the task is notified; a sender that leaves ends the wait instead.
pub proof fn task_slot_try_recv_gives_the_value_once<T>(
    tx: tasks::Sender<T>,
    rx: &tasks::Receiver<T>,
    again: &tasks::Receiver<T>,
    a: &mut tasks::OneShotAsync<T>,
    b: &mut tasks::OneShotAsync<T>,
    c: &mut tasks::OneShotAsync<T>,
    value: T,
    r: Option<Result<T, Closed>>,
    second: Option<Result<T, Closed>>,
)
    requires
        call_ensures(tasks::Sender::<T>::send, (tx, a, value), ()),
        *old(b) == *final(a),
        call_ensures(tasks::Receiver::<T>::try_recv, (rx, b), r),
        *old(c) == *final(b),
        call_ensures(tasks::Receiver::<T>::try_recv, (again, c), second),
    ensures
        r matches Some(Ok(v)) && v == value,
        second matches Some(Err(_)),
        final(a).owed,
{
}

/// `try_recv` of a task ends when the sender leaves, and waits iff the sender has
/// decided nothing.
pub proof fn task_slot_try_recv_waits_only_for_the_sender<T>(
    tx: tasks::Sender<T>,
    rx: &tasks::Receiver<T>,
    a: &mut tasks::OneShotAsync<T>,
    b: &mut tasks::OneShotAsync<T>,
    slot: &mut tasks::OneShotAsync<T>,
    left: Option<Result<T, Closed>>,
    r: Option<Result<T, Closed>>,
)
    requires
        call_ensures(tasks::Sender::<T>::close, (tx, a), ()),
        *old(b) == *final(a),
        call_ensures(tasks::Receiver::<T>::try_recv, (rx, b), left),
        call_ensures(tasks::Receiver::<T>::try_recv, (rx, slot), r),
    ensures
        left matches Some(Err(_)),
        final(a).owed,
        r is None <==> old(slot).state is Empty,
        old(slot).state is Empty ==> *final(slot) == *old(slot),
{
}

/// A notification that a one-shot slot of a task owes is delivered once.
pub proof fn task_slot_notifies_once<T>(
    a: &mut tasks::OneShotAsync<T>,
    b: &mut tasks::OneShotAsync<T>,
    first: bool,
    second: bool,
)
    requires
        call_ensures(tasks::OneShotAsync::<T>::settle, (a,), first),
        *old(b) == *final(a),
        call_ensures(tasks::OneShotAsync::<T>::settle, (b,), second),
    ensures
        first == old(a).owed,
        !second,
        final(b).state == old(a).state,
{
}

/// A new one-shot slot is undecided.
pub proof fn one_shot_starts_undecided<T, W: Waiter>(
    r: (OneShot<T, W>, Sender<T, W>, Receiver<T, W>),
    s: (tasks::OneShotAsync<T>, tasks::Sender<T>, tasks::Receiver<T>),
    can: bool,
)
    requires
        call_ensures(OneShot::<T, W>::new, (), r),
        call_ensures(tasks::OneShotAsync::<T>::new, (), s),
        call_ensures(OneShot::<T, W>::can_recv, (&r.0,), can),
    ensures
        !can,
        r.0.state is Empty,
        s.0.state is Empty,
        !s.0.owed,
{
}

/// A one-time signal that was released lets every `try_acquire` through, one whose sender has
/// gone fails it, and it waits iff neither has happened; the receiver is woken by
/// either.
pub proof fn one_signal_try_acquire_follows_the_sender<W: Waiter>(
    tx: OneSender<W>,
    rx: &OneReceiver<W>,
    released: &mut OneSignal<W>,
    closed: &mut OneSignal<W>,
    pending: &OneSignal<W>,
    r: Result<Option<()>, AcquireError>,
    s: Result<Option<()>, AcquireError>,
    t: Result<Option<()>, AcquireError>,
    settled: bool,
)
    requires
        call_ensures(OneSender::<W>::release, (tx, released), ()),
        call_ensures(OneReceiver::<W>::try_acquire, (rx, &*final(released)), r),
        call_ensures(OneSender::<W>::close, (tx, closed), ()),
        call_ensures(OneReceiver::<W>::try_acquire, (rx, &*final(closed)), s),
        call_ensures(OneReceiver::<W>::try_acquire, (rx, pending), t),
        call_ensures(OneSignal::<W>::is_settled, (pending,), settled),
    ensures
        r matches Ok(Some(_)),
        s matches Err(AcquireError::Closed),
        t matches Ok(None) ==> pending.state is Pending,
        pending.state is Pending ==> t == Ok::<Option<()>, AcquireError>(None),
        settled <==> !(pending.state is Pending),
        final(released).waiter == old(released).waiter.woken(),
        final(closed).waiter == old(closed).waiter.woken(),
{
}

/// A one-time signal that was released lets every `acquire` through, one whose sender has
/// gone fails it, and it waits iff neither has happened; the receiver is woken by
/// either.
pub proof fn one_signal_acquire_follows_the_sender<W: BlockingWaiter>(
    tx: OneSender<W>,
    rx: OneReceiver<W>,
    released: &mut OneSignal<W>,
    closed: &mut OneSignal<W>,
    pending: &OneSignal<W>,
    r: Step<Result<(), AcquireError>, OneReceiver<W>>,
    s: Step<Result<(), AcquireError>, OneReceiver<W>>,
    t: Step<Result<(), AcquireError>, OneReceiver<W>>,
    settled: bool,
)
    requires
        call_ensures(OneSender::<W>::release, (tx, released), ()),
        call_ensures(OneReceiver::<W>::acquire, (rx, &*final(released)), r),
        call_ensures(OneSender::<W>::close, (tx, closed), ()),
        call_ensures(OneReceiver::<W>::acquire, (rx, &*final(closed)), s),
        call_ensures(OneReceiver::<W>::acquire, (rx, pending), t),
        call_ensures(OneSignal::<W>::is_settled, (pending,), settled),
    ensures
        r matches Step::Done(Ok(_)),
        s matches Step::Done(Err(AcquireError::Closed)),
        t is Wait ==> pending.state is Pending,
        pending.state is Pending ==> t is Wait,
        settled <==> !(pending.state is Pending),
        final(released).waiter == old(released).waiter.woken(),
        final(closed).waiter == old(closed).waiter.woken(),
{
}

/// A one-time signal that was released lets every `acquire_async` through, one whose sender has
/// gone fails it, and it waits iff neither has happened; the receiver is woken by
/// either.
pub proof fn one_signal_acquire_async_follows_the_sender<W: AsyncWaiter>(
    tx: OneSender<W>,
    rx: OneReceiver<W>,
    released: &mut OneSignal<W>,
    closed: &mut OneSignal<W>,
    pending: &OneSignal<W>,
    r: Step<Result<(), AcquireError>, OneReceiver<W>>,
    s: Step<Result<(), AcquireError>, OneReceiver<W>>,
    t: Step<Result<(), AcquireError>, OneReceiver<W>>,
    settled: bool,
)
    requires
        call_ensures(OneSender::<W>::release, (tx, released), ()),
        call_ensures(OneReceiver::<W>::acquire_async, (rx, &*final(released)), r),
        call_ensures(OneSender::<W>::close, (tx, closed), ()),
        call_ensures(OneReceiver::<W>::acquire_async, (rx, &*final(closed)), s),
        call_ensures(OneReceiver::<W>::acquire_async, (rx, pending), t),
        call_ensures(OneSignal::<W>::is_settled, (pending,), settled),
    ensures
        r matches Step::Done(Ok(_)),
        s matches Step::Done(Err(AcquireError::Closed)),
        t is Wait ==> pending.state is Pending,
        pending.state is Pending ==> t is Wait,
        settled <==> !(pending.state is Pending),
        final(released).waiter == old(released).waiter.woken(),
        final(closed).waiter == old(closed).waiter.woken(),
{
}

/// A wait for a one-time signal with a deadline says what the sender has decided, and
/// that time is up only if it has decided nothing.
pub proof fn one_signal_timeout_comes_last(
    rx: OneReceiver<ParkWaiter>,
    signal: &OneSignal<ParkWaiter>,
    timed_out: bool,
    r: Result<(), AcquireError>,
)
    requires
        call_ensures(OneReceiver::<ParkWaiter>::acquire_timeout, (rx, signal, timed_out), r),
    ensures
        r is Ok <==> signal.state is Released,
        r matches Err(AcquireError::Closed) ==> signal.state is Closed,
        r matches Err(AcquireError::TimedOut) ==> signal.state is Pending,
{
}

/// A new one-time signal is undecided.
pub proof fn one_signal_starts_undecided<W: Waiter>(
    r: (OneSignal<W>, OneSender<W>, OneReceiver<W>),
    settled: bool,
)
    requires
        call_ensures(OneSignal::<W>::new, (), r),
        call_ensures(OneSignal::<W>::is_settled, (&r.0,), settled),
    ensures
        !settled,
        r.0.waiter == W::initial(),
{
}

} // verus!
