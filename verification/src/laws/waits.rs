//! What the operations of the wait/wake backends come to: a wait ends only when the
//! condition was seen to hold, nobody sleeps unannounced, and a wake that finds
//! somebody waiting is delivered once.
use crate::waiter::{AsyncWaiter, AwaitPhase, BlockingWaiter, DeadlinePhase, NotifyWaiter, ParkWaiter, WaitPhase, WakeGate, Waiter};
use vstd::prelude::*;

verus! {

/// A wake of a registered thread that has announced that it parks is owed to it, and
/// delivered once; a wake of anybody else is owed to nobody. Nothing else changes.
pub proof fn park_wake_is_delivered_once(
    a: &mut ParkWaiter,
    b: &mut ParkWaiter,
    c: &mut ParkWaiter,
    first: bool,
    second: bool,
)
    requires
        call_ensures(<ParkWaiter as Waiter>::wake, (a,), ()),
        *old(b) == *final(a),
        call_ensures(<ParkWaiter as Waiter>::settle, (b,), first),
        *old(c) == *final(b),
        call_ensures(<ParkWaiter as Waiter>::settle, (c,), second),
    ensures
        first <==> old(a).owed || (old(a).parked && old(a).registered),
        !second,
        final(a).parked == old(a).parked,
        final(a).registered == old(a).registered,
        final(b).parked == old(a).parked,
{
}

/// A thread that has registered can be reached from then on.
pub proof fn park_registration_lasts(
    a: &mut ParkWaiter,
    b: &mut ParkWaiter,
    before: bool,
    after: bool,
    woken: bool,
)
    requires
        call_ensures(<ParkWaiter as Waiter>::has_worker, (&*old(a),), before),
        call_ensures(<ParkWaiter as Waiter>::set_worker, (a,), ()),
        call_ensures(<ParkWaiter as Waiter>::has_worker, (&*final(a),), after),
        *old(b) == *final(a),
        call_ensures(<ParkWaiter as Waiter>::wake, (b,), ()),
        call_ensures(<ParkWaiter as Waiter>::has_worker, (&*final(b),), woken),
    ensures
        before == old(a).registered,
        after,
        woken,
        final(a).parked == old(a).parked,
        final(a).owed == old(a).owed,
{
}

/// A wait of a thread ends exactly at a probe that succeeds, and a thread parks only
/// behind its announcement and a probe that has failed since.
pub proof fn park_wait_ends_at_a_successful_probe(
    w: &mut ParkWaiter,
    at: WaitPhase,
    ready: bool,
    next: WaitPhase,
)
    requires
        call_ensures(<ParkWaiter as BlockingWaiter>::wait_until, (w, at, ready), next),
    ensures
        (at is Entry || at is Tight || at is Pause || at is Recheck || at is Park) ==> ((next is Done || next is Leave) <==> ready),
        next is Park ==> final(w).parked && !ready && (at is Recheck || at is Park),
        at is Announce ==> next is Recheck && final(w).parked,
        at is Leave ==> next is Done,
        next is Done ==> !final(w).parked,
        at is Recheck || at is Park ==> !(next is Done),
        final(w).registered == old(w).registered,
        final(w).owed == old(w).owed,
        final(w).spin_iters == old(w).spin_iters,
{
}

/// A probe that fails brings a thread nearer to parking: it spins a bounded number of
/// times and then announces that it parks.
pub proof fn park_spins_a_bounded_time(
    w: &mut ParkWaiter,
    at: WaitPhase,
    next: WaitPhase,
)
    requires
        call_ensures(<ParkWaiter as BlockingWaiter>::wait_until, (w, at, false), next),
    ensures
        at is Entry ==> next is Tight,
        at matches WaitPhase::Tight { left } ==> match next {
            WaitPhase::Tight { left: after } => after < left,
            WaitPhase::Pause { left: after } => left <= 1 && after == old(w).spin_iters && after > 0,
            WaitPhase::Announce => left <= 1 && old(w).spin_iters == 0,
            _ => false,
        },
        at matches WaitPhase::Pause { left } ==> match next {
            WaitPhase::Pause { left: after } => after < left,
            WaitPhase::Announce => left <= 1,
            _ => false,
        },
        at is Recheck || at is Park ==> next is Park,
{
}

/// A wait with a deadline ends well exactly at a probe that succeeds, and runs out of
/// time only when the clock said so and the probe after that, if there was one to
/// make, failed too; no announcement is left behind.
pub proof fn park_deadline_comes_last(
    w: &mut ParkWaiter,
    at: DeadlinePhase,
    ready: bool,
    expired: bool,
    next: DeadlinePhase,
)
    requires
        call_ensures(ParkWaiter::wait_until_deadline, (w, at, ready, expired), next),
    ensures
        (at is Entry || at is Tight || at is Pause || at is Recheck || at is Park || at is LastLook) ==> ((
        next is Done || next is Leave) <==> ready),
        next is TimedOut && !(at is TimedOut) ==> !ready && (at is LastLook || (expired && (at is Tight
            || at is Pause))),
        at is Clock ==> (next is Retire <==> expired) && (next is Park <==> !expired),
        at is Retire ==> next is LastLook && !final(w).parked,
        next is Park ==> final(w).parked,
        next is Done || next is TimedOut ==> !final(w).parked,
        at is Announce ==> next is Recheck && final(w).parked,
        at is Leave ==> next is Done,
{
}

/// A wake of a backend for tasks is owed iff a notification future is alive, and
/// delivered once; the futures are not touched.
pub proof fn notify_wake_is_delivered_once(
    a: &mut NotifyWaiter,
    b: &mut NotifyWaiter,
    c: &mut NotifyWaiter,
    first: bool,
    second: bool,
)
    requires
        call_ensures(<NotifyWaiter as Waiter>::wake, (a,), ()),
        *old(b) == *final(a),
        call_ensures(<NotifyWaiter as Waiter>::settle, (b,), first),
        *old(c) == *final(b),
        call_ensures(<NotifyWaiter as Waiter>::settle, (c,), second),
    ensures
        first <==> old(a).inner.owed || old(a).inner.armed > 0,
        !second,
        final(c).inner.armed == old(a).inner.armed,
{
}

/// A wait of a task ends exactly at a probe that succeeds; it suspends only with a
/// future alive and after a probe since that has failed; every future that it makes
/// it also uses up or drops.
pub proof fn notify_wait_ends_at_a_successful_probe(
    w: &mut NotifyWaiter,
    at: AwaitPhase,
    ready: bool,
    next: AwaitPhase,
)
    requires
        old(w).can_poll(at),
        call_ensures(<NotifyWaiter as AsyncWaiter>::wait_until, (w, at, ready), next),
    ensures
        at is Entry || at is Woken ==> (next is Done <==> ready) && (next is Arm <==> !ready),
        at is Armed ==> (next is Leave <==> ready) && (next is Suspended <==> !ready),
        next is Suspended ==> at is Armed && final(w).inner.armed > 0,
        at is Arm ==> next is Armed && final(w).inner.armed == old(w).inner.armed + 1,
        at is Suspended ==> next is Woken && final(w).inner.armed == old(w).inner.armed - 1,
        at is Leave ==> next is Done && final(w).inner.armed == old(w).inner.armed - 1,
        at is Entry || at is Woken || at is Armed || at is Done ==> final(w).inner.armed == old(w).inner.armed,
        final(w).inner.owed == old(w).inner.owed,
{
}

/// A wait of a task that is dropped takes its future with it, if it has one.
pub proof fn notify_cancel_drops_the_future(
    w: &mut NotifyWaiter,
    at: AwaitPhase,
)
    requires
        old(w).can_poll(at),
        call_ensures(NotifyWaiter::cancel, (w, at), ()),
    ensures
        final(w).inner.armed == old(w).inner.armed - (if at is Armed || at is Suspended || at is Leave {
            1int
        } else {
            0
        }),
        final(w).inner.owed == old(w).inner.owed,
{
}

/// The futures of a wake counter are counted one by one, and a wake is owed iff there
/// is one.
pub proof fn wake_counter_counts(
    a: &mut WakeGate,
    b: &mut WakeGate,
    c: &mut WakeGate,
    fresh: WakeGate,
)
    requires
        call_ensures(WakeGate::new, (), fresh),
        old(a).armed < usize::MAX,
        call_ensures(WakeGate::notified, (a,), ()),
        *old(b) == *final(a),
        call_ensures(WakeGate::wake, (b,), ()),
        *old(c) == *final(b),
        call_ensures(WakeGate::disarm, (c,), ()),
    ensures
        fresh.armed == 0,
        !fresh.owed,
        final(a).armed == old(a).armed + 1,
        final(b).owed,
        final(c).armed == old(a).armed,
{
}

} // verus!
