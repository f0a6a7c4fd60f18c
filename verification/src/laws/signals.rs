//! What the operations of the signals come to: a release opens and wakes, a lock
//! closes, and an acquire goes through exactly when the signal is open.
use crate::bits::{bit_set, lemma_has_bit, lemma_has_ops};
use crate::gate::gate::Signal as PlainSignal;
use crate::gate::park::Park;
use crate::gate::signal::{BitView, BoolView, OwnedBool, Signal, SignalSource};
use crate::gate::signal_packed::{PackedPhase, SignalPacked};
use crate::gate::signal_states::{AcquirePhase, ReleasePhase, SignalStates};
use crate::waiter::{WaitPhase, Waiter};
use vstd::prelude::*;

verus! {

/// A release opens a signal and wakes whoever waits on it.
pub proof fn signal_release_opens<S: SignalSource>(
    s: &mut Signal<S>,
    cell: &mut S::Cell,
    open: bool,
)
    requires
        old(s).source.valid(),
        call_ensures(Signal::<S>::release, (s, cell), ()),
        call_ensures(Signal::<S>::is_open, (&*final(s), &*final(cell)), open),
    ensures
        open,
        final(s).parker == old(s).parker.woken(),
{
    old(s).source.open_and_close(*old(cell));
}

/// A lock closes a signal and wakes nobody.
pub proof fn signal_lock_closes<S: SignalSource>(
    s: &mut Signal<S>,
    cell: &mut S::Cell,
    open: bool,
)
    requires
        old(s).source.valid(),
        call_ensures(Signal::<S>::lock, (s, cell), ()),
        call_ensures(Signal::<S>::is_open, (&*final(s), &*final(cell)), open),
    ensures
        !open,
        final(s).parker == old(s).parker,
{
    old(s).source.open_and_close(*old(cell));
}

/// An acquire goes through exactly at a probe that finds the signal open, and neither
/// opens nor closes it.
pub proof fn signal_acquire_needs_it_open<S: SignalSource>(
    s: &mut Signal<S>,
    cell: &S::Cell,
    at: WaitPhase,
    next: WaitPhase,
    open: bool,
)
    requires
        call_ensures(Signal::<S>::is_open, (&*old(s), cell), open),
        call_ensures(Signal::<S>::acquire, (s, cell, at), next),
    ensures
        (at is Entry || at is Tight || at is Pause || at is Recheck || at is Park) ==> ((next is Done
            || next is Leave) <==> open),
        at is Entry && open ==> next is Done,
        next is Park ==> final(s).parker.parked,
        final(s).source == old(s).source,
{
}

/// A signal on its own flag starts closed; one on a flag or a bit from elsewhere says
/// what that flag or bit says, and touches nothing else there.
pub proof fn signal_sources_say_what_they_are(
    own: Signal<OwnedBool>,
    flag: Signal<BoolView>,
    on: &mut Signal<BitView>,
    off: &mut Signal<BitView>,
    up: &mut u64,
    down: &mut u64,
    cell: &bool,
    word: &u64,
    i: u8,
    k: int,
    a: bool,
    b: bool,
    c: bool,
)
    requires
        i < 64,
        0 <= k < 64,
        call_ensures(Signal::<OwnedBool>::new, (), own),
        call_ensures(Signal::<OwnedBool>::is_open, (&own, &()), a),
        call_ensures(Signal::<BoolView>::from_bool, (), flag),
        call_ensures(Signal::<BoolView>::is_open, (&flag, cell), b),
        call_ensures(Signal::<BitView>::from_bit, (i,), *old(on)),
        *old(off) == *old(on),
        call_ensures(Signal::<BitView>::is_open, (&*old(on), word), c),
        call_ensures(Signal::<BitView>::release, (on, up), ()),
        call_ensures(Signal::<BitView>::lock, (off, down), ()),
    ensures
        !a,
        b == *cell,
        c == bit_set(*word, i as int),
        bit_set(*final(up), k) == (bit_set(*old(up), k) || k == i),
        bit_set(*final(down), k) == (bit_set(*old(down), k) && k != i),
{
    lemma_has_ops(*old(up), crate::bits::bit(i as int), k);
    lemma_has_ops(*old(down), crate::bits::bit(i as int), k);
    lemma_has_bit(k, i as int);
}

/// A plain signal starts closed; a release opens it and wakes, a lock closes it, and
/// looking at it changes nothing.
pub proof fn plain_signal_opens_and_closes(
    fresh: PlainSignal,
    a: &mut PlainSignal,
    b: &mut PlainSignal,
    first: bool,
    second: bool,
    third: bool,
)
    requires
        call_ensures(PlainSignal::new, (), fresh),
        call_ensures(PlainSignal::is_open, (&fresh,), first),
        call_ensures(PlainSignal::release, (a,), ()),
        call_ensures(PlainSignal::is_open, (&*final(a),), second),
        *old(b) == *final(a),
        call_ensures(PlainSignal::lock, (b,), ()),
        call_ensures(PlainSignal::is_open, (&*final(b),), third),
    ensures
        !first,
        second,
        !third,
        final(a).parker == old(a).parker.woken(),
        final(b).parker == old(b).parker,
{
}

/// An acquire of a plain signal goes through exactly at a probe that finds it open, and
/// neither opens nor closes it.
pub proof fn plain_signal_acquire_needs_it_open(
    s: &mut PlainSignal,
    at: WaitPhase,
    next: WaitPhase,
    open: bool,
)
    requires
        call_ensures(PlainSignal::is_open, (&*old(s),), open),
        call_ensures(PlainSignal::acquire, (s, at), next),
    ensures
        (at is Entry || at is Tight || at is Pause || at is Recheck || at is Park) ==> ((next is Done
            || next is Leave) <==> open),
        at is Entry && open ==> next is Done,
        next is Park ==> final(s).parker.parked,
        final(s).locked == old(s).locked,
{
}

/// A parking place registers, wakes and waits as the thread backend does: a wake of a
/// registered thread that parks is owed, and a wait ends exactly at a probe that
/// succeeds.
pub proof fn parking_place_wakes_whoever_parks(
    a: &mut Park,
    b: &mut Park,
    c: &mut Park,
    at: WaitPhase,
    ready: bool,
    next: WaitPhase,
    seen: bool,
)
    requires
        call_ensures(Park::set_worker, (a,), ()),
        call_ensures(Park::has_worker, (&*final(a),), seen),
        call_ensures(Park::wake, (b,), ()),
        call_ensures(Park::wait_until, (c, at, ready), next),
    ensures
        seen,
        final(a).waiter.parked == old(a).waiter.parked,
        old(b).waiter.parked && old(b).waiter.registered ==> final(b).waiter.owed,
        final(b).waiter.parked == old(b).waiter.parked,
        (at is Entry || at is Tight || at is Pause || at is Recheck || at is Park) ==> ((next is Done
            || next is Leave) <==> ready),
        next is Park ==> final(c).waiter.parked,
{
}

/// A packed signal is opened by a release, which owes an unpark to a registered thread
/// that has said it parks, delivered once; a lock closes it.
pub proof fn packed_signal_opens_and_closes(
    a: &mut SignalPacked,
    b: &mut SignalPacked,
    c: &mut SignalPacked,
    d: &mut SignalPacked,
    open: bool,
    shut: bool,
    first: bool,
    second: bool,
)
    requires
        old(a).wf(),
        call_ensures(SignalPacked::release, (a,), ()),
        call_ensures(SignalPacked::is_open, (&*final(a),), open),
        *old(b) == *final(a),
        call_ensures(SignalPacked::settle, (b,), first),
        *old(c) == *final(b),
        call_ensures(SignalPacked::settle, (c,), second),
        *old(d) == *final(c),
        call_ensures(SignalPacked::lock, (d,), ()),
        call_ensures(SignalPacked::is_open, (&*final(d),), shut),
    ensures
        open,
        !shut,
        first <==> old(a).owed || (old(a).parked() && old(a).registered),
        !second,
        final(a).parked() == old(a).parked(),
        final(d).parked() == old(a).parked(),
        final(d).registered == old(a).registered,
{
}

/// An acquire of a packed signal goes through exactly at a probe that finds it open; a
/// thread parks only after it has said so and seen the signal closed, and says so no
/// more when it leaves.
pub proof fn packed_acquire_needs_it_open(
    s: &mut SignalPacked,
    at: PackedPhase,
    next: PackedPhase,
    open: bool,
)
    requires
        old(s).wf(),
        call_ensures(SignalPacked::is_open, (&*old(s),), open),
        call_ensures(SignalPacked::acquire, (s, at), next),
    ensures
        (at is Entry || at is Tight || at is Pause || at is Commit || at is Park) ==> ((next is Done
            || next is Leave) <==> open),
        next is Park ==> !open && (at is Commit || at is Park),
        at is Commit ==> final(s).parked(),
        at is Leave ==> next is Done && !final(s).parked(),
        final(s).opened() == old(s).opened(),
        final(s).owed == old(s).owed,
{
    let state = old(s).state;
    assert((state | 2u8) & 2u8 != 0 && (state & !2u8) & 2u8 == 0) by (bit_vector);
}

/// A new packed signal is closed with nobody registered.
pub proof fn packed_signal_starts_closed(
    s: SignalPacked,
    t: SignalPacked,
    spin: u32,
    a: bool,
    b: bool,
)
    requires
        call_ensures(SignalPacked::new, (), s),
        call_ensures(SignalPacked::with_spin, (spin,), t),
        call_ensures(SignalPacked::is_open, (&s,), a),
        call_ensures(SignalPacked::is_open, (&t,), b),
    ensures
        !a,
        !b,
        !s.registered,
        !s.owed,
        !t.registered,
        !t.owed,
        t.spin_iters == spin,
{
    assert(0u8 & 1u8 == 0 && 0u8 & 2u8 == 0) by (bit_vector);
}

/// A release of a signal with states is seen by the consumer unless that is awake
/// already; a parked consumer that has registered is owed an unpark, once.
pub proof fn states_release_reaches_the_consumer(
    a: &mut SignalStates,
    b: &mut SignalStates,
    c: &mut SignalStates,
    open: bool,
    first: bool,
    second: bool,
)
    requires
        call_ensures(SignalStates::release, (a,), ()),
        call_ensures(SignalStates::is_open, (&*final(a),), open),
        *old(b) == *final(a),
        call_ensures(SignalStates::settle, (b,), first),
        *old(c) == *final(b),
        call_ensures(SignalStates::settle, (c,), second),
    ensures
        open <==> !(old(a).state is Unparked),
        first <==> old(a).owed || (old(a).state is Parked && old(a).registered),
        !second,
        final(a).registered == old(a).registered,
        old(a).state is Unparked ==> final(a).state is Unparked,
{
}

/// A release of a signal with states that is made step by step, undisturbed, does what
/// a release in one go does.
pub proof fn states_release_steps_make_a_release(
    whole: &mut SignalStates,
    a: &mut SignalStates,
    b: &mut SignalStates,
    first: ReleasePhase,
    second: ReleasePhase,
)
    requires
        *old(a) == *old(whole),
        call_ensures(SignalStates::release, (whole,), ()),
        call_ensures(SignalStates::release_step, (a, ReleasePhase::Load), first),
        *old(b) == *final(a),
        call_ensures(SignalStates::release_step, (b, first), second),
    ensures
        second is Done,
        *final(b) == *final(whole),
{
}

/// An acquire of a signal with states goes through only when the consumer is awake
/// already or a signal has been given, which it then uses up; it parks only after it
/// has committed to it and no signal was there.
pub proof fn states_acquire_uses_up_the_signal(
    s: &mut SignalStates,
    at: AcquirePhase,
    next: AcquirePhase,
    open: bool,
)
    requires
        call_ensures(SignalStates::is_open, (&*old(s),), open),
        call_ensures(SignalStates::acquire, (s, at), next),
    ensures
        next is Consume ==> open,
        open && (at is Check || at is Tight || at is Pause || at is Commit || at is Park) ==> next is Consume,
        next is Done && !(at is Done) ==> at is Consume || old(s).state is Unparked,
        at is Check && old(s).state is Unparked ==> next is Done,
        at is Consume ==> next is Done && final(s).state is Unparked,
        next is Park ==> !open,
        at is Commit && next is Park ==> final(s).state is Parked,
        at is Check || at is Tight || at is Pause || at is Park ==> *final(s) == *old(s),
        final(s).owed == old(s).owed,
{
}

/// A lock of a signal with states makes the next acquire wait, unless a signal is still
/// to be used up; a new one makes the first acquire wait.
pub proof fn states_lock_makes_the_next_acquire_wait(
    fresh: SignalStates,
    a: &mut SignalStates,
    before: bool,
    after: bool,
    none: bool,
)
    requires
        call_ensures(SignalStates::new, (), fresh),
        call_ensures(SignalStates::is_open, (&fresh,), none),
        call_ensures(SignalStates::is_open, (&*old(a),), before),
        call_ensures(SignalStates::lock, (a,), ()),
        call_ensures(SignalStates::is_open, (&*final(a),), after),
    ensures
        !none,
        fresh.state is PendingPark,
        after == before,
        !(final(a).state is Unparked),
        final(a).owed == old(a).owed,
{
}

} // verus!
