//! What the operations on sets of gates and on lifelines come to, gate by gate and
//! waiter by waiter.
use crate::bits::{bit, bit_set, lemma_has_bit, lemma_has_low_mask, lemma_has_nonzero, lemma_has_ops, lemma_has_zero, lemma_same_bits, lemma_zero_iff};
use crate::gate::lifeline::{Lifeline, WaiterId};
use crate::gate::signal_set::{SignalId, SignalSet};
use crate::waiter::{AsyncWaiter, AwaitPhase, BlockingWaiter, NotifyWaiter, ParkWaiter, WaitPhase, Waiter};
use vstd::prelude::*;

verus! {

/// Gates of different words, or of different places of one word, are different.
proof fn lemma_places(i: int, j: int)
    requires
        0 <= i,
        0 <= j,
    ensures
        0 <= i % 64 < 64,
        0 <= j % 64 < 64,
        i == j <==> i / 64 == j / 64 && i % 64 == j % 64,
{
}

/// A release opens one gate and no other; the consumer is woken iff it was
/// closed. The gates stay registered as they were.
pub proof fn set_release_touches_one_gate<W: Waiter>(
    s: &mut SignalSet<W>,
    id: SignalId,
    other: SignalId,
    was: bool,
    after: bool,
    before: bool,
    now: bool,
)
    requires
        old(s).wf(),
        id.0 < old(s).capacity(),
        other.0 < old(s).capacity(),
        call_ensures(SignalSet::<W>::is_open, (&*old(s), id), was),
        call_ensures(SignalSet::<W>::release, (s, id), ()),
        call_ensures(SignalSet::<W>::is_open, (&*final(s), id), after),
        call_ensures(SignalSet::<W>::is_open, (&*old(s), other), before),
        call_ensures(SignalSet::<W>::is_open, (&*final(s), other), now),
    ensures
        after,
        now == (if other.0 == id.0 {
            true
        } else {
            before
        }),
        final(s).waiter == (if was {
            old(s).waiter
        } else {
            old(s).waiter.woken()
        }),
        final(s).names@ == old(s).names@,
        final(s).next_id == old(s).next_id,
        final(s).chunks@.len() == old(s).chunks@.len(),
{
    let i = id.0 as int;
    let j = other.0 as int;
    lemma_places(i, j);
    let w = old(s).chunks@[i / 64];
    lemma_has_ops(w, bit(i % 64), i % 64);
    lemma_has_ops(w, bit(i % 64), j % 64);
    lemma_has_bit(i % 64, i % 64);
    lemma_has_bit(j % 64, i % 64);
}

/// A lock closes one gate and no other, and wakes nobody. The gates stay registered
/// as they were.
pub proof fn set_lock_touches_one_gate<W: Waiter>(
    s: &mut SignalSet<W>,
    id: SignalId,
    other: SignalId,
    was: bool,
    after: bool,
    before: bool,
    now: bool,
)
    requires
        old(s).wf(),
        id.0 < old(s).capacity(),
        other.0 < old(s).capacity(),
        call_ensures(SignalSet::<W>::is_open, (&*old(s), id), was),
        call_ensures(SignalSet::<W>::lock, (s, id), ()),
        call_ensures(SignalSet::<W>::is_open, (&*final(s), id), after),
        call_ensures(SignalSet::<W>::is_open, (&*old(s), other), before),
        call_ensures(SignalSet::<W>::is_open, (&*final(s), other), now),
    ensures
        !after,
        now == (if other.0 == id.0 {
            false
        } else {
            before
        }),
        final(s).waiter == old(s).waiter,
        final(s).names@ == old(s).names@,
        final(s).next_id == old(s).next_id,
        final(s).chunks@.len() == old(s).chunks@.len(),
{
    let i = id.0 as int;
    let j = other.0 as int;
    lemma_places(i, j);
    let w = old(s).chunks@[i / 64];
    lemma_has_ops(w, bit(i % 64), i % 64);
    lemma_has_ops(w, bit(i % 64), j % 64);
    lemma_has_bit(i % 64, i % 64);
    lemma_has_bit(j % 64, i % 64);
}

/// Locking the gates of a mask closes exactly those of the first word; locking a mask of
/// one word closes exactly those of that word.
pub proof fn set_lock_mask_closes_the_mask<W: Waiter>(
    s: &mut SignalSet<W>,
    t: &mut SignalSet<W>,
    mask: u64,
    chunk: usize,
    c: int,
    k: int,
)
    requires
        old(s).wf(),
        old(t).wf(),
        chunk < old(t).chunks@.len(),
        0 <= k < 64,
        0 <= c,
        c < old(s).chunks@.len(),
        c < old(t).chunks@.len(),
        call_ensures(SignalSet::<W>::lock_mask, (s, mask), ()),
        call_ensures(SignalSet::<W>::lock_chunk_mask, (t, chunk, mask), ()),
    ensures
        bit_set(final(s).chunks@[c], k) <==> bit_set(old(s).chunks@[c], k) && !(c == 0 && bit_set(mask, k)),
        bit_set(final(t).chunks@[c], k) <==> bit_set(old(t).chunks@[c], k) && !(c == chunk && bit_set(
            mask,
            k,
        )),
        final(s).waiter == old(s).waiter,
        final(t).waiter == old(t).waiter,
        final(s).names@ == old(s).names@,
        final(t).names@ == old(t).names@,
{
    lemma_has_ops(old(s).chunks@[0], mask, k);
    lemma_has_ops(old(t).chunks@[chunk as int], mask, k);
}

/// Asking for a mask asks gate by gate: some gate of it is open, or all are.
pub proof fn set_asks_gate_by_gate<W: Waiter>(
    s: &SignalSet<W>,
    mask: u64,
    any: bool,
    all: bool,
)
    requires
        s.wf(),
        call_ensures(SignalSet::<W>::any_open, (s, mask), any),
        call_ensures(SignalSet::<W>::all_open, (s, mask), all),
    ensures
        any <==> exists|k: int| 0 <= k < 64 && #[trigger] bit_set(mask, k) && bit_set(s.chunks@[0], k),
        all <==> forall|k: int| 0 <= k < 64 && #[trigger] bit_set(mask, k) ==> bit_set(s.chunks@[0], k),
{
    let w = s.chunks@[0];
    assert forall|k: int| 0 <= k < 64 implies #[trigger] bit_set(w & mask, k) == (bit_set(w, k) && bit_set(
        mask,
        k,
    )) by {
        lemma_has_ops(w, mask, k);
    }
    lemma_zero_iff(w & mask);
    if any {
        let k = choose|k: int| 0 <= k < 64 && #[trigger] bit_set(w & mask, k);
        assert(bit_set(mask, k));
    }
    if exists|k: int| 0 <= k < 64 && #[trigger] bit_set(mask, k) && bit_set(w, k) {
        let k = choose|k: int| 0 <= k < 64 && #[trigger] bit_set(mask, k) && bit_set(w, k);
        assert(bit_set(w & mask, k));
    }
    if all {
        assert forall|k: int| 0 <= k < 64 && #[trigger] bit_set(mask, k) implies bit_set(w, k) by {
            assert(bit_set(w & mask, k));
        }
    }
    if forall|k: int| 0 <= k < 64 && #[trigger] bit_set(mask, k) ==> bit_set(w, k) {
        assert forall|k: int| 0 <= k < 64 implies #[trigger] bit_set(w & mask, k) == bit_set(mask, k) by {}
        lemma_same_bits(w & mask, mask);
    }
}

/// The words of a set say which gates are open, and the set has one open iff some word
/// has.
pub proof fn set_words_tell_the_gates<W: Waiter>(
    s: &SignalSet<W>,
    id: SignalId,
    open: bool,
    first: u64,
    word: u64,
    c: usize,
    any: bool,
    n: usize,
    bits: usize,
)
    requires
        s.wf(),
        id.0 < s.capacity(),
        c < s.chunks@.len(),
        call_ensures(SignalSet::<W>::is_open, (s, id), open),
        call_ensures(SignalSet::<W>::state, (s,), first),
        call_ensures(SignalSet::<W>::state_chunk, (s, c), word),
        call_ensures(SignalSet::<W>::any_chunk_open, (s,), any),
        call_ensures(SignalSet::<W>::n_chunks, (s,), n),
        call_ensures(SignalSet::<W>::capacity_bits, (s,), bits),
    ensures
        id.0 < 64 ==> open == bit_set(first, id.0 as int),
        id.0 / 64 == c ==> open == bit_set(word, (id.0 % 64) as int),
        open ==> any,
        any ==> exists|d: int| 0 <= d < s.chunks@.len() && (#[trigger] s.chunks@[d]) != 0,
        word != 0 ==> any,
        n == s.chunks@.len(),
        bits == n * 64,
{
    let i = id.0 as int;
    lemma_places(i, i);
    if open {
        lemma_has_nonzero(s.chunks@[i / 64], i % 64);
        assert(s.chunks@[i / 64] != 0);
    }
}

/// A gate that is registered gets the next index, starts as it was, and is found under
/// its name; gates registered before keep theirs.
pub proof fn set_create_registers_the_next_gate<W: Waiter>(
    s: &mut SignalSet<W>,
    name: &'static str,
    id: SignalId,
    other: SignalId,
    before: Option<&'static str>,
    after: Option<&'static str>,
    own: Option<&'static str>,
    n: usize,
    m: usize,
)
    requires
        old(s).wf(),
        call_ensures(SignalSet::<W>::registered, (&*old(s),), n),
        call_ensures(SignalSet::<W>::create, (s, name), id),
        call_ensures(SignalSet::<W>::registered, (&*final(s),), m),
        call_ensures(SignalSet::<W>::name, (&*final(s), id), own),
        call_ensures(SignalSet::<W>::name, (&*old(s), other), before),
        call_ensures(SignalSet::<W>::name, (&*final(s), other), after),
    ensures
        id.0 == n,
        m == n + 1,
        own == Some(name),
        other.0 != id.0 ==> after == before,
        other.0 == id.0 ==> before is None,
        final(s).chunks@ == old(s).chunks@,
{
}

/// Looking up a name finds the first gate registered under it, or nothing iff there is
/// none.
pub proof fn set_finds_the_first_of_a_name<W: Waiter>(
    s: &SignalSet<W>,
    name: &str,
    r: Option<SignalId>,
    i: int,
)
    requires
        s.wf(),
        call_ensures(SignalSet::<W>::id_of, (s, name), r),
    ensures
        r matches Some(id) ==> id.0 < s.next_id && (s.names@[id.0 as int] matches Some(n) && n@ == name@),
        0 <= i < s.next_id && s.names@[i] is Some && s.names@[i]->0@ == name@ ==> r is Some,
        0 <= i < s.next_id && s.names@[i] is Some && s.names@[i]->0@ == name@ ==> (r matches Some(id) ==> id.0 <= i),
{
    if 0 <= i < s.next_id && s.names@[i] is Some && s.names@[i]->0@ == name@ {
        assert(s.named(i, name@));
    }
}

/// `SignalSet::acquire_any` goes through exactly at a probe that finds some gate of the mask
/// open, and neither opens nor closes any.
pub proof fn set_acquire_any_needs_it_open(
    s: &mut SignalSet<ParkWaiter>,
    mask: u64,
    at: WaitPhase,
    next: WaitPhase,
    open: bool,
)
    requires
        old(s).wf(),
        call_ensures(SignalSet::<ParkWaiter>::any_open, (&*old(s), mask), open),
        call_ensures(SignalSet::<ParkWaiter>::acquire_any, (s, mask, at), next),
    ensures
        (at is Entry || at is Tight || at is Pause || at is Recheck || at is Park) ==> ((next is Done
            || next is Leave) <==> open),
        final(s).chunks@ == old(s).chunks@,
        final(s).names@ == old(s).names@,
{
}

/// `SignalSet::acquire_any_async` goes through exactly at a probe that finds some gate of the mask
/// open, and neither opens nor closes any.
pub proof fn set_acquire_any_async_needs_it_open(
    s: &mut SignalSet<NotifyWaiter>,
    mask: u64,
    at: AwaitPhase,
    next: AwaitPhase,
    open: bool,
)
    requires
        old(s).wf(),
        call_ensures(SignalSet::<NotifyWaiter>::any_open, (&*old(s), mask), open),
        call_ensures(SignalSet::<NotifyWaiter>::acquire_any_async, (s, mask, at), next),
    ensures
        at is Entry || at is Woken ==> (next is Done <==> open),
        final(s).chunks@ == old(s).chunks@,
        final(s).names@ == old(s).names@,
{
}

/// `SignalSet::acquire_all` goes through exactly at a probe that finds every gate of the mask
/// open, and neither opens nor closes any.
pub proof fn set_acquire_all_needs_it_open(
    s: &mut SignalSet<ParkWaiter>,
    mask: u64,
    at: WaitPhase,
    next: WaitPhase,
    open: bool,
)
    requires
        old(s).wf(),
        call_ensures(SignalSet::<ParkWaiter>::all_open, (&*old(s), mask), open),
        call_ensures(SignalSet::<ParkWaiter>::acquire_all, (s, mask, at), next),
    ensures
        (at is Entry || at is Tight || at is Pause || at is Recheck || at is Park) ==> ((next is Done
            || next is Leave) <==> open),
        final(s).chunks@ == old(s).chunks@,
        final(s).names@ == old(s).names@,
{
}

/// `SignalSet::acquire_all_async` goes through exactly at a probe that finds every gate of the mask
/// open, and neither opens nor closes any.
pub proof fn set_acquire_all_async_needs_it_open(
    s: &mut SignalSet<NotifyWaiter>,
    mask: u64,
    at: AwaitPhase,
    next: AwaitPhase,
    open: bool,
)
    requires
        old(s).wf(),
        call_ensures(SignalSet::<NotifyWaiter>::all_open, (&*old(s), mask), open),
        call_ensures(SignalSet::<NotifyWaiter>::acquire_all_async, (s, mask, at), next),
    ensures
        at is Entry || at is Woken ==> (next is Done <==> open),
        final(s).chunks@ == old(s).chunks@,
        final(s).names@ == old(s).names@,
{
}

/// `SignalSet::acquire` goes through exactly at a probe that finds some gate of the first word
/// open, and neither opens nor closes any.
pub proof fn set_acquire_needs_it_open(
    s: &mut SignalSet<ParkWaiter>,
    at: WaitPhase,
    next: WaitPhase,
    word: u64,
)
    requires
        old(s).wf(),
        call_ensures(SignalSet::<ParkWaiter>::state, (&*old(s),), word),
        call_ensures(SignalSet::<ParkWaiter>::acquire, (s, at), next),
    ensures
        (at is Entry || at is Tight || at is Pause || at is Recheck || at is Park) ==> ((next is Done
            || next is Leave) <==> word != 0),
        final(s).chunks@ == old(s).chunks@,
        final(s).names@ == old(s).names@,
{
}

/// `SignalSet::acquire_async` goes through exactly at a probe that finds some gate of the first word
/// open, and neither opens nor closes any.
pub proof fn set_acquire_async_needs_it_open(
    s: &mut SignalSet<NotifyWaiter>,
    at: AwaitPhase,
    next: AwaitPhase,
    word: u64,
)
    requires
        old(s).wf(),
        call_ensures(SignalSet::<NotifyWaiter>::state, (&*old(s),), word),
        call_ensures(SignalSet::<NotifyWaiter>::acquire_async, (s, at), next),
    ensures
        at is Entry || at is Woken ==> (next is Done <==> word != 0),
        final(s).chunks@ == old(s).chunks@,
        final(s).names@ == old(s).names@,
{
}

/// `SignalSet::acquire_any_chunk` goes through exactly at a probe that finds some gate of any word
/// open, and neither opens nor closes any.
pub proof fn set_acquire_any_chunk_needs_it_open(
    s: &mut SignalSet<ParkWaiter>,
    at: WaitPhase,
    next: WaitPhase,
    open: bool,
)
    requires
        old(s).wf(),
        call_ensures(SignalSet::<ParkWaiter>::any_chunk_open, (&*old(s),), open),
        call_ensures(SignalSet::<ParkWaiter>::acquire_any_chunk, (s, at), next),
    ensures
        (at is Entry || at is Tight || at is Pause || at is Recheck || at is Park) ==> ((next is Done
            || next is Leave) <==> open),
        final(s).chunks@ == old(s).chunks@,
        final(s).names@ == old(s).names@,
{
}

/// `SignalSet::acquire_any_chunk_async` goes through exactly at a probe that finds some gate of any word
/// open, and neither opens nor closes any.
pub proof fn set_acquire_any_chunk_async_needs_it_open(
    s: &mut SignalSet<NotifyWaiter>,
    at: AwaitPhase,
    next: AwaitPhase,
    open: bool,
)
    requires
        old(s).wf(),
        call_ensures(SignalSet::<NotifyWaiter>::any_chunk_open, (&*old(s),), open),
        call_ensures(SignalSet::<NotifyWaiter>::acquire_any_chunk_async, (s, at), next),
    ensures
        at is Entry || at is Woken ==> (next is Done <==> open),
        final(s).chunks@ == old(s).chunks@,
        final(s).names@ == old(s).names@,
{
}

/// A new set has every gate closed and none registered.
pub proof fn set_starts_closed<W: Waiter>(
    s: SignalSet<W>,
    t: SignalSet<W>,
    n: usize,
    id: SignalId,
    a: bool,
    b: bool,
    room: usize,
)
    requires
        call_ensures(SignalSet::<W>::new, (), s),
        call_ensures(SignalSet::<W>::with_capacity, (n,), t),
        call_ensures(SignalSet::<W>::capacity_bits, (&t,), room),
        id.0 < s.capacity(),
        id.0 < t.capacity(),
        call_ensures(SignalSet::<W>::is_open, (&s, id), a),
        call_ensures(SignalSet::<W>::is_open, (&t, id), b),
    ensures
        !a,
        !b,
        s.next_id == 0,
        t.next_id == 0,
        room >= n,
        room >= 64,
        room < n + 64 || room == 64,
        s.waiter == W::initial(),
{
    let i = id.0 as int;
    lemma_places(i, i);
    lemma_has_zero(i % 64);
}

/// An index is what it was made of, and its mask is its own bit alone.
pub proof fn gate_index_is_its_own_bit(
    i: u8,
    id: SignalId,
    j: u8,
    mask: u64,
    k: int,
)
    requires
        i < 64,
        0 <= k < 64,
        call_ensures(SignalId::new, (i,), id),
        call_ensures(SignalId::index, (id,), j),
        call_ensures(SignalId::mask, (id,), mask),
    ensures
        j == i,
        bit_set(mask, k) <==> k == i,
{
    lemma_has_bit(k, i as int);
}

/// Cancelling one waiter cancels it and nobody else, and owes it an unpark iff it is
/// registered.
pub proof fn lifeline_cancel_one_hits_its_target(
    l: &mut Lifeline,
    id: WaiterId,
    other: WaiterId,
    after: bool,
    before: bool,
    now: bool,
    all: bool,
)
    requires
        old(l).wf(),
        0 <= id.idx() < 64,
        0 <= other.idx() < 64,
        call_ensures(Lifeline::cancel_one, (l, id), ()),
        call_ensures(Lifeline::is_cancelled, (&*final(l), id), after),
        call_ensures(Lifeline::is_cancelled, (&*old(l), other), before),
        call_ensures(Lifeline::is_cancelled, (&*final(l), other), now),
        call_ensures(Lifeline::is_cancelled_all, (&*final(l),), all),
    ensures
        after,
        other.idx() != id.idx() ==> now == before,
        all == old(l).global,
        bit_set(final(l).owed, other.idx()) <==> bit_set(old(l).owed, other.idx()) || (other.idx()
            == id.idx() && other.idx() < old(l).next_id),
        final(l).next_id == old(l).next_id,
{
    lemma_has_ops(old(l).mask, bit(id.idx()), id.idx());
    lemma_has_ops(old(l).mask, bit(id.idx()), other.idx());
    lemma_has_ops(old(l).owed, bit(id.idx()), other.idx());
    lemma_has_bit(id.idx(), id.idx());
    lemma_has_bit(other.idx(), id.idx());
}

/// Cancelling a mask cancels the registered waiters of it, owes each of them an unpark,
/// and touches nobody else.
pub proof fn lifeline_cancel_mask_hits_the_registered(
    l: &mut Lifeline,
    mask: u64,
    id: WaiterId,
    before: bool,
    now: bool,
    seen: u64,
)
    requires
        old(l).wf(),
        0 <= id.idx() < 64,
        call_ensures(Lifeline::cancel_mask, (l, mask), ()),
        call_ensures(Lifeline::is_cancelled, (&*old(l), id), before),
        call_ensures(Lifeline::is_cancelled, (&*final(l), id), now),
        call_ensures(Lifeline::cancelled_mask, (&*final(l),), seen),
    ensures
        now <==> before || (bit_set(mask, id.idx()) && id.idx() < old(l).next_id),
        bit_set(final(l).owed, id.idx()) <==> bit_set(old(l).owed, id.idx()) || (bit_set(mask, id.idx())
            && id.idx() < old(l).next_id),
        seen == final(l).mask,
        final(l).global == old(l).global,
        final(l).next_id == old(l).next_id,
{
    let hit = mask & crate::bits::low_mask(old(l).next_id as int);
    lemma_has_ops(old(l).mask, hit, id.idx());
    lemma_has_ops(old(l).owed, hit, id.idx());
    lemma_has_ops(mask, crate::bits::low_mask(old(l).next_id as int), id.idx());
    lemma_has_low_mask(old(l).next_id as int, id.idx());
}

/// Cancelling everybody cancels every waiter, now and later, and owes each registered one
/// an unpark.
pub proof fn lifeline_cancel_all_hits_everybody(
    l: &mut Lifeline,
    id: WaiterId,
    now: bool,
    all: bool,
)
    requires
        old(l).wf(),
        0 <= id.idx() < 64,
        call_ensures(Lifeline::cancel_all, (l,), ()),
        call_ensures(Lifeline::is_cancelled, (&*final(l), id), now),
        call_ensures(Lifeline::is_cancelled_all, (&*final(l),), all),
    ensures
        now,
        all,
        bit_set(final(l).owed, id.idx()) <==> bit_set(old(l).owed, id.idx()) || id.idx()
            < old(l).next_id,
{
    lemma_has_ops(old(l).owed, crate::bits::low_mask(old(l).next_id as int), id.idx());
    lemma_has_low_mask(old(l).next_id as int, id.idx());
}

/// Unparks that are owed are delivered once, and nobody is cancelled or reinstated by
/// that; waiters that register get different indices and start uncancelled unless
/// everybody is cancelled or they were cancelled ahead.
pub proof fn lifeline_settles_once(
    a: &mut Lifeline,
    b: &mut Lifeline,
    c: &mut Lifeline,
    d: &mut Lifeline,
    first: u64,
    second: u64,
    x: WaiterId,
    y: WaiterId,
    fresh: Lifeline,
    none: bool,
)
    requires
        call_ensures(Lifeline::settle, (a,), first),
        *old(b) == *final(a),
        call_ensures(Lifeline::settle, (b,), second),
        old(c).wf(),
        old(c).next_id < 63,
        call_ensures(Lifeline::register, (c,), x),
        *old(d) == *final(c),
        call_ensures(Lifeline::register, (d,), y),
        call_ensures(Lifeline::new, (), fresh),
        call_ensures(Lifeline::is_cancelled, (&fresh, x), none),
    ensures
        first == old(a).owed,
        second == 0,
        final(b).mask == old(a).mask,
        final(b).global == old(a).global,
        x.idx() != y.idx(),
        x.idx() == old(c).next_id,
        final(d).next_id == old(c).next_id + 2,
        final(d).mask == old(c).mask,
        final(d).owed == old(c).owed,
        !none,
{
    lemma_has_zero(x.idx());
}

/// A waiter's index is what it was made of, and its mask is its own bit alone.
pub proof fn waiter_index_is_its_own_bit(
    i: u8,
    id: WaiterId,
    j: u8,
    mask: u64,
    k: int,
)
    requires
        i < 64,
        0 <= k < 64,
        call_ensures(WaiterId::new, (i,), id),
        call_ensures(WaiterId::index, (id,), j),
        call_ensures(WaiterId::bit, (id,), mask),
    ensures
        j == i,
        bit_set(mask, k) <==> k == i,
{
    lemma_has_bit(k, i as int);
}

} // verus!
