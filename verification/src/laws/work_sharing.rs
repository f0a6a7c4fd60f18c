//! What the calls of the work-sharing transport come to: items come out in order, each
//! once, whichever consumer takes them; a send wakes one idle consumer; nobody sleeps
//! while there is something to do.
use crate::bits::{bit_set, lemma_has_bit, lemma_has_nonzero, lemma_has_ops, lemma_has_zero};
use crate::ring_buf::RingBuf;
use crate::round::{lemma_scan_finds, lemma_scan_is, scan};
use crate::synapse::consumer::RecvPhase;
use crate::synapse::producer::SendPhase;
use crate::synapse::state::{Shutdown, Synapse};
use crate::synapse::wake::{wake_target, word_bits};
use crate::waiter::{Step, WaitPhase, Waiter};
use vstd::prelude::*;

verus! {

/// From `before` to `after` exactly consumer `i` was called to work: it was idle and is
/// not any more, its signal is open and it was woken.
pub open spec fn only_called<T, const CAP: usize, const N: usize>(
    before: Synapse<T, CAP, N>,
    after: Synapse<T, CAP, N>,
    i: int,
) -> bool {
    &&& 0 <= i < N
    &&& bit_set(before.idle_mask, i)
    &&& forall|k: int|
        0 <= k < 64 ==> #[trigger] bit_set(after.idle_mask, k) == (bit_set(before.idle_mask, k) && k
            != i)
    &&& after.signals@.len() == before.signals@.len()
    &&& !after.signals@[i].source.locked
    &&& after.signals@[i].parker == before.signals@[i].parker.woken()
    &&& forall|k: int|
        0 <= k < N && k != i ==> #[trigger] after.signals@[k] == before.signals@[k]
}

/// No consumer was called to work from `before` to `after`.
pub open spec fn none_called<T, const CAP: usize, const N: usize>(
    before: Synapse<T, CAP, N>,
    after: Synapse<T, CAP, N>,
) -> bool {
    &&& after.idle_mask == before.idle_mask
    &&& after.signals@ == before.signals@
}

/// A scan does not go past a `true`.
proof fn lemma_scan_stops(ready: Seq<bool>, start: int, k: int, at: int)
    requires
        0 <= k <= at < ready.len(),
        ready[(start + at) % (ready.len() as int)],
    ensures
        scan(ready, start, k) <= at,
    decreases at - k,
{
    if k < at && !ready[(start + k) % (ready.len() as int)] {
        lemma_scan_stops(ready, start, k + 1, at);
    }
}

/// What a send left behind, as far as the consumers see it.
proof fn lemma_calls_one<T, const CAP: usize, const N: usize>(
    before: Synapse<T, CAP, N>,
    after: Synapse<T, CAP, N>,
    value: T,
)
    requires
        before.wf(),
        after.sent(before, value),
    ensures
        before.idle_mask == 0 ==> none_called(before, after),
        before.idle_mask != 0 ==> exists|i: int| #[trigger]
            only_called(before, after, i) && ({
                let rot = (after.buf.head() as u32) as int % (N as int);
                &&& forall|k: int|
                    rot <= k < N && #[trigger] bit_set(before.idle_mask, k) ==> rot <= i <= k
                &&& forall|low: int|
                    0 <= low < rot && #[trigger] bit_set(before.idle_mask, low) && (forall|k: int|
                        0 <= k < low || rot <= k < N ==> !#[trigger] bit_set(before.idle_mask, k))
                        ==> i == (if bit_set(before.idle_mask, (64 + low) % (N as int)) {
                        (64 + low) % (N as int)
                    } else {
                        low
                    })
            }),
        after.not_full == before.not_full,
        after.shutdown == before.shutdown,
        after@ == before@.push(value),
{
    let middle = choose|middle: Synapse<T, CAP, N>| #[trigger]
        middle.published(before, value) && after.one_woken(middle);
    if before.idle_mask != 0 {
        let rot = (after.buf.head() as u32) as int % (N as int);
        let i = wake_target(before.idle_mask, rot, N as int);
        assert forall|k: int| 0 <= k < 64 implies #[trigger] bit_set(after.idle_mask, k) == (bit_set(
            before.idle_mask,
            k,
        ) && k != i) by {
            lemma_has_bit(k, i);
            lemma_has_ops(before.idle_mask, crate::bits::bit(i), k);
        }
        assert(only_called(before, after, i));
        let bits = word_bits(before.idle_mask);
        assert forall|k: int| rot <= k < N && #[trigger] bit_set(before.idle_mask, k) implies rot
            <= i <= k by {
            let d = k - rot;
            assert(bits[(rot + d) % 64]);
            lemma_scan_stops(bits, rot, 0, d);
            lemma_scan_finds(bits, rot, 0);
            let at = scan(bits, rot, 0);
            assert(0 <= at <= d);
            assert((rot + at) % 64 == rot + at);
            assert(bit_set(before.idle_mask, rot + at));
            vstd::arithmetic::div_mod::lemma_small_mod((at + rot) as nat, N as nat);
        }
        assert forall|low: int|
            0 <= low < rot && #[trigger] bit_set(before.idle_mask, low) && (forall|k: int|
                0 <= k < low || rot <= k < N ==> !#[trigger] bit_set(
                    before.idle_mask,
                    k,
                )) implies i == (if bit_set(before.idle_mask, (64 + low) % (N as int)) {
            (64 + low) % (N as int)
        } else {
            low
        }) by {
            let at = 64 - rot + low;
            assert forall|j: int| 0 <= j < at implies !#[trigger] bits[(rot + j) % 64] by {
                let k = (rot + j) % 64;
                assert(k == if rot + j < 64 {
                    rot + j
                } else {
                    rot + j - 64
                });
                assert(!bit_set(before.idle_mask, k));
            }
            assert(bits[(rot + at) % 64]);
            lemma_scan_is(bits, rot, 0, at);
            assert forall|j: int| 0 <= j < low implies !#[trigger] bits[(0 + j) % 64] by {
                assert(!bit_set(before.idle_mask, j));
            }
            assert(bits[(0 + low) % 64]);
            lemma_scan_is(bits, 0, 0, low);
        }
    }
}

/// A send that does not wait goes in iff there is room; then the item stands behind all
/// others, and exactly one idle consumer is called to work if there is any. Otherwise the
/// item comes back and nothing has changed.
pub proof fn try_send_appends_and_calls_one<T, const CAP: usize, const N: usize>(
    s: &mut Synapse<T, CAP, N>,
    value: T,
    r: Result<(), T>,
)
    requires
        old(s).wf(),
        call_ensures(Synapse::<T, CAP, N>::try_send, (s, value), r),
    ensures
        r is Ok <==> old(s)@.len() < CAP,
        r matches Err(back) ==> back == value && *final(s) == *old(s),
        r is Ok ==> {
            &&& final(s)@.len() == old(s)@.len() + 1
            &&& final(s)@.last() == value
            &&& forall|k: int| 0 <= k < old(s)@.len() ==> #[trigger] final(s)@[k] == old(s)@[k]
            &&& final(s).shutdown == old(s).shutdown
            &&& final(s).not_full == old(s).not_full
            &&& (old(s).idle_mask == 0 ==> none_called(*old(s), *final(s)))
            &&& (old(s).idle_mask != 0 ==> exists|i: int| #[trigger]
                only_called(*old(s), *final(s), i))
        },
{
    if r is Ok {
        lemma_calls_one(*old(s), *final(s), value);
    }
}

/// The turn moves on with what was sent: of the idle consumers from the place on that the
/// write cursor points at, the nearest one is called.
pub proof fn try_send_calls_the_nearest<T, const CAP: usize, const N: usize>(
    s: &mut Synapse<T, CAP, N>,
    value: T,
    r: Result<(), T>,
    head: usize,
    near: int,
)
    requires
        old(s).wf(),
        call_ensures(Synapse::<T, CAP, N>::try_send, (s, value), r),
        r is Ok,
        call_ensures(RingBuf::<T, CAP>::head_cursor, (&final(s).buf,), head),
        (head as u32) as int % (N as int) <= near < N,
        bit_set(old(s).idle_mask, near),
        forall|k: int|
            (head as u32) as int % (N as int) <= k < near ==> !#[trigger] bit_set(
                old(s).idle_mask,
                k,
            ),
    ensures
        only_called(*old(s), *final(s), near),
{
    lemma_calls_one(*old(s), *final(s), value);
    lemma_has_nonzero(old(s).idle_mask, near);
    let rot = (head as u32) as int % (N as int);
    let i = choose|i: int| #[trigger]
        only_called(*old(s), *final(s), i) && (forall|k: int|
            rot <= k < N && #[trigger] bit_set(old(s).idle_mask, k) ==> rot <= i <= k);
    assert(rot <= i <= near);
    assert(i == near);
}

/// If none of the idle consumers stands from there on, the search comes round: where it
/// wraps to is called if it is idle, and otherwise the lowest idle one.
pub proof fn try_send_comes_round<T, const CAP: usize, const N: usize>(
    s: &mut Synapse<T, CAP, N>,
    value: T,
    r: Result<(), T>,
    head: usize,
    low: int,
)
    requires
        old(s).wf(),
        call_ensures(Synapse::<T, CAP, N>::try_send, (s, value), r),
        r is Ok,
        call_ensures(RingBuf::<T, CAP>::head_cursor, (&final(s).buf,), head),
        0 <= low < (head as u32) as int % (N as int),
        bit_set(old(s).idle_mask, low),
        forall|k: int|
            0 <= k < low || (head as u32) as int % (N as int) <= k < N ==> !#[trigger] bit_set(
                old(s).idle_mask,
                k,
            ),
    ensures
        bit_set(old(s).idle_mask, (64 + low) % (N as int)) ==> only_called(
            *old(s),
            *final(s),
            (64 + low) % (N as int),
        ),
        !bit_set(old(s).idle_mask, (64 + low) % (N as int)) ==> only_called(*old(s), *final(s), low),
{
    lemma_calls_one(*old(s), *final(s), value);
    lemma_has_nonzero(old(s).idle_mask, low);
}

/// A receive that does not wait hands out the oldest item iff there is one, and then lets
/// the producer know that there is room; with none it changes nothing.
pub proof fn try_recv_takes_the_oldest<T, const CAP: usize, const N: usize>(
    s: &mut Synapse<T, CAP, N>,
    r: Option<T>,
)
    requires
        call_ensures(Synapse::<T, CAP, N>::try_recv, (s,), r),
    ensures
        r is None <==> old(s)@.len() == 0,
        r is None ==> *final(s) == *old(s),
        r matches Some(v) ==> {
            &&& v == old(s)@[0]
            &&& final(s)@.len() == old(s)@.len() - 1
            &&& forall|k: int| 0 <= k < final(s)@.len() ==> #[trigger] final(s)@[k] == old(s)@[k + 1]
            &&& !final(s).not_full.source.locked
            &&& final(s).not_full.parker == old(s).not_full.parker.woken()
        },
        final(s).shutdown == old(s).shutdown,
        none_called(*old(s), *final(s)),
{
}

/// A send is over exactly when its item went in, which happens at the first attempt that
/// finds room; until then the item stays with the sender.
pub proof fn send_ends_when_there_is_room<T, const CAP: usize, const N: usize>(
    s: &mut Synapse<T, CAP, N>,
    value: T,
    at: SendPhase,
    r: Step<(), (T, SendPhase)>,
)
    requires
        old(s).wf(),
        call_ensures(Synapse::<T, CAP, N>::send, (s, value, at), r),
    ensures
        r is Done <==> at is Try && old(s)@.len() < CAP,
        r is Done ==> {
            &&& final(s)@.len() == old(s)@.len() + 1
            &&& final(s)@.last() == value
            &&& forall|k: int| 0 <= k < old(s)@.len() ==> #[trigger] final(s)@[k] == old(s)@[k]
            &&& (old(s).idle_mask == 0 ==> none_called(*old(s), *final(s)))
            &&& (old(s).idle_mask != 0 ==> exists|i: int| #[trigger]
                only_called(*old(s), *final(s), i))
        },
        r matches Step::Wait((back, next)) ==> {
            &&& back == value
            &&& final(s).buf == old(s).buf
            &&& none_called(*old(s), *final(s))
        },
        final(s).shutdown == old(s).shutdown,
{
    if r is Done {
        lemma_calls_one(*old(s), *final(s), value);
    }
}

/// A producer goes to sleep only after it has closed its signal and then found the ring
/// full once more; if there was room after all it opens the signal again and tries again.
pub proof fn send_sleeps_only_behind_a_failed_recheck<T, const CAP: usize, const N: usize>(
    s: &mut Synapse<T, CAP, N>,
    value: T,
    at: SendPhase,
    back: T,
    next: SendPhase,
)
    requires
        call_ensures(Synapse::<T, CAP, N>::send, (s, value, at), Step::Wait((back, next))),
    ensures
        at is Try ==> next is Lock && *final(s) == *old(s),
        at is Lock ==> next is Recheck && final(s).not_full.source.locked && final(s).not_full.parker
            == old(s).not_full.parker,
        at is Recheck ==> *final(s) == *old(s),
        at is Recheck && old(s)@.len() >= CAP ==> next == SendPhase::Park(WaitPhase::Entry),
        at is Recheck && old(s)@.len() < CAP ==> next is Reopen,
        at is Reopen ==> next is Try && !final(s).not_full.source.locked && final(s).not_full.parker
            == old(s).not_full.parker.woken(),
        next is Park ==> at is Park || (at is Recheck && old(s)@.len() >= CAP),
        at is Park ==> final(s).not_full.source == old(s).not_full.source,
{
}

/// A producer that waits for its signal tries again iff a probe finds it open.
pub proof fn send_wait_ends_when_the_signal_opens<T, const CAP: usize, const N: usize>(
    s: &mut Synapse<T, CAP, N>,
    value: T,
    w: WaitPhase,
    back: T,
    next: SendPhase,
)
    requires
        call_ensures(Synapse::<T, CAP, N>::send, (s, value, SendPhase::Park(w)), Step::Wait((back, next))),
        w is Entry || w is Tight || w is Pause || w is Recheck || w is Park,
    ensures
        next is Try || next is Park,
        old(s).not_full.source.locked ==> next is Park && !(next->Park_0 is Leave),
        !old(s).not_full.source.locked ==> next is Try || next == SendPhase::Park(WaitPhase::Leave),
{
}

/// A receive at its first step hands out the oldest item iff there is one, shut down or
/// not, and lets the producer know that there is room. At no other step does an item
/// leave.
pub proof fn recv_takes_the_oldest_whenever_there_is_one<T, const CAP: usize, const N: usize>(
    s: &mut Synapse<T, CAP, N>,
    i: usize,
    at: RecvPhase,
    r: Step<Result<T, Shutdown>, RecvPhase>,
)
    requires
        call_ensures(Synapse::<T, CAP, N>::recv, (s, i, at), r),
    ensures
        r is Done && r->Done_0 is Ok <==> at is Try && old(s)@.len() > 0,
        r matches Step::Done(Ok(v)) ==> {
            &&& v == old(s)@[0]
            &&& final(s)@.len() == old(s)@.len() - 1
            &&& forall|k: int| 0 <= k < final(s)@.len() ==> #[trigger] final(s)@[k] == old(s)@[k + 1]
            &&& !final(s).not_full.source.locked
            &&& final(s).not_full.parker == old(s).not_full.parker.woken()
            &&& none_called(*old(s), *final(s))
        },
        !(r is Done && r->Done_0 is Ok) ==> final(s).buf == old(s).buf && final(s).not_full == old(s).not_full,
        final(s).shutdown == old(s).shutdown,
{
}

/// A consumer hears of the end exactly when it finds nothing and then finds the transport
/// shut down.
pub proof fn recv_ends_when_empty_and_shut_down<T, const CAP: usize, const N: usize>(
    a: &mut Synapse<T, CAP, N>,
    b: &mut Synapse<T, CAP, N>,
    i: usize,
    first: Step<Result<T, Shutdown>, RecvPhase>,
    at: RecvPhase,
    second: Step<Result<T, Shutdown>, RecvPhase>,
)
    requires
        call_ensures(Synapse::<T, CAP, N>::recv, (a, i, RecvPhase::Try), first),
        first == Step::<Result<T, Shutdown>, RecvPhase>::Wait(at),
        call_ensures(Synapse::<T, CAP, N>::recv, (b, i, at), second),
    ensures
        old(a)@.len() == 0,
        *final(a) == *old(a),
        second is Done <==> old(b).shutdown,
        second is Done ==> second->Done_0 is Err,
        *final(b) == *old(b),
{
}

/// Nowhere else does a receive report the end.
pub proof fn recv_reports_the_end_nowhere_else<T, const CAP: usize, const N: usize>(
    s: &mut Synapse<T, CAP, N>,
    i: usize,
    at: RecvPhase,
    r: Step<Result<T, Shutdown>, RecvPhase>,
)
    requires
        call_ensures(Synapse::<T, CAP, N>::recv, (s, i, at), r),
    ensures
        r is Done && r->Done_0 is Err <==> at is Check && old(s).shutdown,
{
}

/// A consumer goes to sleep only after it has closed its signal, said that it is idle, and
/// then found nothing and no end once more; if there was something it takes the
/// advertisement back, opens the signal and tries again. The other consumers notice
/// nothing.
pub proof fn recv_sleeps_only_behind_a_failed_recheck<T, const CAP: usize, const N: usize>(
    s: &mut Synapse<T, CAP, N>,
    i: usize,
    at: RecvPhase,
    next: RecvPhase,
)
    requires
        old(s).wf(),
        i < N,
        call_ensures(Synapse::<T, CAP, N>::recv, (s, i, at), Step::Wait(next)),
    ensures
        at is Try ==> next is Check,
        at is Check ==> next is Lock,
        at is Lock ==> next is Advertise && final(s).signals@[i as int].source.locked && final(s).signals@[i as int].parker == old(s).signals@[i as int].parker,
        at is Advertise ==> next is Recheck && bit_set(final(s).idle_mask, i as int),
        at is Recheck && old(s)@.len() > 0 ==> next is Withdraw,
        at is Recheck && old(s)@.len() == 0 ==> next is RecheckEnd,
        at is RecheckEnd && old(s).shutdown ==> next is Withdraw,
        at is RecheckEnd && !old(s).shutdown ==> next == RecvPhase::Park(WaitPhase::Entry),
        at is Withdraw ==> next is Reopen && !bit_set(final(s).idle_mask, i as int),
        at is Reopen ==> next is Try && !final(s).signals@[i as int].source.locked && final(s).signals@[i as int].parker
            == old(s).signals@[i as int].parker.woken(),
        at is Clear ==> next is Try && !bit_set(final(s).idle_mask, i as int),
        next is Park ==> at is Park || (at is RecheckEnd && !old(s).shutdown),
        !(at is Advertise || at is Withdraw || at is Clear) ==> final(s).idle_mask == old(s).idle_mask,
        forall|k: int|
            0 <= k < 64 && k != i ==> #[trigger] bit_set(final(s).idle_mask, k) == bit_set(
                old(s).idle_mask,
                k,
            ),
        forall|k: int| 0 <= k < N && k != i ==> #[trigger] final(s).signals@[k] == old(s).signals@[k],
        !(at is Lock || at is Reopen || at is Park) ==> final(s).signals@ == old(s).signals@,
        final(s).buf == old(s).buf,
        final(s).not_full == old(s).not_full,
        final(s).shutdown == old(s).shutdown,
{
    assert forall|k: int| 0 <= k < 64 implies #[trigger] bit_set(final(s).idle_mask, k) == (if k == i {
        if at is Advertise {
            true
        } else if at is Withdraw || at is Clear {
            false
        } else {
            bit_set(old(s).idle_mask, k)
        }
    } else {
        bit_set(old(s).idle_mask, k)
    }) by {
        lemma_has_bit(k, i as int);
        lemma_has_ops(old(s).idle_mask, crate::bits::bit(i as int), k);
    }
}

/// A consumer that waits for its signal goes on iff a probe finds it open.
pub proof fn recv_wait_ends_when_the_signal_opens<T, const CAP: usize, const N: usize>(
    s: &mut Synapse<T, CAP, N>,
    i: usize,
    w: WaitPhase,
    next: RecvPhase,
)
    requires
        old(s).wf(),
        i < N,
        call_ensures(Synapse::<T, CAP, N>::recv, (s, i, RecvPhase::Park(w)), Step::Wait(next)),
        w is Entry || w is Tight || w is Pause || w is Recheck || w is Park,
    ensures
        next is Clear || next is Park,
        old(s).signals@[i as int].source.locked ==> next is Park && !(next->Park_0 is Leave),
        !old(s).signals@[i as int].source.locked ==> next is Clear || next == RecvPhase::Park(
            WaitPhase::Leave,
        ),
        final(s).signals@[i as int].source == old(s).signals@[i as int].source,
{
}

/// Shutting down calls everybody: each consumer's signal and the producer's are open and
/// each was woken. No item is lost.
pub proof fn shutdown_calls_everybody<T, const CAP: usize, const N: usize>(
    s: &mut Synapse<T, CAP, N>,
    before: bool,
    after: bool,
)
    requires
        old(s).wf(),
        call_ensures(Synapse::<T, CAP, N>::is_shutdown, (&*old(s),), before),
        call_ensures(Synapse::<T, CAP, N>::shutdown, (s,), ()),
        call_ensures(Synapse::<T, CAP, N>::is_shutdown, (&*final(s),), after),
    ensures
        before == old(s).shutdown,
        after,
        final(s)@ == old(s)@,
        final(s).idle_mask == old(s).idle_mask,
        final(s).signals@.len() == N,
        forall|k: int|
            0 <= k < N ==> !(#[trigger] final(s).signals@[k]).source.locked
                && final(s).signals@[k].parker == old(s).signals@[k].parker.woken(),
        !final(s).not_full.source.locked,
        final(s).not_full.parker == old(s).not_full.parker.woken(),
{
}

/// What the looks at a transport say fits together.
pub proof fn transport_looks_agree<T, const CAP: usize, const N: usize>(
    s: &Synapse<T, CAP, N>,
    n: usize,
    empty: bool,
    full: bool,
    cap: usize,
    m: usize,
)
    requires
        s.wf(),
        call_ensures(Synapse::<T, CAP, N>::len, (s,), n),
        call_ensures(Synapse::<T, CAP, N>::is_empty, (s,), empty),
        call_ensures(Synapse::<T, CAP, N>::is_full, (s,), full),
        call_ensures(Synapse::<T, CAP, N>::capacity, (s,), cap),
        call_ensures(Synapse::<T, CAP, N>::consumers, (s,), m),
    ensures
        n == s@.len(),
        n <= cap,
        empty <==> n == 0,
        full <==> n == cap,
        cap == CAP,
        m == N,
{
}

/// A new transport is empty, has room, and nobody is asleep.
pub proof fn transport_starts_empty<T, const CAP: usize, const N: usize>(
    s: Synapse<T, CAP, N>,
)
    requires
        call_ensures(Synapse::<T, CAP, N>::new, (), s),
    ensures
        s@.len() == 0,
        !s.shutdown,
        !s.not_full.source.locked,
        forall|k: int| 0 <= k < 64 ==> !#[trigger] bit_set(s.idle_mask, k),
        forall|k: int| 0 <= k < N ==> (#[trigger] s.signals@[k]).source.locked,
{
    assert forall|k: int| 0 <= k < 64 implies !#[trigger] bit_set(s.idle_mask, k) by {
        lemma_has_zero(k);
    }
}

/// Registering the producer or a consumer lets that party be woken from then on, and
/// changes nothing else.
pub proof fn transport_registration<T, const CAP: usize, const N: usize>(
    a: &mut Synapse<T, CAP, N>,
    b: &mut Synapse<T, CAP, N>,
    i: usize,
)
    requires
        old(b).wf(),
        i < N,
        call_ensures(Synapse::<T, CAP, N>::set_producer, (a,), ()),
        call_ensures(Synapse::<T, CAP, N>::bind_consumer, (b, i), ()),
    ensures
        final(a).not_full.parker.registered,
        final(a).not_full.parker == old(a).not_full.parker.bound(),
        final(a).not_full.source == old(a).not_full.source,
        final(a).buf == old(a).buf,
        final(a).signals == old(a).signals,
        final(a).idle_mask == old(a).idle_mask,
        final(a).shutdown == old(a).shutdown,
        final(b).signals@[i as int].parker.registered,
        final(b).signals@[i as int].source == old(b).signals@[i as int].source,
        forall|k: int| 0 <= k < N && k != i ==> #[trigger] final(b).signals@[k] == old(b).signals@[k],
        final(b).buf == old(b).buf,
        final(b).not_full == old(b).not_full,
        final(b).idle_mask == old(b).idle_mask,
        final(b).shutdown == old(b).shutdown,
{
}

} // verus!
