//! What the operations of a transport are to its parties.
//!
//! A transport together with the phases of everybody who waits shows a state
//! of the world of [`crate::synapse::no_lost_wake`]. Every operation takes it
//! from one such state to another along steps of that world, so what holds of
//! all executions holds of every state that a transport can get into.
use super::consumer::RecvPhase;
use super::no_lost_wake::{
    asleep, consumer_steps, each_item_is_claimed_once, moved, producer_steps,
    room_finds_the_producer, shutdown_repeats, shutdown_steps, shutdown_wakes_every_consumer,
    somebody_awake, somebody_frees, work_finds_a_consumer, world_execution, world_step,
    world_step_at, ConsumerAt, ProducerAt, World,
};
use super::producer::SendPhase;
use super::state::{Shutdown, Synapse};
use super::wake::{rotation, wake_target, word_bits};
use crate::arith::lemma_cap_divides_range;
use crate::bits::{bit, bit_set, lemma_has_bit, lemma_has_ops, lemma_zero_iff};
use crate::gate::signal::{released, OwnedBool, Signal};
use crate::round::scan;
use crate::waiter::Step;
use vstd::prelude::*;

verus! {

/// Where a consumer in this phase of a receive stands; without a phase it is
/// not receiving. A wait that has seen the signal open is over.
pub open spec fn receiver_at(receiving: Option<RecvPhase>) -> ConsumerAt {
    match receiving {
        None => ConsumerAt::Away,
        Some(at) => match at {
            RecvPhase::Try => ConsumerAt::Try,
            RecvPhase::Check => ConsumerAt::Check,
            RecvPhase::Lock => ConsumerAt::Lock,
            RecvPhase::Advertise => ConsumerAt::Advertise,
            RecvPhase::Recheck => ConsumerAt::Recheck,
            RecvPhase::RecheckEnd => ConsumerAt::RecheckEnd,
            RecvPhase::Withdraw => ConsumerAt::Withdraw,
            RecvPhase::Reopen => ConsumerAt::Reopen,
            RecvPhase::Park(w) => if w is Leave || w is Done {
                ConsumerAt::Clear
            } else {
                ConsumerAt::Park
            },
            RecvPhase::Clear => ConsumerAt::Clear,
        },
    }
}

/// Where a producer in this phase of a send stands; without a phase it is not
/// sending.
pub open spec fn sender_at(sending: Option<SendPhase>) -> ProducerAt {
    match sending {
        None => ProducerAt::Away,
        Some(at) => match at {
            SendPhase::Try => ProducerAt::Try,
            SendPhase::Lock => ProducerAt::Lock,
            SendPhase::Recheck => ProducerAt::Recheck,
            SendPhase::Reopen => ProducerAt::Reopen,
            SendPhase::Park(w) => if w is Leave || w is Done {
                ProducerAt::Try
            } else {
                ProducerAt::Park
            },
        },
    }
}

/// Which signals are open.
pub open spec fn opened(signals: Seq<Signal<OwnedBool>>) -> Seq<bool> {
    Seq::new(signals.len(), |i: int| !signals[i].source.locked)
}

/// The consumers whose idle bit is set.
pub open spec fn idle_of(mask: u64) -> Set<int> {
    Set::new(|i: int| 0 <= i < 64 && bit_set(mask, i))
}

/// The state of the world that a transport shows while its consumers and its
/// producer are in these phases, after everything in `sent` was published and
/// everything in `taken` claimed.
pub open spec fn world_of<T, const CAP: usize, const N: usize>(
    s: Synapse<T, CAP, N>,
    receiving: Seq<Option<RecvPhase>>,
    sending: Option<SendPhase>,
    sent: Seq<T>,
    taken: Seq<T>,
) -> World<T> {
    World {
        items: s@,
        sent,
        taken,
        cap: CAP as int,
        open: opened(s.signals@),
        idle: idle_of(s.idle_mask),
        room: !s.not_full.source.locked,
        shutdown: s.shutdown,
        ended: if s.shutdown {
            N + 1
        } else {
            0
        },
        consumers: Seq::new(receiving.len(), |i: int| receiver_at(receiving[i])),
        producer: sender_at(sending),
    }
}

/// The execution `e` has led to this state of the transport.
pub open spec fn tells_of<T, const CAP: usize, const N: usize>(
    e: Seq<World<T>>,
    s: Synapse<T, CAP, N>,
    receiving: Seq<Option<RecvPhase>>,
    sending: Option<SendPhase>,
) -> bool {
    &&& s.wf()
    &&& receiving.len() == N
    &&& world_execution(e)
    &&& e.last() == world_of(s, receiving, sending, e.last().sent, e.last().taken)
}

/// An execution goes on with one more step.
proof fn lemma_goes_on<T>(e: Seq<World<T>>, t: World<T>) -> (f: Seq<World<T>>)
    requires
        world_execution(e),
        world_step(e.last(), t),
    ensures
        world_execution(f),
        e.is_prefix_of(f),
        f.last() == t,
{
    let f = e.push(t);
    assert forall|k: int| 0 <= k < f.len() - 1 implies #[trigger] world_step_at(f, k) by {
        if k < e.len() - 1 {
            assert(world_step_at(e, k));
        }
    }
    f
}

/// Opening or closing a signal, in the world.
proof fn lemma_signal_set(
    before: Seq<Signal<OwnedBool>>,
    after: Seq<Signal<OwnedBool>>,
    i: int,
    signal: Signal<OwnedBool>,
)
    requires
        0 <= i < before.len(),
        after == before.update(i, signal),
    ensures
        opened(after) == opened(before).update(i, !signal.source.locked),
{
    assert(opened(after) =~= opened(before).update(i, !signal.source.locked));
}

/// Setting or clearing an idle bit, in the world.
proof fn lemma_idle_bit(mask: u64, i: int)
    requires
        0 <= i < 64,
    ensures
        idle_of(mask | bit(i)) == idle_of(mask).insert(i),
        idle_of(mask & !bit(i)) == idle_of(mask).remove(i),
{
    assert forall|k: int| 0 <= k < 64 implies #[trigger] bit_set(mask | bit(i), k) == (bit_set(
        mask,
        k,
    ) || k == i) && bit_set(mask & !bit(i), k) == (bit_set(mask, k) && k != i) by {
        lemma_has_ops(mask, bit(i), k);
        lemma_has_bit(k, i);
    }
    assert(idle_of(mask | bit(i)) =~= idle_of(mask).insert(i));
    assert forall|k: int| idle_of(mask & !bit(i)).contains(k) == idle_of(mask).remove(i).contains(
        k,
    ) by {
        if 0 <= k < 64 {
            lemma_has_ops(mask, bit(i), k);
            lemma_has_bit(k, i);
        }
    }
    assert(idle_of(mask & !bit(i)) =~= idle_of(mask).remove(i));
}

/// Nobody is idle iff no idle bit is set.
proof fn lemma_nobody_idle(mask: u64)
    ensures
        idle_of(mask) =~= Set::<int>::empty() <==> mask == 0,
{
    lemma_zero_iff(mask);
    if mask != 0 {
        let k = choose|k: int| 0 <= k < 64 && #[trigger] bit_set(mask, k);
        assert(idle_of(mask).contains(k));
    }
}

/// A new transport shows an initial state.
pub proof fn a_new_transport_starts<T, const CAP: usize, const N: usize>(
    s: Synapse<T, CAP, N>,
    receiving: Seq<Option<RecvPhase>>,
) -> (e: Seq<World<T>>)
    requires
        s.wf(),
        s@ == Seq::<T>::empty(),
        !s.not_full.source.locked,
        !s.shutdown,
        s.idle_mask == 0,
        receiving.len() == N,
        forall|i: int| 0 <= i < N ==> (#[trigger] receiving[i]) is None,
    ensures
        tells_of(e, s, receiving, None),
        e.last().sent == Seq::<T>::empty(),
        e.last().taken == Seq::<T>::empty(),
{
    lemma_nobody_idle(0);
    lemma_cap_divides_range(CAP);
    let e = seq![world_of(s, receiving, None, Seq::empty(), Seq::empty())];
    assert(e.last() == e[0]);
    e
}

/// The phase of a consumer after an operation of a receive.
pub open spec fn received<T>(r: Step<Result<T, Shutdown>, RecvPhase>) -> Option<RecvPhase> {
    match r {
        Step::Done(_) => None,
        Step::Wait(at) => Some(at),
    }
}

/// What was claimed after an operation of a receive.
pub open spec fn claimed_after<T>(
    taken: Seq<T>,
    r: Step<Result<T, Shutdown>, RecvPhase>,
) -> Seq<T> {
    match r {
        Step::Done(Ok(v)) => taken.push(v),
        _ => taken,
    }
}

/// One operation of a receive is a run of its consumer: what
/// [`Synapse::recv`] does at a phase are steps of the consumer that stands
/// there, and it stands at the phase that comes back after them.
pub proof fn a_receive_is_a_run<T, const CAP: usize, const N: usize>(
    e: Seq<World<T>>,
    before: Synapse<T, CAP, N>,
    after: Synapse<T, CAP, N>,
    receiving: Seq<Option<RecvPhase>>,
    sending: Option<SendPhase>,
    i: int,
    at: RecvPhase,
    r: Step<Result<T, Shutdown>, RecvPhase>,
) -> (f: Seq<World<T>>)
    requires
        tells_of(e, before, receiving, sending),
        after.wf(),
        0 <= i < N,
        receiving[i] == Some(at) || (receiving[i] is None && at is Try),
        after.recv_step(before, i, at, r),
    ensures
        e.is_prefix_of(f),
        tells_of(f, after, receiving.update(i, received(r)), sending),
        f.last().sent == e.last().sent,
        f.last().taken == claimed_after(e.last().taken, r),
{
    let w = e.last();
    let next = receiving.update(i, received(r));
    let t = world_of(after, next, sending, w.sent, claimed_after(w.taken, r));
    let start = if receiving[i] is None {
        let s = moved(w, i, ConsumerAt::Try);
        assert(consumer_steps(w, s, i));
        lemma_goes_on(e, s)
    } else {
        e
    };
    let s = start.last();
    assert(s =~= moved(w, i, receiver_at(Some(at))));
    assert(t.consumers =~= s.consumers.update(i, receiver_at(received(r))));
    match at {
        RecvPhase::Try => {
            if before@.len() > 0 {
                let m = World {
                    items: s.items.drop_first(),
                    taken: s.taken.push(s.items[0]),
                    ..moved(s, i, ConsumerAt::Freed)
                };
                assert(consumer_steps(s, m, i));
                let g = lemma_goes_on(start, m);
                assert(t =~= (World { room: true, ..moved(m, i, ConsumerAt::Away) }));
                assert(consumer_steps(m, t, i));
                lemma_goes_on(g, t)
            } else {
                assert(t =~= moved(s, i, ConsumerAt::Check));
                assert(consumer_steps(s, t, i));
                lemma_goes_on(start, t)
            }
        },
        RecvPhase::Park(p) => {
            let signal = before.signals@[i];
            lemma_signal_set(before.signals@, after.signals@, i, after.signals@[i]);
            assert(opened(after.signals@) =~= opened(before.signals@));
            if s.consumers[i] is Park && t.consumers[i] is Clear {
                assert(t =~= moved(s, i, ConsumerAt::Clear));
                assert(consumer_steps(s, t, i));
                lemma_goes_on(start, t)
            } else {
                assert(t =~= s);
                start
            }
        },
        _ => {
            if at is Lock || at is Reopen {
                lemma_signal_set(before.signals@, after.signals@, i, after.signals@[i]);
            }
            lemma_idle_bit(before.idle_mask, i);
            assert(consumer_steps(s, t, i)) by {
                match at {
                    RecvPhase::Lock => {
                        assert(t =~= (World {
                            open: s.open.update(i, false),
                            ..moved(s, i, ConsumerAt::Advertise)
                        }));
                    },
                    RecvPhase::Advertise => {
                        assert(t =~= (World {
                            idle: s.idle.insert(i),
                            ..moved(s, i, ConsumerAt::Recheck)
                        }));
                    },
                    RecvPhase::Withdraw => {
                        assert(t =~= (World {
                            idle: s.idle.remove(i),
                            ..moved(s, i, ConsumerAt::Reopen)
                        }));
                    },
                    RecvPhase::Reopen => {
                        assert(t =~= (World {
                            open: s.open.update(i, true),
                            ..moved(s, i, ConsumerAt::Try)
                        }));
                    },
                    RecvPhase::Clear => {
                        assert(t =~= (World {
                            idle: s.idle.remove(i),
                            ..moved(s, i, ConsumerAt::Try)
                        }));
                    },
                    _ => {
                        assert(t =~= moved(s, i, receiver_at(received(r))));
                    },
                }
            }
            lemma_goes_on(start, t)
        },
    }
}

/// Taking an item without waiting is a run of the consumer that takes it; an
/// attempt that finds nothing is no step at all.
pub proof fn a_claim_is_a_run<T, const CAP: usize, const N: usize>(
    e: Seq<World<T>>,
    before: Synapse<T, CAP, N>,
    after: Synapse<T, CAP, N>,
    receiving: Seq<Option<RecvPhase>>,
    sending: Option<SendPhase>,
    i: int,
    r: Option<T>,
) -> (f: Seq<World<T>>)
    requires
        tells_of(e, before, receiving, sending),
        after.wf(),
        0 <= i < N,
        receiving[i] is None,
        after.claimed(before, r),
    ensures
        e.is_prefix_of(f),
        tells_of(f, after, receiving, sending),
        f.last().sent == e.last().sent,
        f.last().taken == (match r {
            Some(v) => e.last().taken.push(v),
            None => e.last().taken,
        }),
{
    match r {
        Some(v) => {
            assert(receiving =~= receiving.update(i, None));
            a_receive_is_a_run(
                e,
                before,
                after,
                receiving,
                sending,
                i,
                RecvPhase::Try,
                Step::Done(Ok(v)),
            )
        },
        None => e,
    }
}

/// A producer that finds room publishes its item and wakes an idle consumer,
/// step by step.
proof fn lemma_publish_and_wake<T, const CAP: usize, const N: usize>(
    e: Seq<World<T>>,
    before: Synapse<T, CAP, N>,
    after: Synapse<T, CAP, N>,
    receiving: Seq<Option<RecvPhase>>,
    value: T,
) -> (f: Seq<World<T>>)
    requires
        tells_of(e, before, receiving, Some(SendPhase::Try)),
        after.wf(),
        before@.len() < CAP,
        after.sent(before, value),
    ensures
        e.is_prefix_of(f),
        tells_of(f, after, receiving, None),
        f.last().sent == e.last().sent.push(value),
        f.last().taken == e.last().taken,
{
    let w = e.last();
    let middle = choose|middle: Synapse<T, CAP, N>| #[trigger]
        middle.published(before, value) && after.one_woken(middle);
    let mask = before.idle_mask;
    let t = world_of(after, receiving, None, w.sent.push(value), w.taken);
    let m = World {
        items: w.items.push(value),
        sent: w.sent.push(value),
        producer: ProducerAt::Published,
        ..w
    };
    assert(producer_steps(w, m, value, 0));
    let g = lemma_goes_on(e, m);
    lemma_nobody_idle(mask);
    if mask == 0 {
        assert(t =~= (World { producer: ProducerAt::Away, ..m }));
        assert(producer_steps(m, t, value, 0));
        lemma_goes_on(g, t)
    } else {
        let rot = rotation(middle.buf.head(), N as int);
        let near = (scan(word_bits(mask), rot, 0) + rot) % (N as int);
        let target = wake_target(mask, rot, N as int);
        vstd::arithmetic::div_mod::lemma_mod_bound(
            scan(word_bits(mask), rot, 0) + rot,
            N as int,
        );
        let chosen = World { producer: ProducerAt::Chosen(near), ..m };
        assert(producer_steps(m, chosen, value, near));
        let g = lemma_goes_on(g, chosen);
        let cleared = World {
            idle: m.idle.remove(target),
            producer: ProducerAt::Cleared(target),
            ..m
        };
        assert(m.idle.contains(target));
        let g = if bit_set(mask, near) {
            assert(producer_steps(chosen, cleared, value, near));
            lemma_goes_on(g, cleared)
        } else {
            let rescan = World { producer: ProducerAt::Rescan, ..m };
            assert(producer_steps(chosen, rescan, value, near));
            let g = lemma_goes_on(g, rescan);
            let again = World { producer: ProducerAt::ChosenAgain(target), ..m };
            assert(producer_steps(rescan, again, value, target));
            let g = lemma_goes_on(g, again);
            assert(producer_steps(again, cleared, value, target));
            lemma_goes_on(g, cleared)
        };
        lemma_idle_bit(mask, target);
        lemma_signal_set(
            before.signals@,
            after.signals@,
            target,
            released(before.signals@[target]),
        );
        assert(t =~= (World {
            open: cleared.open.update(target, true),
            producer: ProducerAt::Away,
            ..cleared
        }));
        assert(producer_steps(cleared, t, value, target));
        lemma_goes_on(g, t)
    }
}

/// The phase of the producer after an operation of a send.
pub open spec fn sent_phase<T>(r: Step<(), (T, SendPhase)>) -> Option<SendPhase> {
    match r {
        Step::Done(_) => None,
        Step::Wait((_, at)) => Some(at),
    }
}

/// What was published after an operation of a send of `value`.
pub open spec fn published_after<T>(
    sent: Seq<T>,
    value: T,
    r: Step<(), (T, SendPhase)>,
) -> Seq<T> {
    match r {
        Step::Done(_) => sent.push(value),
        Step::Wait(_) => sent,
    }
}

/// One operation of a send is a run of the producer: what [`Synapse::send`]
/// does at a phase are steps of the producer that stands there, and it stands
/// at the phase that comes back after them.
pub proof fn a_send_is_a_run<T, const CAP: usize, const N: usize>(
    e: Seq<World<T>>,
    before: Synapse<T, CAP, N>,
    after: Synapse<T, CAP, N>,
    receiving: Seq<Option<RecvPhase>>,
    sending: Option<SendPhase>,
    value: T,
    at: SendPhase,
    r: Step<(), (T, SendPhase)>,
) -> (f: Seq<World<T>>)
    requires
        tells_of(e, before, receiving, sending),
        after.wf(),
        sending == Some(at) || (sending is None && at is Try),
        after.send_step(before, value, at, r),
    ensures
        e.is_prefix_of(f),
        tells_of(f, after, receiving, sent_phase(r)),
        f.last().sent == published_after(e.last().sent, value, r),
        f.last().taken == e.last().taken,
{
    let w = e.last();
    let t = world_of(
        after,
        receiving,
        sent_phase(r),
        published_after(w.sent, value, r),
        w.taken,
    );
    let start = if sending is None {
        let s = World { producer: ProducerAt::Try, ..w };
        assert(producer_steps(w, s, value, 0));
        lemma_goes_on(e, s)
    } else {
        e
    };
    let s = start.last();
    assert(s =~= (World { producer: sender_at(Some(at)), ..w }));
    match at {
        SendPhase::Try => if before@.len() < CAP {
            assert(s =~= world_of(before, receiving, Some(SendPhase::Try), w.sent, w.taken));
            lemma_publish_and_wake(start, before, after, receiving, value)
        } else {
            assert(t =~= (World { producer: ProducerAt::Lock, ..s }));
            assert(producer_steps(s, t, value, 0));
            lemma_goes_on(start, t)
        },
        SendPhase::Park(p) => {
            if s.producer is Park && t.producer is Try {
                assert(t =~= (World { producer: ProducerAt::Try, ..s }));
                assert(producer_steps(s, t, value, 0));
                lemma_goes_on(start, t)
            } else {
                assert(t =~= s);
                start
            }
        },
        _ => {
            assert(t =~= (World { room: t.room, producer: t.producer, ..s }));
            assert(producer_steps(s, t, value, 0));
            lemma_goes_on(start, t)
        },
    }
}

/// Sending without waiting is a run of the producer; an attempt that finds no
/// room is no step at all.
pub proof fn an_offer_is_a_run<T, const CAP: usize, const N: usize>(
    e: Seq<World<T>>,
    before: Synapse<T, CAP, N>,
    after: Synapse<T, CAP, N>,
    receiving: Seq<Option<RecvPhase>>,
    value: T,
    accepted: bool,
) -> (f: Seq<World<T>>)
    requires
        tells_of(e, before, receiving, None),
        after.wf(),
        accepted == (before@.len() < CAP),
        accepted ==> after.sent(before, value) && after@ == before@.push(value),
        !accepted ==> after == before,
    ensures
        e.is_prefix_of(f),
        tells_of(f, after, receiving, None),
        f.last().sent == (if accepted {
            e.last().sent.push(value)
        } else {
            e.last().sent
        }),
        f.last().taken == e.last().taken,
{
    if accepted {
        a_send_is_a_run(
            e,
            before,
            after,
            receiving,
            None,
            value,
            SendPhase::Try,
            Step::Done(()),
        )
    } else {
        e
    }
}

/// The signals that a shutdown still has to open are opened one by one.
proof fn lemma_opens_all<T>(e: Seq<World<T>>, k: int, n: int) -> (f: Seq<World<T>>)
    requires
        world_execution(e),
        e.last().shutdown,
        0 <= k <= n,
        n == e.last().consumers.len(),
        n == e.last().open.len(),
        e.last().ended == k || e.last().ended == n + 1,
        forall|j: int| 0 <= j < k ==> #[trigger] e.last().open[j],
    ensures
        world_execution(f),
        e.is_prefix_of(f),
        f.last() == (World {
            open: Seq::new(n as nat, |j: int| true),
            ended: if e.last().ended == k {
                n
            } else {
                n + 1
            },
            ..e.last()
        }),
    decreases n - k,
{
    let s = e.last();
    if k < n {
        let t = if s.ended == k {
            World { open: s.open.update(k, true), ended: k + 1, ..s }
        } else {
            World { open: s.open.update(k, true), ..s }
        };
        assert(shutdown_steps(s, t) || shutdown_repeats(s, t, k));
        let g = lemma_goes_on(e, t);
        lemma_opens_all(g, k + 1, n)
    } else {
        assert(s.open =~= Seq::new(n as nat, |j: int| true));
        e
    }
}

/// A shutdown is a run: the flag, every consumer's signal, the producer's
/// signal. It may be repeated.
pub proof fn a_shutdown_is_a_run<T, const CAP: usize, const N: usize>(
    e: Seq<World<T>>,
    before: Synapse<T, CAP, N>,
    after: Synapse<T, CAP, N>,
    receiving: Seq<Option<RecvPhase>>,
    sending: Option<SendPhase>,
) -> (f: Seq<World<T>>)
    requires
        tells_of(e, before, receiving, sending),
        after.wf(),
        after.shutdown,
        after.buf == before.buf,
        after.not_full == released(before.not_full),
        after.idle_mask == before.idle_mask,
        after.signals@ == Seq::new(N as nat, |i: int| released(before.signals@[i])),
    ensures
        e.is_prefix_of(f),
        tells_of(f, after, receiving, sending),
        f.last().sent == e.last().sent,
        f.last().taken == e.last().taken,
{
    let w = e.last();
    let g = if before.shutdown {
        e
    } else {
        let s = World { shutdown: true, ..w };
        assert(shutdown_steps(w, s));
        lemma_goes_on(e, s)
    };
    let g = lemma_opens_all(g, 0, N as int);
    let s = g.last();
    let t = world_of(after, receiving, sending, w.sent, w.taken);
    assert(t =~= (World { room: true, ended: N + 1, ..s }));
    assert(shutdown_steps(s, t));
    lemma_goes_on(g, t)
}

/// Registering a consumer or the producer, and delivering a wake, is no step:
/// only waiters differ.
pub proof fn the_rest_is_no_step<T, const CAP: usize, const N: usize>(
    e: Seq<World<T>>,
    before: Synapse<T, CAP, N>,
    after: Synapse<T, CAP, N>,
    receiving: Seq<Option<RecvPhase>>,
    sending: Option<SendPhase>,
)
    requires
        tells_of(e, before, receiving, sending),
        after.wf(),
        after.buf == before.buf,
        after.shutdown == before.shutdown,
        after.idle_mask == before.idle_mask,
        after.not_full.source == before.not_full.source,
        forall|i: int|
            0 <= i < N ==> (#[trigger] after.signals@[i]).source == before.signals@[i].source,
    ensures
        tells_of(e, after, receiving, sending),
{
    let w = e.last();
    assert(opened(after.signals@) =~= opened(before.signals@));
    assert(w =~= world_of(after, receiving, sending, w.sent, w.taken));
}

/// Consumer `i` sleeps, or is about to, and its signal does not call it.
pub open spec fn sleeps<T, const CAP: usize, const N: usize>(
    s: Synapse<T, CAP, N>,
    receiving: Seq<Option<RecvPhase>>,
    i: int,
) -> bool {
    &&& receiver_at(receiving[i]) is RecheckEnd || receiver_at(receiving[i]) is Park
    &&& s.signals@[i].source.locked
}

/// No transport ever has an item in flight while all its consumers sleep.
pub proof fn no_item_waits_for_sleepers<T, const CAP: usize, const N: usize>(
    e: Seq<World<T>>,
    s: Synapse<T, CAP, N>,
    receiving: Seq<Option<RecvPhase>>,
    sending: Option<SendPhase>,
)
    requires
        tells_of(e, s, receiving, sending),
        s@.len() > 0,
    ensures
        exists|i: int| 0 <= i < N && !#[trigger] sleeps(s, receiving, i),
{
    work_finds_a_consumer(e, e.len() - 1);
    assert(somebody_awake(e.last()));
    let i = choose|i: int| 0 <= i < N && !#[trigger] asleep(e.last(), i);
    assert(!sleeps(s, receiving, i));
}

/// No producer of a transport ever sleeps uncalled while there is room.
pub proof fn no_producer_sleeps_on_room<T, const CAP: usize, const N: usize>(
    e: Seq<World<T>>,
    s: Synapse<T, CAP, N>,
    receiving: Seq<Option<RecvPhase>>,
    sending: Option<SendPhase>,
)
    requires
        tells_of(e, s, receiving, sending),
        sender_at(sending) is Park,
        s.not_full.source.locked,
    ensures
        s@.len() == CAP,
{
    if s@.len() < CAP {
        room_finds_the_producer(e, e.len() - 1);
        assert(somebody_frees(e.last()));
        let i = choose|i: int| 0 <= i < N && (#[trigger] e.last().consumers[i]) is Freed;
        assert(receiver_at(receiving[i]) is Freed);
    }
}

/// Once a transport is shut down, no consumer sleeps uncalled in it, whatever
/// it was doing at the time.
pub proof fn no_consumer_sleeps_after_the_end<T, const CAP: usize, const N: usize>(
    e: Seq<World<T>>,
    s: Synapse<T, CAP, N>,
    receiving: Seq<Option<RecvPhase>>,
    sending: Option<SendPhase>,
    i: int,
)
    requires
        tells_of(e, s, receiving, sending),
        s.shutdown,
        0 <= i < N,
        receiver_at(receiving[i]) is Park,
    ensures
        !s.signals@[i].source.locked,
{
    shutdown_wakes_every_consumer(e, e.len() - 1, i);
    assert(e.last().open[i]);
}

/// What was ever claimed from a transport, whoever claimed it, followed by
/// what is in flight is what was ever published, in order.
pub proof fn nothing_is_lost_or_doubled<T, const CAP: usize, const N: usize>(
    e: Seq<World<T>>,
    s: Synapse<T, CAP, N>,
    receiving: Seq<Option<RecvPhase>>,
    sending: Option<SendPhase>,
)
    requires
        tells_of(e, s, receiving, sending),
    ensures
        e.last().sent == e.last().taken + s@,
{
    each_item_is_claimed_once(e, e.len() - 1);
}

} // verus!
