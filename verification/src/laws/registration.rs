//! What registering a party comes to: from then on a wake reaches it, and nothing else
//! has changed.
use crate::gate::channel as signal_channel;
use crate::gate::gate::Signal as PlainSignal;
use crate::gate::mpmc as signal_shards;
use crate::gate::one_signal::{OneSignal, Receiver as OneReceiver};
use crate::gate::park::Park;
use crate::gate::pipe as signal_pipe;
use crate::gate::signal::{OwnedBool, Signal, SignalSource};
use crate::gate::signal_packed::SignalPacked;
use crate::gate::signal_set::SignalSet;
use crate::gate::signal_states::SignalStates;
use crate::route::hub::{Hub, HubDrain, HubPort};
use crate::route::mpmc::{Mpmc, MpmcConsumer, MpmcProducer};
use crate::route::mpsc::{Mpsc, MpscConsumer, MpscProducer};
use crate::route::mpsc2::{Mpsc2, Mpsc2Consumer, Mpsc2Producer};
use crate::route::oneshot::{OneShot, Receiver};
use crate::slot::channel as slot_channel;
use crate::slot::pipe as slot_pipe;
use crate::stream::ring::{Consumer, Producer, Ring};
use crate::stream::spsc2::{ConsumerSpsc2, ProducerSpsc2, Spsc2};
use crate::waiter::{ParkWaiter, Waiter};
use vstd::prelude::*;

verus! {

/// The client of a channel registers, itself or through its handle.
pub proof fn slot_channel_client_registers<Req, Resp, W: Waiter>(
    h: &slot_channel::Client<Req, Resp, W>,
    a: &mut slot_channel::Channel<Req, Resp, W>,
    b: &mut slot_channel::Channel<Req, Resp, W>,
)
    requires
        call_ensures(slot_channel::Channel::<Req, Resp, W>::set_client, (a,), ()),
        call_ensures(slot_channel::Client::<Req, Resp, W>::bind, (h, b), ()),
    ensures
        final(a).resp_waiter.registered(),
        final(a).resp_waiter == old(a).resp_waiter.bound(),
        final(a).req_waiter == old(a).req_waiter,
        final(a).req_slot == old(a).req_slot,
        final(a).resp_slot == old(a).resp_slot,
        final(a).resp_open == old(a).resp_open,
        final(a).poisoned == old(a).poisoned,
        final(b).resp_waiter.registered(),
        final(b).resp_waiter == old(b).resp_waiter.bound(),
        final(b).req_waiter == old(b).req_waiter,
        final(b).req_slot == old(b).req_slot,
        final(b).resp_slot == old(b).resp_slot,
        final(b).resp_open == old(b).resp_open,
        final(b).poisoned == old(b).poisoned,
{
    old(a).resp_waiter.wake_is_idempotent();
    old(b).resp_waiter.wake_is_idempotent();
}

/// The server of a channel registers, itself or through its handle.
pub proof fn slot_channel_server_registers<Req, Resp, W: Waiter>(
    h: &slot_channel::Server<Req, Resp, W>,
    a: &mut slot_channel::Channel<Req, Resp, W>,
    b: &mut slot_channel::Channel<Req, Resp, W>,
)
    requires
        call_ensures(slot_channel::Channel::<Req, Resp, W>::set_server, (a,), ()),
        call_ensures(slot_channel::Server::<Req, Resp, W>::bind, (h, b), ()),
    ensures
        final(a).req_waiter.registered(),
        final(a).req_waiter == old(a).req_waiter.bound(),
        final(a).resp_waiter == old(a).resp_waiter,
        final(a).req_slot == old(a).req_slot,
        final(a).resp_slot == old(a).resp_slot,
        final(a).resp_open == old(a).resp_open,
        final(a).poisoned == old(a).poisoned,
        final(b).req_waiter.registered(),
        final(b).req_waiter == old(b).req_waiter.bound(),
        final(b).resp_waiter == old(b).resp_waiter,
        final(b).req_slot == old(b).req_slot,
        final(b).resp_slot == old(b).resp_slot,
        final(b).resp_open == old(b).resp_open,
        final(b).poisoned == old(b).poisoned,
{
    old(a).req_waiter.wake_is_idempotent();
    old(b).req_waiter.wake_is_idempotent();
}

/// The client of a channel on signals registers, itself or through its handle.
pub proof fn signal_channel_client_registers<Req, Resp>(
    h: &signal_channel::Client<Req, Resp>,
    a: &mut signal_channel::Channel<Req, Resp>,
    b: &mut signal_channel::Channel<Req, Resp>,
)
    requires
        call_ensures(signal_channel::Channel::<Req, Resp>::set_client, (a,), ()),
        call_ensures(signal_channel::Client::<Req, Resp>::bind, (h, b), ()),
    ensures
        final(a).resp_gate.parker.registered,
        final(a).resp_gate.parker == old(a).resp_gate.parker.bound(),
        final(a).resp_gate.source == old(a).resp_gate.source,
        final(a).req_gate == old(a).req_gate,
        final(a).req_slot == old(a).req_slot,
        final(a).resp_slot == old(a).resp_slot,
        final(a).poisoned == old(a).poisoned,
        final(b).resp_gate.parker.registered,
        final(b).resp_gate.parker == old(b).resp_gate.parker.bound(),
        final(b).resp_gate.source == old(b).resp_gate.source,
        final(b).req_gate == old(b).req_gate,
        final(b).req_slot == old(b).req_slot,
        final(b).resp_slot == old(b).resp_slot,
        final(b).poisoned == old(b).poisoned,
{
}

/// The server of a channel on signals registers, itself or through its handle.
pub proof fn signal_channel_server_registers<Req, Resp>(
    h: &signal_channel::Server<Req, Resp>,
    a: &mut signal_channel::Channel<Req, Resp>,
    b: &mut signal_channel::Channel<Req, Resp>,
)
    requires
        call_ensures(signal_channel::Channel::<Req, Resp>::set_server, (a,), ()),
        call_ensures(signal_channel::Server::<Req, Resp>::bind, (h, b), ()),
    ensures
        final(a).req_gate.parker.registered,
        final(a).req_gate.parker == old(a).req_gate.parker.bound(),
        final(a).req_gate.source == old(a).req_gate.source,
        final(a).resp_gate == old(a).resp_gate,
        final(a).req_slot == old(a).req_slot,
        final(a).resp_slot == old(a).resp_slot,
        final(a).poisoned == old(a).poisoned,
        final(b).req_gate.parker.registered,
        final(b).req_gate.parker == old(b).req_gate.parker.bound(),
        final(b).req_gate.source == old(b).req_gate.source,
        final(b).resp_gate == old(b).resp_gate,
        final(b).req_slot == old(b).req_slot,
        final(b).resp_slot == old(b).resp_slot,
        final(b).poisoned == old(b).poisoned,
{
}

/// A channel starts with nothing asked and nothing answered.
pub proof fn channels_start_idle<Req, Resp, W: Waiter>(
    a: (slot_channel::Channel<Req, Resp, W>, slot_channel::Client<Req, Resp, W>, slot_channel::Server<Req, Resp, W>),
    b: (signal_channel::Channel<Req, Resp>, signal_channel::Client<Req, Resp>, signal_channel::Server<Req, Resp>),
)
    requires
        call_ensures(slot_channel::Channel::<Req, Resp, W>::spsc, (), a),
        call_ensures(signal_channel::Channel::<Req, Resp>::spsc, (), b),
    ensures
        a.0.req_slot is None,
        a.0.resp_slot is None,
        !a.0.resp_open,
        !a.0.poisoned,
        b.0.req_slot is None,
        b.0.resp_slot is None,
        !b.0.poisoned,
{
}

/// The consumer of a slot registers.
pub proof fn slot_pipe_registers<T, H: slot_pipe::PipeHook<T>, W: Waiter>(
    p: &mut slot_pipe::Pipe<T, H, W>,
)
    requires
        call_ensures(slot_pipe::Pipe::<T, H, W>::set_consumer, (p,), ()),
    ensures
        final(p).waiter.registered(),
        final(p).waiter == old(p).waiter.bound(),
        final(p).slot == old(p).slot,
        final(p).hook == old(p).hook,
{
    old(p).waiter.wake_is_idempotent();
}

/// The consumer of a slot on a signal registers.
pub proof fn signal_pipe_registers<T, H: signal_pipe::PipeHook<T>>(
    p: &mut signal_pipe::Pipe<T, H>,
)
    requires
        call_ensures(signal_pipe::Pipe::<T, H>::set_consumer, (p,), ()),
    ensures
        final(p).signal.parker.registered,
        final(p).signal.parker == old(p).signal.parker.bound(),
        final(p).slot == old(p).slot,
        final(p).hook == old(p).hook,
        final(p).signal.source == old(p).signal.source,
{
}

/// A slot with a hook starts empty and keeps that hook.
pub proof fn slots_start_empty_with_their_hook<T, H: slot_pipe::PipeHook<T>, K: signal_pipe::PipeHook<T>, W: Waiter>(
    h: H,
    j: K,
    a: slot_pipe::Pipe<T, H, W>,
    b: signal_pipe::Pipe<T, K>,
    x: &H,
    y: &K,
)
    requires
        call_ensures(slot_pipe::Pipe::<T, H, W>::with_hook, (h,), a),
        call_ensures(signal_pipe::Pipe::<T, K>::with_hook, (j,), b),
        call_ensures(slot_pipe::Pipe::<T, H, W>::hook, (&a,), x),
        call_ensures(signal_pipe::Pipe::<T, K>::hook, (&b,), y),
    ensures
        a.slot is None,
        b.slot is None,
        *x == h,
        *y == j,
{
}

/// Whoever waits for a one-time event registers.
pub proof fn one_signal_registers<W: Waiter>(
    h: &OneReceiver<W>,
    s: &mut OneSignal<W>,
)
    requires
        call_ensures(OneReceiver::<W>::bind, (h, s), ()),
    ensures
        final(s).waiter.registered(),
        final(s).waiter == old(s).waiter.bound(),
        final(s).state == old(s).state,
{
    old(s).waiter.wake_is_idempotent();
}

/// Whoever waits for a one-time value registers.
pub proof fn oneshot_registers<T, W: Waiter>(
    h: &Receiver<T, W>,
    s: &mut OneShot<T, W>,
)
    requires
        call_ensures(Receiver::<T, W>::bind, (h, s), ()),
    ensures
        final(s).waiter.registered(),
        final(s).waiter == old(s).waiter.bound(),
        final(s).state == old(s).state,
{
    old(s).waiter.wake_is_idempotent();
}

/// Whoever waits on a signal registers, whatever the signal stands on.
pub proof fn signals_register<S: SignalSource, W: Waiter>(
    a: &mut Signal<S>,
    b: &mut PlainSignal,
    c: &mut SignalPacked,
    d: &mut SignalStates,
    e: &mut SignalSet<W>,
    f: &mut Park,
    seen: bool,
)
    requires
        call_ensures(Signal::<S>::set_worker, (a,), ()),
        call_ensures(PlainSignal::set_worker, (b,), ()),
        call_ensures(SignalPacked::set_worker, (c,), ()),
        call_ensures(SignalStates::set_worker, (d,), ()),
        call_ensures(SignalSet::<W>::set_worker, (e,), ()),
        call_ensures(SignalSet::<W>::has_worker, (&*final(e),), seen),
        call_ensures(Park::set_worker, (f,), ()),
    ensures
        final(a).parker.registered,
        final(a).source == old(a).source,
        final(a).parker.parked == old(a).parker.parked,
        final(a).parker.owed == old(a).parker.owed,
        final(b).parker.registered,
        final(b).locked == old(b).locked,
        final(c).registered,
        final(c).state == old(c).state,
        final(c).owed == old(c).owed,
        final(d).registered,
        final(d).state == old(d).state,
        final(d).owed == old(d).owed,
        seen,
        final(e).chunks == old(e).chunks,
        final(e).names == old(e).names,
        final(f).waiter.registered,
        final(f).waiter.parked == old(f).waiter.parked,
{
    old(e).waiter.wake_is_idempotent();
}

/// A signal or a thread's place made with a spin budget has that budget; signals start
/// closed, and nobody is registered.
pub proof fn spin_budget_is_kept<S: SignalSource>(
    n: u32,
    source: S,
    a: Signal<OwnedBool>,
    b: Signal<S>,
    c: PlainSignal,
    d: Park,
    e: ParkWaiter,
    g: OwnedBool,
)
    requires
        call_ensures(Signal::<OwnedBool>::with_spin, (n,), a),
        call_ensures(Signal::<S>::with_source, (source, n), b),
        call_ensures(PlainSignal::with_spin, (n,), c),
        call_ensures(Park::with_spin, (n,), d),
        call_ensures(ParkWaiter::with_spin, (n,), e),
        call_ensures(OwnedBool::new_locked, (), g),
    ensures
        a.parker.spin_iters == n,
        !a.parker.registered,
        a.source.locked,
        b.parker.spin_iters == n,
        !b.parker.registered,
        b.source == source,
        c.parker.spin_iters == n,
        !c.parker.registered,
        c.locked,
        d.waiter.spin_iters == n,
        !d.waiter.registered,
        e.spin_iters == n,
        !e.registered,
        !e.parked,
        !e.owed,
        g.locked,
{
}

/// The producer of a ring registers the thread that it runs on: once per thread, so that
/// after a move a wake reaches the new one.
pub proof fn ring_producer_registers_its_thread<T, const CAP: usize, W: Waiter>(
    h: &mut Producer<T, CAP, W>,
    g: &mut Producer<T, CAP, W>,
    a: &mut Ring<T, CAP, W>,
    b: &mut Ring<T, CAP, W>,
    thread: u64,
    moved: bool,
    again: bool,
)
    requires
        call_ensures(Producer::<T, CAP, W>::register, (h, a, thread), moved),
        *old(g) == *final(h),
        call_ensures(Producer::<T, CAP, W>::register, (g, b, thread), again),
    ensures
        moved <==> old(h).worker() != Some(thread),
        !again,
        final(h).worker() == Some(thread),
        moved ==> final(a).not_full.registered(),
        moved ==> final(a).not_full == old(a).not_full.bound(),
        !moved ==> *final(a) == *old(a),
        *final(b) == *old(b),
        final(a).not_empty == old(a).not_empty,
        final(a).buf == old(a).buf,
        final(a).closed == old(a).closed,
{
    old(a).not_full.wake_is_idempotent();
}

/// The consumer of a ring registers the thread that it runs on: once per thread, so that
/// after a move a wake reaches the new one.
pub proof fn ring_consumer_registers_its_thread<T, const CAP: usize, W: Waiter>(
    h: &mut Consumer<T, CAP, W>,
    g: &mut Consumer<T, CAP, W>,
    a: &mut Ring<T, CAP, W>,
    b: &mut Ring<T, CAP, W>,
    thread: u64,
    moved: bool,
    again: bool,
)
    requires
        call_ensures(Consumer::<T, CAP, W>::register, (h, a, thread), moved),
        *old(g) == *final(h),
        call_ensures(Consumer::<T, CAP, W>::register, (g, b, thread), again),
    ensures
        moved <==> old(h).worker() != Some(thread),
        !again,
        final(h).worker() == Some(thread),
        moved ==> final(a).not_empty.registered(),
        moved ==> final(a).not_empty == old(a).not_empty.bound(),
        !moved ==> *final(a) == *old(a),
        *final(b) == *old(b),
        final(a).not_full == old(a).not_full,
        final(a).buf == old(a).buf,
        final(a).closed == old(a).closed,
{
    old(a).not_empty.wake_is_idempotent();
}

/// The producer of a ring registers the thread that it runs on: once per thread, so that
/// after a move a wake reaches the new one.
pub proof fn lazy_ring_producer_registers_its_thread<T, const CAP: usize, W: Waiter>(
    h: &mut ProducerSpsc2<T, CAP, W>,
    g: &mut ProducerSpsc2<T, CAP, W>,
    a: &mut Spsc2<T, CAP, W>,
    b: &mut Spsc2<T, CAP, W>,
    thread: u64,
    moved: bool,
    again: bool,
)
    requires
        call_ensures(ProducerSpsc2::<T, CAP, W>::register, (h, a, thread), moved),
        *old(g) == *final(h),
        call_ensures(ProducerSpsc2::<T, CAP, W>::register, (g, b, thread), again),
    ensures
        moved <==> old(h).worker() != Some(thread),
        !again,
        final(h).worker() == Some(thread),
        moved ==> final(a).not_full.registered(),
        moved ==> final(a).not_full == old(a).not_full.bound(),
        !moved ==> *final(a) == *old(a),
        *final(b) == *old(b),
        final(a).not_empty == old(a).not_empty,
        final(a).buf == old(a).buf,
        final(a).closed == old(a).closed,
{
    old(a).not_full.wake_is_idempotent();
}

/// The consumer of a ring registers the thread that it runs on: once per thread, so that
/// after a move a wake reaches the new one.
pub proof fn lazy_ring_consumer_registers_its_thread<T, const CAP: usize, W: Waiter>(
    h: &mut ConsumerSpsc2<T, CAP, W>,
    g: &mut ConsumerSpsc2<T, CAP, W>,
    a: &mut Spsc2<T, CAP, W>,
    b: &mut Spsc2<T, CAP, W>,
    thread: u64,
    moved: bool,
    again: bool,
)
    requires
        call_ensures(ConsumerSpsc2::<T, CAP, W>::register, (h, a, thread), moved),
        *old(g) == *final(h),
        call_ensures(ConsumerSpsc2::<T, CAP, W>::register, (g, b, thread), again),
    ensures
        moved <==> old(h).worker() != Some(thread),
        !again,
        final(h).worker() == Some(thread),
        moved ==> final(a).not_empty.registered(),
        moved ==> final(a).not_empty == old(a).not_empty.bound(),
        !moved ==> *final(a) == *old(a),
        *final(b) == *old(b),
        final(a).not_full == old(a).not_full,
        final(a).buf == old(a).buf,
        final(a).closed == old(a).closed,
{
    old(a).not_empty.wake_is_idempotent();
}

/// The consumer of a fan-in registers.
pub proof fn fan_in_consumer_registers<T, const CAP: usize, W: Waiter>(
    h: &MpscConsumer<T, CAP, W>,
    ch: &mut Mpsc<T, CAP, W>,
)
    requires
        call_ensures(MpscConsumer::<T, CAP, W>::bind, (h, ch), ()),
    ensures
        final(ch).fanin_waiter.registered(),
        final(ch).fanin_waiter == old(ch).fanin_waiter.bound(),
        final(ch).rings == old(ch).rings,
        final(ch).producer_waiters == old(ch).producer_waiters,
        final(ch).shutdown == old(ch).shutdown,
        final(ch).live_producers == old(ch).live_producers,
{
    old(ch).fanin_waiter.wake_is_idempotent();
}

/// The consumer of a fan-in that elides wakes registers.
pub proof fn eliding_consumer_registers<T, const CAP: usize, W: Waiter>(
    h: &Mpsc2Consumer<T, CAP, W>,
    ch: &mut Mpsc2<T, CAP, W>,
)
    requires
        call_ensures(Mpsc2Consumer::<T, CAP, W>::bind, (h, ch), ()),
    ensures
        final(ch).inner.fanin_waiter.registered(),
        final(ch).inner.fanin_waiter == old(ch).inner.fanin_waiter.bound(),
        final(ch).inner.rings == old(ch).inner.rings,
        final(ch).inner.producer_waiters == old(ch).inner.producer_waiters,
        final(ch).inner.shutdown == old(ch).inner.shutdown,
        final(ch).inner.live_producers == old(ch).inner.live_producers,
{
    old(ch).inner.fanin_waiter.wake_is_idempotent();
}

/// A producer of a fan-in registers in its own place.
pub proof fn fan_in_producer_registers<T, const CAP: usize, W: Waiter>(
    h: &MpscProducer<T, CAP, W>,
    ch: &mut Mpsc<T, CAP, W>,
    i: usize,
)
    requires
        h.wf(*old(ch)),
        call_ensures(MpscProducer::<T, CAP, W>::bind, (h, ch), ()),
        call_ensures(MpscProducer::<T, CAP, W>::index, (h,), i),
    ensures
        i < old(ch).producer_waiters@.len(),
        final(ch).producer_waiters@.len() == old(ch).producer_waiters@.len(),
        final(ch).producer_waiters@[i as int].registered(),
        final(ch).producer_waiters@[i as int] == old(ch).producer_waiters@[i as int].bound(),
        forall|k: int|
            0 <= k < old(ch).producer_waiters@.len() && k != i ==> #[trigger] final(ch).producer_waiters@[k] == old(ch).producer_waiters@[k],
        final(ch).rings == old(ch).rings,
        final(ch).fanin_waiter == old(ch).fanin_waiter,
        final(ch).shutdown == old(ch).shutdown,
        final(ch).live_producers == old(ch).live_producers,
{
    old(ch).producer_waiters@[i as int].wake_is_idempotent();
}

/// A producer of a fan-in that elides wakes registers in its own place.
pub proof fn eliding_producer_registers<T, const CAP: usize, W: Waiter>(
    h: &Mpsc2Producer<T, CAP, W>,
    ch: &mut Mpsc2<T, CAP, W>,
    i: usize,
)
    requires
        h.wf(*old(ch)),
        call_ensures(Mpsc2Producer::<T, CAP, W>::bind, (h, ch), ()),
        call_ensures(Mpsc2Producer::<T, CAP, W>::index, (h,), i),
    ensures
        i < old(ch).inner.producer_waiters@.len(),
        final(ch).inner.producer_waiters@.len() == old(ch).inner.producer_waiters@.len(),
        final(ch).inner.producer_waiters@[i as int].registered(),
        final(ch).inner.producer_waiters@[i as int] == old(ch).inner.producer_waiters@[i as int].bound(),
        forall|k: int|
            0 <= k < old(ch).inner.producer_waiters@.len() && k != i ==> #[trigger] final(ch).inner.producer_waiters@[k] == old(ch).inner.producer_waiters@[k],
        final(ch).inner.rings == old(ch).inner.rings,
        final(ch).inner.fanin_waiter == old(ch).inner.fanin_waiter,
        final(ch).inner.shutdown == old(ch).inner.shutdown,
        final(ch).inner.live_producers == old(ch).inner.live_producers,
{
    old(ch).inner.producer_waiters@[i as int].wake_is_idempotent();
}

/// A producer of a sharded channel registers in its own place.
pub proof fn shard_producer_registers<T, const CAP: usize, W: Waiter>(
    h: &MpmcProducer<T, CAP, W>,
    ch: &mut Mpmc<T, CAP, W>,
    i: usize,
)
    requires
        h.wf(*old(ch)),
        call_ensures(MpmcProducer::<T, CAP, W>::bind, (h, ch), ()),
        call_ensures(MpmcProducer::<T, CAP, W>::index, (h,), i),
    ensures
        i < old(ch).producer_waiters@.len(),
        final(ch).producer_waiters@.len() == old(ch).producer_waiters@.len(),
        final(ch).producer_waiters@[i as int].registered(),
        final(ch).producer_waiters@[i as int] == old(ch).producer_waiters@[i as int].bound(),
        forall|k: int|
            0 <= k < old(ch).producer_waiters@.len() && k != i ==> #[trigger] final(ch).producer_waiters@[k] == old(ch).producer_waiters@[k],
        final(ch).shards == old(ch).shards,
        final(ch).shutdown == old(ch).shutdown,
{
    old(ch).producer_waiters@[i as int].wake_is_idempotent();
}

/// A consumer of a sharded channel registers at its own shard.
pub proof fn shard_consumer_registers<T, const CAP: usize, W: Waiter>(
    h: &MpmcConsumer<T, CAP, W>,
    ch: &mut Mpmc<T, CAP, W>,
    s: usize,
)
    requires
        h.wf(*old(ch)),
        call_ensures(MpmcConsumer::<T, CAP, W>::bind, (h, ch), ()),
        call_ensures(MpmcConsumer::<T, CAP, W>::shard, (h,), s),
    ensures
        s < old(ch).consumer_waiters().len(),
        final(ch).consumer_waiters()[s as int].registered(),
        final(ch).consumer_waiters()[s as int] == old(ch).consumer_waiters()[s as int].bound(),
        forall|k: int|
            0 <= k < old(ch).consumer_waiters().len() && k != s ==> #[trigger] final(ch).consumer_waiters()[k] == old(ch).consumer_waiters()[k],
        final(ch)@ == old(ch)@,
        final(ch).producer_waiters == old(ch).producer_waiters,
        final(ch).shutdown == old(ch).shutdown,
{
    old(ch).consumer_waiters()[s as int].wake_is_idempotent();
}

/// A producer of a sharded channel on signals registers at its own signal, and may try
/// again iff that signal is open.
pub proof fn signal_shard_producer_registers<T, const CAP: usize>(
    h: &signal_shards::MpmcProducer<T, CAP>,
    ch: &mut signal_shards::Mpmc<T, CAP>,
    i: usize,
    can: bool,
)
    requires
        h.wf(*old(ch)),
        call_ensures(signal_shards::MpmcProducer::<T, CAP>::bind, (h, ch), ()),
        call_ensures(signal_shards::MpmcProducer::<T, CAP>::index, (h,), i),
        call_ensures(signal_shards::MpmcProducer::<T, CAP>::can_send, (h, &*old(ch)), can),
    ensures
        i < old(ch).producer_gates@.len(),
        can <==> !old(ch).producer_gates@[i as int].source.locked,
        final(ch).producer_gates@[i as int].parker.registered,
        final(ch).producer_gates@[i as int].source == old(ch).producer_gates@[i as int].source,
        forall|k: int|
            0 <= k < old(ch).producer_gates@.len() && k != i ==> #[trigger] final(ch).producer_gates@[k] == old(ch).producer_gates@[k],
        final(ch).shards == old(ch).shards,
        final(ch).shutdown == old(ch).shutdown,
{
}

/// A consumer of a sharded channel on signals registers at its own shard.
pub proof fn signal_shard_consumer_registers<T, const CAP: usize>(
    h: &signal_shards::MpmcConsumer<T, CAP>,
    ch: &mut signal_shards::Mpmc<T, CAP>,
    s: usize,
)
    requires
        h.wf(*old(ch)),
        call_ensures(signal_shards::MpmcConsumer::<T, CAP>::bind, (h, ch), ()),
        call_ensures(signal_shards::MpmcConsumer::<T, CAP>::shard, (h,), s),
    ensures
        s < old(ch).shards@.len(),
        final(ch).shards@[s as int].full_set.waiter.registered(),
        final(ch).shards@[s as int].full_set.chunks == old(ch).shards@[s as int].full_set.chunks,
        final(ch)@ == old(ch)@,
        forall|k: int|
            0 <= k < old(ch).shards@.len() && k != s ==> #[trigger] final(ch).shards@[k] == old(ch).shards@[k],
        final(ch).producer_gates == old(ch).producer_gates,
        final(ch).shutdown == old(ch).shutdown,
{
    old(ch).shards@[s as int].full_set.waiter.wake_is_idempotent();
}

/// A port of a hub registers whoever waits for its reply, in its own place.
pub proof fn hub_port_registers<In, Out, W: Waiter>(
    h: &HubPort<In, Out, W>,
    hub: &mut Hub<In, Out, W>,
    i: usize,
)
    requires
        h.wf(*old(hub)),
        call_ensures(HubPort::<In, Out, W>::bind, (h, hub), ()),
        call_ensures(HubPort::<In, Out, W>::index, (h,), i),
    ensures
        i < old(hub).n(),
        final(hub).outbound@[i as int].waiter.registered(),
        final(hub).outbound@[i as int].slot == old(hub).outbound@[i as int].slot,
        forall|k: int|
            0 <= k < old(hub).n() && k != i ==> #[trigger] final(hub).outbound@[k] == old(hub).outbound@[k],
        final(hub).inbound == old(hub).inbound,
        final(hub).coordinator == old(hub).coordinator,
        final(hub).full_mask == old(hub).full_mask,
{
    old(hub).outbound@[i as int].waiter.wake_is_idempotent();
}

/// The drain of a hub registers.
pub proof fn hub_drain_registers<In, Out, W: Waiter>(
    h: &HubDrain<In, Out, W>,
    hub: &mut Hub<In, Out, W>,
)
    requires
        call_ensures(HubDrain::<In, Out, W>::bind, (h, hub), ()),
    ensures
        final(hub).coordinator.waiter.registered(),
        final(hub).coordinator.waiter == old(hub).coordinator.waiter.bound(),
        final(hub).inbound == old(hub).inbound,
        final(hub).outbound == old(hub).outbound,
        final(hub).full_mask == old(hub).full_mask,
        final(hub).coordinator.chunks == old(hub).coordinator.chunks,
{
    old(hub).coordinator.waiter.wake_is_idempotent();
}

/// What the handles say of their capacity is what their channels hold.
pub proof fn capacities_agree<T, const CAP: usize, W: Waiter>(
    a: &MpscConsumer<T, CAP, W>,
    b: &Mpsc2Producer<T, CAP, W>,
    c: &Mpsc2Consumer<T, CAP, W>,
    d: &MpmcConsumer<T, CAP, W>,
    x: &Mpsc<T, CAP, W>,
    y: &Mpsc2<T, CAP, W>,
    n: usize,
    m: usize,
    k: usize,
    l: usize,
    p: usize,
    q: usize,
)
    requires
        x.wf(),
        y.wf(),
        call_ensures(MpscConsumer::<T, CAP, W>::capacity_per_producer, (a,), n),
        call_ensures(MpscConsumer::<T, CAP, W>::total_capacity, (a, x), m),
        call_ensures(Mpsc2Producer::<T, CAP, W>::capacity, (b,), k),
        call_ensures(Mpsc2Consumer::<T, CAP, W>::capacity_per_producer, (c,), l),
        call_ensures(Mpsc2Consumer::<T, CAP, W>::total_capacity, (c, y), p),
        call_ensures(MpmcConsumer::<T, CAP, W>::capacity_per_producer, (d,), q),
    ensures
        n == CAP,
        k == CAP,
        l == CAP,
        q == CAP,
        m == x@.len() * CAP,
        p == y@.len() * CAP,
{
}

/// What the looks at a hub say fits together.
pub proof fn hub_sizes_agree<In, Out, W: Waiter>(
    d: &HubDrain<In, Out, W>,
    hub: &Hub<In, Out, W>,
    n: usize,
    m: usize,
    mask: u64,
    k: int,
)
    requires
        hub.wf(),
        0 <= k < 64,
        call_ensures(HubDrain::<In, Out, W>::len, (d, hub), n),
        call_ensures(Hub::<In, Out, W>::len, (hub,), m),
        call_ensures(Hub::<In, Out, W>::full_mask, (hub,), mask),
    ensures
        n == m,
        n == hub.inbound@.len(),
        crate::bits::bit_set(mask, k) <==> k < n,
{
    crate::bits::lemma_has_low_mask(hub.n(), k);
}

} // verus!
