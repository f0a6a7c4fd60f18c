use arbitro_kit::gate::channel::Channel as GateChannel;
use arbitro_kit::gate::gate::Signal as PlainSignal;
use arbitro_kit::gate::lifeline::{Lifeline, WaiterId};
use arbitro_kit::gate::one_signal::{AcquireError, OneSignal};
use arbitro_kit::gate::pipe::{Pipe, PipeHook};
use arbitro_kit::gate::signal::Signal;
use arbitro_kit::gate::signal_packed::{PackedPhase, SignalPacked};
use arbitro_kit::gate::signal_states::{AcquirePhase, SignalStates};
use arbitro_kit::gate::{SignalId, SignalSet};
use arbitro_kit::slot::channel::Channel as SlotChannel;
use arbitro_kit::waiter::{ParkWaiter, Step, WaitPhase};
use std::sync::atomic::{AtomicU64, Ordering};
use std::sync::Arc;

struct Counted(Arc<AtomicU64>);

impl Drop for Counted {
    fn drop(&mut self) {
        self.0.fetch_add(1, Ordering::Relaxed);
    }
}

#[test]
fn channel_try_call_returns_req_when_empty() {
    let (mut ch, client, _server) = GateChannel::<u64, u64>::spsc();
    client.bind(&mut ch);
    assert_eq!(client.try_call(&mut ch, 42), Err(42));

    let (mut ch, client, _server) = SlotChannel::<u64, u64>::spsc();
    client.bind(&mut ch);
    assert_eq!(client.try_call(&mut ch, 42), Err(42));
}

#[test]
fn gate_lock_and_reacquire() {
    let mut gate = PlainSignal::new();
    gate.release();
    assert_eq!(gate.acquire(WaitPhase::Entry), WaitPhase::Done);
    assert!(gate.is_open());
    gate.lock();
    assert!(!gate.is_open());
}

#[test]
fn signal_lock_and_reacquire() {
    let mut gate = Signal::new();
    gate.release(&mut ());
    assert_eq!(gate.acquire(&(), WaitPhase::Entry), WaitPhase::Done);
    assert!(gate.is_open(&()));
    gate.lock(&mut ());
    assert!(!gate.is_open(&()));
}

#[test]
fn signal_packed_lock_and_reacquire() {
    let mut gate = SignalPacked::new();
    gate.release();
    assert_eq!(gate.acquire(PackedPhase::Entry), PackedPhase::Done);
    assert!(gate.is_open());
    gate.lock();
    assert!(!gate.is_open());
}

#[test]
fn a_packed_release_unparks_a_parked_consumer_once() {
    let mut gate = SignalPacked::with_spin(1);
    gate.set_worker();
    let mut at = PackedPhase::Entry;
    while at != PackedPhase::Park {
        at = gate.acquire(at);
    }
    gate.release();
    assert!(gate.settle());
    gate.release();
    while at != PackedPhase::Done {
        at = gate.acquire(at);
    }
    assert!(gate.is_open());
    gate.settle();
    gate.release();
    assert!(!gate.settle());
}

#[test]
fn a_states_signal_is_consumed_by_its_acquire() {
    let mut s = SignalStates::new();
    s.set_worker();
    assert!(!s.is_open());
    s.release();
    assert!(s.is_open());
    let mut at = AcquirePhase::Check;
    while at != AcquirePhase::Done {
        at = s.acquire(at);
    }
    assert!(!s.is_open());
    assert!(!s.settle());
}

#[test]
fn a_states_release_of_a_parked_consumer_owes_one_unpark() {
    let mut s = SignalStates::new();
    s.set_worker();
    let mut at = AcquirePhase::Check;
    while at != AcquirePhase::Park {
        at = s.acquire(at);
    }
    s.release();
    s.release();
    assert!(s.settle());
    assert!(!s.settle());
    while at != AcquirePhase::Done {
        at = s.acquire(at);
    }
    assert!(!s.is_open());
}

#[test]
fn from_bool_external_atomic() {
    let mut state = false;
    let mut sig = Signal::from_bool();
    assert!(!sig.is_open(&state), "starts closed (state=false)");

    state = true;
    assert!(sig.is_open(&state), "external open must be visible to Signal");

    sig.lock(&mut state);
    assert!(!sig.is_open(&state));
    assert!(!state, "Signal::lock must clear the caller's bool");

    sig.release(&mut state);
    assert!(state, "Signal::release must set the caller's bool");
}

#[test]
fn from_bit_multiple_signals_share_one_u64() {
    let mut state = 0u64;
    let mut sig0 = Signal::from_bit(0);
    let mut sig3 = Signal::from_bit(3);
    let mut sig63 = Signal::from_bit(63);

    assert!(!sig0.is_open(&state) && !sig3.is_open(&state) && !sig63.is_open(&state));

    sig3.release(&mut state);
    assert!(!sig0.is_open(&state));
    assert!(sig3.is_open(&state));
    assert!(!sig63.is_open(&state));
    assert_eq!(state, 1u64 << 3);

    sig0.release(&mut state);
    assert!(sig0.is_open(&state));
    assert!(sig3.is_open(&state));
    assert!(!sig63.is_open(&state));
    assert_eq!(state, (1u64 << 3) | 1);

    sig3.lock(&mut state);
    assert!(sig0.is_open(&state));
    assert!(!sig3.is_open(&state));
    assert_eq!(state, 1);

    sig63.release(&mut state);
    assert!(sig63.is_open(&state));
    assert_eq!(state, 1 | (1u64 << 63));
}

#[test]
fn acquire_timeout_fires() {
    let (mut signal, _tx, rx) = OneSignal::<ParkWaiter>::new();
    rx.bind(&mut signal);
    let result = rx.acquire_timeout(&signal, true);
    assert_eq!(result, Err(AcquireError::TimedOut));
}

#[test]
fn timeout_short_does_not_underflow() {
    let (mut signal, _tx, rx) = OneSignal::<ParkWaiter>::new();
    rx.bind(&mut signal);
    assert_eq!(rx.acquire_timeout(&signal, true), Err(AcquireError::TimedOut));
}

#[test]
fn try_acquire_states() {
    let (mut signal, tx, rx) = OneSignal::<ParkWaiter>::new();
    assert_eq!(rx.try_acquire(&signal), Ok(None));
    tx.release(&mut signal);
    assert_eq!(rx.try_acquire(&signal), Ok(Some(())));
}

#[test]
fn try_acquire_after_drop() {
    let (mut signal, tx, rx) = OneSignal::<ParkWaiter>::new();
    tx.close(&mut signal);
    assert_eq!(rx.try_acquire(&signal), Err(AcquireError::Closed));
}

#[test]
fn release_before_acquire_no_park() {
    let (mut signal, tx, rx) = OneSignal::<ParkWaiter>::new();
    tx.release(&mut signal);
    rx.bind(&mut signal);
    assert!(matches!(rx.acquire(&signal), Step::Done(Ok(()))));
}

#[test]
fn an_acquire_waits_until_the_sender_decides() {
    let (mut signal, tx, rx) = OneSignal::<ParkWaiter>::new();
    rx.bind(&mut signal);
    assert!(!signal.is_settled());
    let rx = match rx.acquire(&signal) {
        Step::Wait(rx) => rx,
        Step::Done(_) => panic!("nothing was released"),
    };
    tx.close(&mut signal);
    assert!(signal.is_settled());
    assert!(matches!(rx.acquire(&signal), Step::Done(Err(AcquireError::Closed))));
}

#[test]
fn pipe_try_recv_empty() {
    let mut p: Pipe<u64> = Pipe::new();
    assert_eq!(p.try_recv(), None);
    p.send(7);
    assert_eq!(p.try_recv(), Some(7));
    assert_eq!(p.try_recv(), None);

    let mut p: arbitro_kit::slot::Pipe<u64> = arbitro_kit::slot::Pipe::new();
    assert_eq!(p.try_recv(), None);
    p.send(7);
    assert_eq!(p.try_recv(), Some(7));
    assert_eq!(p.try_recv(), None);
}

struct Counters {
    sends: u64,
    recvs: u64,
}

impl PipeHook<u64> for Counters {
    fn after_send(self, _: u64) -> Self {
        Counters { sends: self.sends + 1, ..self }
    }

    fn after_recv(self, _: u64) -> Self {
        Counters { recvs: self.recvs + 1, ..self }
    }

    fn on_send(&mut self, _: &u64) {
        self.sends += 1;
    }

    fn on_recv(&mut self, _: &u64) {
        self.recvs += 1;
    }
}

#[test]
fn pipe_hook_fires_on_both_sides() {
    let mut p: Pipe<u64, Counters> = Pipe::with_hook(Counters { sends: 0, recvs: 0 });
    for i in 0..5 {
        p.send(i);
        assert_eq!(p.recv(), Step::Done(i));
    }
    assert_eq!(p.hook().sends, 5);
    assert_eq!(p.hook().recvs, 5);
}

#[test]
fn pipe_drop_drains_inflight() {
    let drops = Arc::new(AtomicU64::new(0));
    {
        let mut p: Pipe<Counted> = Pipe::new();
        p.send(Counted(drops.clone()));
    }
    assert_eq!(drops.load(Ordering::Relaxed), 1);

    let drops = Arc::new(AtomicU64::new(0));
    {
        let mut p: arbitro_kit::slot::Pipe<Counted> = arbitro_kit::slot::Pipe::new();
        p.send(Counted(drops.clone()));
    }
    assert_eq!(drops.load(Ordering::Relaxed), 1);
}

#[test]
fn signal_accessor_exposes_primitive() {
    let mut p: Pipe<u32> = Pipe::new();
    assert!(!p.signal().is_open(&()));
    p.send(1);
    assert!(p.signal().is_open(&()));
    assert_eq!(p.recv(), Step::Done(1));
    assert!(!p.signal().is_open(&()));
}

#[test]
fn create_and_lookup() {
    let mut set: SignalSet = SignalSet::new();
    let store = set.create("store");
    let drain = set.create("drain");
    assert_eq!(store.index(), 0);
    assert_eq!(drain.index(), 1);
    assert_eq!(set.id_of("store"), Some(store));
    assert_eq!(set.id_of("drain"), Some(drain));
    assert_eq!(set.id_of("nope"), None);
    assert_eq!(set.name(store), Some("store"));
}

#[test]
fn release_lock_is_open() {
    let mut set: SignalSet = SignalSet::new();
    let a = set.create("a");
    let b = set.create("b");
    assert!(!set.is_open(a));
    set.release(a);
    assert!(set.is_open(a));
    assert!(!set.is_open(b));
    assert!(set.any_open(a.mask() | b.mask()));
    assert!(!set.all_open(a.mask() | b.mask()));
    set.release(b);
    assert!(set.all_open(a.mask() | b.mask()));
    set.lock(a);
    assert!(!set.is_open(a));
    assert!(set.is_open(b));
}

#[test]
fn a_set_with_many_gates_has_many_words() {
    let mut set: SignalSet = SignalSet::with_capacity(65);
    assert_eq!(set.n_chunks(), 2);
    assert_eq!(set.capacity_bits(), 128);
    let last = SignalId::new(127);
    set.release(last);
    assert!(set.is_open(last));
    assert_eq!(set.state(), 0);
    assert_eq!(set.state_chunk(1), 1u64 << 63);
    assert!(set.any_chunk_open());
    set.lock_chunk_mask(1, 1u64 << 63);
    assert!(!set.any_chunk_open());
    assert_eq!(SignalSet::<ParkWaiter>::with_capacity(0).n_chunks(), 1);
}

#[test]
fn a_second_release_wakes_nobody() {
    let mut set: SignalSet = SignalSet::new();
    let a = set.create("a");
    set.set_worker();
    assert!(set.has_worker());
    let mut at = WaitPhase::Entry;
    while at != WaitPhase::Park {
        at = set.acquire_any(a.mask(), at);
    }
    set.release(a);
    assert!(set.waiter.owed);
    set.waiter.owed = false;
    set.release(a);
    assert!(!set.waiter.owed);
    while at != WaitPhase::Done {
        at = set.acquire_any(a.mask(), at);
    }
}

#[test]
fn a_mask_spares_waiters_that_register_later() {
    let mut l = Lifeline::new();
    let a = l.register();
    l.cancel_mask(0b101);
    assert!(l.is_cancelled(a));
    assert_eq!(l.cancelled_mask(), 0b001);
    assert_eq!(l.settle(), 0b001);
    let b = l.register();
    let c = l.register();
    assert_eq!((b.index(), c.index()), (1, 2));
    assert!(!l.is_cancelled(b) && !l.is_cancelled(c));
    l.cancel_mask(0b101);
    assert!(l.is_cancelled(c) && !l.is_cancelled(b));
    assert_eq!(l.cancelled_mask(), 0b101);
    l.cancel_mask(u64::MAX);
    assert_eq!(l.cancelled_mask(), 0b111);
    // By name a waiter can be cancelled before it is there.
    l.cancel_one(WaiterId::new(3));
    let d = l.register();
    assert!(l.is_cancelled(d));
}

#[test]
fn an_id_is_its_index() {
    let mut l = Lifeline::new();
    let a = l.register();
    let b = l.register();
    assert_eq!(WaiterId::new(a.index()), a);
    assert_ne!(a, b);
    assert_eq!(WaiterId::new(63).bit(), 0x8000_0000_0000_0000);
    assert_eq!(WaiterId::new(63).bit().trailing_zeros(), 63);
    assert_eq!(a.bit() & b.bit(), 0);
}

#[test]
fn lifeline_cancels_one_some_and_all() {
    let mut l = Lifeline::new();
    let a = l.register();
    let b = l.register();
    let c = l.register();
    assert_eq!((a.index(), b.index(), c.index()), (0, 1, 2));
    assert_eq!(b.bit(), 2);
    assert!(!l.is_cancelled(a));
    l.cancel_one(b);
    assert!(!l.is_cancelled(a));
    assert!(l.is_cancelled(b));
    assert_eq!(l.cancelled_mask(), 2);
    l.cancel_mask(a.bit() | b.bit());
    assert!(l.is_cancelled(a));
    assert!(!l.is_cancelled(c));
    assert!(!l.is_cancelled_all());
    l.cancel_all();
    assert!(l.is_cancelled(c));
    assert!(l.is_cancelled_all());
    assert!(l.is_cancelled(WaiterId::new(40)));
}

#[test]
fn a_default_set_is_a_new_one() {
    let mut set: SignalSet<ParkWaiter> = SignalSet::default();
    assert_eq!((set.n_chunks(), set.capacity_bits(), set.state()), (1, 64, 0));
    assert_eq!(set.name(SignalId::new(0)), None);
    assert_eq!(set.create("first").index(), 0);
    assert_eq!(set.name(SignalId::new(0)), Some("first"));
}
