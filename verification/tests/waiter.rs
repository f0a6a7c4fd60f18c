use arbitro_kit::waiter::{
    AsyncWaiter, AwaitPhase, BlockingWaiter, DeadlinePhase, NoopWaiter, NotifyWaiter, ParkWaiter,
    WaitPhase, Waiter,
};

#[test]
fn wake_is_noop_and_does_not_panic() {
    let mut w = NoopWaiter;
    for _ in 0..1_000_000 {
        w.wake();
    }
}

fn assert_send_sync<T: Send + Sync>() {}

#[test]
fn is_send_and_sync() {
    assert_send_sync::<NoopWaiter>();
}

#[test]
fn noop_is_always_registered_and_owes_nothing() {
    let mut w = NoopWaiter::fresh();
    assert!(w.has_worker());
    w.set_worker();
    w.wake();
    assert!(!w.settle());
}

#[test]
fn wake_with_no_worker_is_noop() {
    let mut w = ParkWaiter::default();
    w.wake();
    w.parked = true;
    w.wake();
    assert!(!w.has_worker());
    assert!(!w.settle());
}

/// Run a wait whose condition holds from probe number `at` on; gives the
/// number of probes and of parks.
fn run_wait(w: &mut ParkWaiter, at: u32) -> (u32, u32) {
    let mut phase = WaitPhase::Entry;
    let mut probes = 0;
    let mut parks = 0;
    loop {
        let probe = !matches!(phase, WaitPhase::Announce | WaitPhase::Leave);
        if matches!(phase, WaitPhase::Park) {
            parks += 1;
        }
        if probe {
            probes += 1;
        }
        phase = w.wait_until(phase, probes >= at);
        if phase == WaitPhase::Done {
            return (probes, parks);
        }
    }
}

#[test]
fn a_wait_spins_before_it_parks() {
    let mut w = ParkWaiter::with_spin(3);
    w.set_worker();
    assert_eq!(run_wait(&mut w, 1), (1, 0));
    // One probe on entry, 64 tight ones, 3 with a pause, one behind the
    // announcement, then one park.
    assert_eq!(run_wait(&mut w, 68), (68, 0));
    assert_eq!(run_wait(&mut w, 69), (69, 0));
    assert_eq!(run_wait(&mut w, 70), (70, 1));
    assert!(!w.parked);
}

#[test]
fn a_wait_without_spin_parks_after_the_tight_probes() {
    let mut w = ParkWaiter::with_spin(0);
    w.set_worker();
    assert_eq!(run_wait(&mut w, 66), (66, 0));
    assert_eq!(run_wait(&mut w, 67), (67, 1));
}

#[test]
fn a_wake_of_a_parked_thread_is_owed_once() {
    let mut w = ParkWaiter::with_spin(0);
    w.set_worker();
    let mut phase = WaitPhase::Entry;
    while phase != WaitPhase::Park {
        phase = w.wait_until(phase, false);
    }
    assert!(w.parked);
    w.wake();
    w.wake();
    assert!(w.settle());
    assert!(!w.settle());
    phase = w.wait_until(phase, true);
    assert_eq!(phase, WaitPhase::Leave);
    phase = w.wait_until(phase, true);
    assert_eq!(phase, WaitPhase::Done);
    w.wake();
    assert!(!w.settle());
}

fn run_deadline(w: &mut ParkWaiter, ready_at: u32, expired_at: u32) -> DeadlinePhase {
    let mut phase = DeadlinePhase::Entry;
    let mut k = 0;
    while phase != DeadlinePhase::Done && phase != DeadlinePhase::TimedOut {
        phase = w.wait_until_deadline(phase, k >= ready_at, k >= expired_at);
        k += 1;
    }
    phase
}

#[test]
fn a_deadline_ends_a_wait() {
    let mut w = ParkWaiter::with_spin(2);
    w.set_worker();
    assert_eq!(run_deadline(&mut w, 0, 0), DeadlinePhase::Done);
    assert_eq!(run_deadline(&mut w, 5, 3), DeadlinePhase::TimedOut);
    assert_eq!(run_deadline(&mut w, 3, 5), DeadlinePhase::Done);
    assert_eq!(run_deadline(&mut w, 1000, 200), DeadlinePhase::TimedOut);
    assert_eq!(run_deadline(&mut w, 200, 1000), DeadlinePhase::Done);
    assert!(!w.parked);
}

#[test]
fn a_task_is_notified_only_while_it_waits() {
    let mut w = NotifyWaiter::default();
    assert!(w.has_worker());
    w.wake();
    assert!(!w.settle());
    let mut phase = AwaitPhase::Entry;
    while phase != AwaitPhase::Suspended {
        phase = w.wait_until(phase, false);
    }
    assert_eq!(w.inner.armed, 1);
    w.wake();
    assert!(w.settle());
    phase = w.wait_until(phase, true);
    assert_eq!(w.inner.armed, 0);
    assert_eq!(phase, AwaitPhase::Woken);
    assert_eq!(w.wait_until(phase, true), AwaitPhase::Done);
}

#[test]
fn a_cancelled_task_leaves_nothing_armed() {
    let mut w = NotifyWaiter::default();
    let mut phase = AwaitPhase::Entry;
    while phase != AwaitPhase::Suspended {
        phase = w.wait_until(phase, false);
    }
    w.cancel(phase);
    assert_eq!(w.inner.armed, 0);
    w.wake();
    assert!(!w.settle());
}

#[test]
fn park_fast_path_already_ready() {
    let mut w = ParkWaiter::default();
    assert_eq!(w.wait_until(WaitPhase::Entry, true), WaitPhase::Done);
    let mut park = arbitro_kit::gate::park::Park::new();
    assert_eq!(park.wait_until(WaitPhase::Entry, true), WaitPhase::Done);
}
