use arbitro_kit::synapse::consumer::RecvPhase;
use arbitro_kit::synapse::producer::SendPhase;
use arbitro_kit::synapse::{Shutdown, Synapse};
use arbitro_kit::waiter::{Step, WaitPhase};
use std::sync::atomic::{AtomicUsize, Ordering};
use std::sync::Arc;

struct Counted(Arc<AtomicUsize>);

impl Drop for Counted {
    fn drop(&mut self) {
        self.0.fetch_add(1, Ordering::Relaxed);
    }
}

#[test]
fn n1_matches_ring_spsc() {
    let mut s: Synapse<u64, 8, 1> = Synapse::new();
    assert!(s.is_empty());
    assert_eq!(s.capacity(), 8);
    assert_eq!(s.consumers(), 1);
    for i in 0..5 {
        assert!(s.try_send(i).is_ok());
    }
    assert_eq!(s.len(), 5);
    for i in 0..5 {
        assert_eq!(s.try_recv(), Some(i));
    }
    assert!(s.is_empty());
    assert_eq!(s.try_recv(), None);
}

#[test]
fn try_send_returns_err_when_full() {
    let mut s: Synapse<u64, 4, 2> = Synapse::new();
    for i in 0..4 {
        assert!(s.try_send(i).is_ok());
    }
    assert_eq!(s.try_send(99), Err(99));
}

#[test]
fn tests_drop_drains_inflight() {
    let drops = Arc::new(AtomicUsize::new(0));
    {
        let mut s: Synapse<Counted, 8, 2> = Synapse::new();
        for _ in 0..5 {
            s.try_send(Counted(drops.clone())).ok().unwrap();
        }
    }
    assert_eq!(drops.load(Ordering::Relaxed), 5, "Drop must drain all inflight slots");
}

/// Take consumer `i` to the point where it parks.
fn park<const CAP: usize, const N: usize>(s: &mut Synapse<u64, CAP, N>, i: usize) -> RecvPhase {
    let mut at = RecvPhase::Try;
    while at != RecvPhase::Park(WaitPhase::Park) {
        at = match s.recv(i, at) {
            Step::Wait(next) => next,
            Step::Done(_) => panic!("there is nothing to take"),
        };
    }
    at
}

/// Finish the receive of consumer `i` from `at` on.
fn finish<const CAP: usize, const N: usize>(
    s: &mut Synapse<u64, CAP, N>,
    i: usize,
    mut at: RecvPhase,
) -> Result<u64, Shutdown> {
    for _ in 0..100 {
        match s.recv(i, at) {
            Step::Done(r) => return r,
            Step::Wait(next) => at = next,
        }
    }
    panic!("still asleep");
}

#[test]
fn each_send_wakes_one_idle_consumer() {
    let mut s: Synapse<u64, 8, 3> = Synapse::new();
    let mut at = Vec::new();
    for i in 0..3 {
        s.bind_consumer(i);
        at.push(park(&mut s, i));
    }
    assert_eq!(s.idle_mask, 0b111);
    // The search starts at the write cursor modulo the number of consumers.
    s.try_send(10).unwrap();
    assert_eq!(s.idle_mask, 0b101);
    assert!(!s.signals[1].source.locked);
    assert!(s.signals[1].parker.owed);
    s.try_send(11).unwrap();
    assert_eq!(s.idle_mask, 0b001);
    s.try_send(12).unwrap();
    assert_eq!(s.idle_mask, 0);
    s.try_send(13).unwrap();
    assert_eq!(finish(&mut s, 2, at[2]), Ok(10));
    assert_eq!(finish(&mut s, 0, at[0]), Ok(11));
    assert_eq!(finish(&mut s, 1, at[1]), Ok(12));
    assert_eq!(finish(&mut s, 1, RecvPhase::Try), Ok(13));
}

#[test]
fn a_search_that_wraps_finds_an_idle_consumer() {
    let mut s: Synapse<u64, 8, 3> = Synapse::new();
    s.bind_consumer(0);
    let at = park(&mut s, 0);
    s.try_send(1).unwrap();
    assert_eq!(s.idle_mask, 0);
    assert_eq!(finish(&mut s, 0, at), Ok(1));
}

#[test]
fn a_consumer_that_sees_an_item_withdraws() {
    let mut s: Synapse<u64, 8, 2> = Synapse::new();
    s.bind_consumer(0);
    let mut at = RecvPhase::Try;
    while at != RecvPhase::Recheck {
        at = match s.recv(0, at) {
            Step::Wait(next) => next,
            Step::Done(_) => panic!("there is nothing to take"),
        };
    }
    assert_eq!(s.idle_mask, 1);
    s.try_send(5).unwrap();
    assert_eq!(finish(&mut s, 0, at), Ok(5));
    assert_eq!(s.idle_mask, 0);
}

#[test]
fn shutdown_wakes_everybody_and_leaves_the_items() {
    let mut s: Synapse<u64, 4, 2> = Synapse::new();
    s.bind_consumer(0);
    s.bind_consumer(1);
    let a0 = park(&mut s, 0);
    let a1 = park(&mut s, 1);
    assert!(!s.is_shutdown());
    s.shutdown();
    assert!(s.is_shutdown());
    s.try_send(3).unwrap();
    assert_eq!(finish(&mut s, 0, a0), Ok(3));
    assert_eq!(finish(&mut s, 1, a1), Err(Shutdown));
    assert_eq!(finish(&mut s, 0, RecvPhase::Try), Err(Shutdown));
}

#[test]
fn a_full_ring_blocks_the_producer_until_a_claim() {
    let mut s: Synapse<u64, 1, 1> = Synapse::new();
    s.set_producer();
    assert!(matches!(s.send(1, SendPhase::Try), Step::Done(())));
    assert!(s.is_full());
    let mut value = 2;
    let mut at = SendPhase::Try;
    while at != SendPhase::Park(WaitPhase::Park) {
        match s.send(value, at) {
            Step::Wait((v, next)) => {
                value = v;
                at = next;
            }
            Step::Done(()) => panic!("the ring is full"),
        }
    }
    assert!(s.not_full.source.locked);
    assert_eq!(s.try_recv(), Some(1));
    assert!(s.not_full.parker.owed);
    loop {
        match s.send(value, at) {
            Step::Wait((v, next)) => {
                value = v;
                at = next;
            }
            Step::Done(()) => break,
        }
    }
    assert_eq!(s.try_recv(), Some(2));
}

#[test]
fn room_that_appears_before_the_park_is_found() {
    let mut s: Synapse<u64, 1, 1> = Synapse::new();
    s.try_send(1).unwrap();
    let mut at = SendPhase::Try;
    while at != SendPhase::Recheck {
        match s.send(2, at) {
            Step::Wait((_, next)) => at = next,
            Step::Done(()) => panic!("the ring is full"),
        }
    }
    assert_eq!(s.try_recv(), Some(1));
    assert!(matches!(s.send(2, at), Step::Wait((2, SendPhase::Reopen))));
    assert!(matches!(s.send(2, SendPhase::Reopen), Step::Wait((2, SendPhase::Try))));
    assert!(matches!(s.send(2, SendPhase::Try), Step::Done(())));
}

#[test]
fn a_repeated_shutdown_calls_consumers_that_sleep_again() {
    let mut s: Synapse<u64, 4, 2> = Synapse::new();
    s.bind_consumer(1);
    s.shutdown();
    // The consumer closes its signal before it looks for the end once more.
    let mut at = RecvPhase::Lock;
    while at != RecvPhase::RecheckEnd {
        at = match s.recv(1, at) {
            Step::Wait(next) => next,
            Step::Done(_) => panic!("there is nothing to take"),
        };
    }
    assert!(s.signals[1].source.locked);
    s.shutdown();
    assert!(!s.signals[0].source.locked);
    assert!(!s.signals[1].source.locked);
    assert_eq!(finish(&mut s, 1, at), Err(Shutdown));
}

#[test]
fn an_item_always_finds_a_consumer_awake() {
    let mut s: Synapse<u64, 4, 3> = Synapse::new();
    for i in 0..3 {
        s.bind_consumer(i);
    }
    let at: Vec<RecvPhase> = (0..3).map(|i| park(&mut s, i)).collect();
    assert!((0..3).all(|i| s.signals[i].source.locked));
    s.try_send(5).unwrap();
    assert_eq!((0..3).filter(|&i| !s.signals[i].source.locked).count(), 1);
    let awake = (0..3).find(|&i| !s.signals[i].source.locked).unwrap();
    assert_eq!(finish(&mut s, awake, at[awake]), Ok(5));
}
