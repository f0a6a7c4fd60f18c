use arbitro_kit::gate::Lifeline;
use arbitro_kit::stream::{
    Consumer, ConsumerSpsc2, Duplex, Producer, ProducerSpsc2, Ring, Ring2, Spsc2, Stream,
    TryRecvError, TryRecvErrorSpsc2, TrySendError, TrySendErrorSpsc2,
};
use arbitro_kit::waiter::{NotifyWaiter, Step};
use std::sync::atomic::{AtomicUsize, Ordering};
use std::sync::Arc;

struct Counted(Arc<AtomicUsize>);

impl Drop for Counted {
    fn drop(&mut self) {
        self.0.fetch_add(1, Ordering::Relaxed);
    }
}

fn assert_send<X: Send>() {}

#[test]
fn ring_handles_are_send() {
    assert_send::<Producer<u32, 8>>();
    assert_send::<Consumer<u32, 8>>();
}

#[test]
fn spsc2_handles_are_send() {
    assert_send::<ProducerSpsc2<u32, 8>>();
    assert_send::<ConsumerSpsc2<u32, 8>>();
}

#[test]
fn ring_single_thread_basic() {
    let (mut ring, mut tx, mut rx) = Ring::<u32, 8>::new();
    assert!(rx.is_empty(&ring));
    assert_eq!(tx.capacity(), 8);
    assert_eq!(rx.capacity(), 8);
    for i in 0..8 {
        assert!(tx.try_send(&mut ring, i).is_ok());
    }
    assert!(tx.is_full(&ring));
    assert_eq!(tx.try_send(&mut ring, 999), Err(TrySendError::Full(999)));
    for i in 0..8 {
        assert_eq!(rx.try_recv(&mut ring), Ok(i));
    }
    assert!(rx.is_empty(&ring));
    assert_eq!(rx.try_recv(&mut ring), Err(TryRecvError::Empty));
}

#[test]
fn ring_wraparound() {
    let (mut ring, mut tx, mut rx) = Ring::<u32, 4>::new();
    for i in 0..100 {
        assert!(tx.try_send(&mut ring, i).is_ok());
        assert_eq!(rx.try_recv(&mut ring), Ok(i));
    }
}

#[test]
fn ring_producer_drop_disconnects_consumer() {
    let (mut ring, mut tx, mut rx) = Ring::<u32, 8>::new();
    for i in 0..3 {
        tx.try_send(&mut ring, i).unwrap();
    }
    tx.close(&mut ring);
    assert_eq!(rx.recv(&mut ring, 1), Step::Done(Some(0)));
    assert_eq!(rx.recv(&mut ring, 1), Step::Done(Some(1)));
    assert_eq!(rx.recv(&mut ring, 1), Step::Done(Some(2)));
    assert_eq!(rx.recv(&mut ring, 1), Step::Done(None));
    assert_eq!(rx.try_recv(&mut ring), Err(TryRecvError::Closed));
}

#[test]
fn ring_consumer_drop_disconnects_producer() {
    let (mut ring, mut tx, rx) = Ring::<u32, 2>::new();
    rx.close(&mut ring);
    assert!(tx.try_send(&mut ring, 1).is_ok());
    assert!(tx.try_send(&mut ring, 2).is_ok());
    assert_eq!(tx.try_send(&mut ring, 3), Err(TrySendError::Closed(3)));
    assert_eq!(tx.send(&mut ring, 4, 1), Step::Done(Err(4)));
}

#[test]
fn ring_drop_drains_inflight() {
    let drops = Arc::new(AtomicUsize::new(0));
    {
        let (mut ring, mut tx, rx) = Ring::<Counted, 8>::new();
        for _ in 0..5 {
            assert!(tx.try_send(&mut ring, Counted(drops.clone())).is_ok());
        }
        rx.close(&mut ring);
        tx.close(&mut ring);
    }
    assert_eq!(drops.load(Ordering::Relaxed), 5);
}

#[test]
fn ring_zero_sized_type() {
    let (mut ring, mut tx, mut rx) = Ring::<(), 8>::new();
    for _ in 0..8 {
        tx.try_send(&mut ring, ()).unwrap();
    }
    assert_eq!(tx.try_send(&mut ring, ()), Err(TrySendError::Full(())));
    for _ in 0..8 {
        assert_eq!(rx.try_recv(&mut ring), Ok(()));
    }
    assert_eq!(rx.try_recv(&mut ring), Err(TryRecvError::Empty));
}

#[test]
fn ring_bulk_send_takes_from_the_back() {
    let (mut ring, mut tx, mut rx) = Ring::<u32, 4>::new();
    let mut items = vec![1, 2, 3, 4, 5, 6];
    assert_eq!(tx.try_send_bulk(&mut ring, &mut items), 4);
    assert_eq!(items, vec![1, 2]);
    assert!(tx.should_notify_consumer(&ring, 4));
    assert_eq!(tx.try_send_bulk(&mut ring, &mut items), 0);
    let mut out = vec![0];
    assert_eq!(rx.drain(&mut ring, &mut out), 4);
    assert_eq!(out, vec![0, 6, 5, 4, 3]);
    assert_eq!(rx.drain(&mut ring, &mut out), 0);
}

#[test]
fn ring_blocked_parties_wait_for_each_other() {
    let (mut ring, mut tx, mut rx) = Ring::<u32, 1>::new();
    assert_eq!(rx.recv(&mut ring, 2), Step::Wait(()));
    assert!(!ring.can_recv());
    assert_eq!(tx.send(&mut ring, 7, 1), Step::Done(Ok(())));
    assert_eq!(tx.send(&mut ring, 8, 1), Step::Wait(8));
    assert!(!ring.can_send());
    assert_eq!(rx.recv(&mut ring, 2), Step::Done(Some(7)));
    assert!(ring.can_send());
    assert_eq!(tx.send(&mut ring, 8, 1), Step::Done(Ok(())));
    assert_eq!(rx.len(&ring), 1);

    let (mut ring, mut tx, mut rx) = Ring::<u32, 1, NotifyWaiter>::new();
    assert_eq!(rx.recv_async(&mut ring), Step::Wait(()));
    assert_eq!(tx.send_async(&mut ring, 7), Step::Done(Ok(())));
    assert_eq!(tx.send_async(&mut ring, 8), Step::Wait(8));
    assert_eq!(rx.recv_async(&mut ring), Step::Done(Some(7)));
}

#[test]
fn ring2_single_thread_basic() {
    let mut r: Ring2<u32, 8> = Ring2::new();
    assert!(r.is_empty());
    assert_eq!(r.capacity(), 8);
    for i in 0..8 {
        assert!(r.try_send(i).is_ok());
    }
    assert!(r.is_full());
    assert!(r.try_send(999).is_err());
    for i in 0..8 {
        assert_eq!(r.try_recv(), Some(i));
    }
    assert!(r.is_empty());
    assert_eq!(r.try_recv(), None);
}

#[test]
fn ring2_wraparound() {
    let mut r: Ring2<u32, 4> = Ring2::new();
    for i in 0..100 {
        assert!(r.try_send(i).is_ok());
        assert_eq!(r.try_recv(), Some(i));
    }
}

#[test]
fn ring2_drop_drains_inflight() {
    let drops = Arc::new(AtomicUsize::new(0));
    {
        let mut r: Ring2<Counted, 8> = Ring2::new();
        for _ in 0..5 {
            assert!(r.try_send(Counted(drops.clone())).is_ok());
        }
    }
    assert_eq!(drops.load(Ordering::Relaxed), 5);
}

#[test]
fn ring2_zero_sized_type() {
    let mut r: Ring2<(), 8> = Ring2::new();
    for _ in 0..8 {
        r.try_send(()).unwrap();
    }
    assert!(r.try_send(()).is_err());
    for _ in 0..8 {
        assert_eq!(r.try_recv(), Some(()));
    }
    assert_eq!(r.try_recv(), None);
}

#[test]
fn spsc2_single_thread_basic() {
    let (mut ring, mut tx, mut rx) = Spsc2::<u32, 8>::new();
    assert!(rx.is_empty(&ring));
    assert_eq!(tx.capacity(), 8);
    assert_eq!(rx.capacity(), 8);
    for i in 0..8 {
        assert!(tx.try_send(&mut ring, i).is_ok());
    }
    assert!(tx.is_full(&ring));
    assert_eq!(tx.try_send(&mut ring, 999), Err(TrySendErrorSpsc2::Full(999)));
    for i in 0..8 {
        assert_eq!(rx.try_recv(&mut ring), Ok(i));
    }
    assert!(rx.is_empty(&ring));
    assert_eq!(rx.try_recv(&mut ring), Err(TryRecvErrorSpsc2::Empty));
}

#[test]
fn spsc2_wraparound() {
    let (mut ring, mut tx, mut rx) = Spsc2::<u32, 4>::new();
    for i in 0..100 {
        assert!(tx.try_send(&mut ring, i).is_ok());
        assert_eq!(rx.try_recv(&mut ring), Ok(i));
    }
}

#[test]
fn spsc2_producer_drop_disconnects_consumer() {
    let (mut ring, mut tx, mut rx) = Spsc2::<u32, 8>::new();
    for i in 0..3 {
        tx.try_send(&mut ring, i).unwrap();
    }
    tx.close(&mut ring);
    assert_eq!(rx.recv(&mut ring, 1), Step::Done(Some(0)));
    assert_eq!(rx.recv(&mut ring, 1), Step::Done(Some(1)));
    assert_eq!(rx.recv(&mut ring, 1), Step::Done(Some(2)));
    assert_eq!(rx.recv(&mut ring, 1), Step::Done(None));
    assert_eq!(rx.try_recv(&mut ring), Err(TryRecvErrorSpsc2::Closed));
}

#[test]
fn spsc2_consumer_drop_disconnects_producer() {
    let (mut ring, mut tx, rx) = Spsc2::<u32, 2>::new();
    rx.close(&mut ring);
    assert!(tx.try_send(&mut ring, 1).is_ok());
    assert!(tx.try_send(&mut ring, 2).is_ok());
    assert_eq!(tx.try_send(&mut ring, 3), Err(TrySendErrorSpsc2::Closed(3)));
    assert_eq!(tx.send(&mut ring, 4, 1), Step::Done(Err(4)));
}

#[test]
fn spsc2_drop_drains_inflight() {
    let drops = Arc::new(AtomicUsize::new(0));
    {
        let (mut ring, mut tx, rx) = Spsc2::<Counted, 8>::new();
        for _ in 0..5 {
            assert!(tx.try_send(&mut ring, Counted(drops.clone())).is_ok());
        }
        rx.close(&mut ring);
        tx.close(&mut ring);
    }
    assert_eq!(drops.load(Ordering::Relaxed), 5);
}

#[test]
fn send_recv_single_thread() {
    let mut s: Stream<u64> = Stream::new();
    let r = s.send(42);
    assert_eq!(r.seq(), 0);
    assert_eq!(s.tail(), 1);
    assert_eq!(s.cursor(), 0);
    assert_eq!(s.try_recv(), Some(42));
    assert_eq!(s.cursor(), 1);
    assert_eq!(s.try_recv(), None);
}

#[test]
fn send_iter_returns_last_seq() {
    let mut s: Stream<u64> = Stream::new();
    let r = s.send_iter(vec![10, 20, 30]).unwrap();
    assert_eq!(r.seq(), 2);
    assert_eq!(s.tail(), 3);
    assert!(s.send_iter(Vec::new()).is_none());
    assert_eq!(s.tail(), 3);
}

#[test]
fn send_iter_then_recv_in_order() {
    let mut s: Stream<u64> = Stream::new();
    s.send_iter((0..50u64).collect());
    for i in 0..50u64 {
        assert_eq!(s.try_recv(), Some(i));
    }
    assert_eq!(s.try_recv(), None);
}

#[test]
fn cross_segment_boundary() {
    let mut s: Stream<u64> = Stream::new();
    const N: u64 = 700;
    for i in 0..N {
        s.send(i);
    }
    assert_eq!(s.tail(), N);
    for i in 0..N {
        assert_eq!(s.try_recv(), Some(i), "seq {} mismatched", i);
    }
    assert_eq!(s.cursor(), N);
    assert!(s.try_recv().is_none());
}

#[test]
fn receipt_is_delivered() {
    let mut s: Stream<u64> = Stream::new();
    let r0 = s.send(10);
    let r1 = s.send(20);
    assert!(!r0.is_delivered(&s));
    assert!(!r1.is_delivered(&s));
    s.try_recv();
    assert!(r0.is_delivered(&s));
    assert!(!r1.is_delivered(&s));
    s.try_recv();
    assert!(r1.is_delivered(&s));
}

#[test]
fn receipt_seq_is_per_message() {
    let mut s: Stream<u64> = Stream::new();
    let r0 = s.send(1);
    let r1 = s.send(2);
    let r2 = s.send(3);
    assert_eq!(r0.seq(), 0);
    assert_eq!(r1.seq(), 1);
    assert_eq!(r2.seq(), 2);
}

#[test]
fn drop_drains_remaining_payload() {
    let drops = Arc::new(AtomicUsize::new(0));
    {
        let mut s: Stream<Counted> = Stream::new();
        for _ in 0..600 {
            s.send(Counted(drops.clone()));
        }
        for _ in 0..100 {
            drop(s.try_recv().unwrap());
        }
    }
    assert_eq!(drops.load(Ordering::Relaxed), 600);
}

#[test]
fn tests_box_payload_zero_copy() {
    let mut s: Stream<Box<u64>> = Stream::new();
    let b = Box::new(0xDEAD_BEEFu64);
    let raw = format!("{:p}", Box::as_ref(&b));
    s.send(b);
    let got = s.try_recv().unwrap();
    let got_raw = format!("{:p}", Box::as_ref(&got));
    assert_eq!(raw, got_raw, "Box pointer must be preserved (zero-copy transfer)");
    assert_eq!(*got, 0xDEAD_BEEF);
}

#[test]
fn len_and_is_empty() {
    let mut s: Stream<u64> = Stream::new();
    assert!(s.is_empty());
    assert_eq!(s.len(), 0);
    s.send(1);
    s.send(2);
    s.send(3);
    assert_eq!(s.len(), 3);
    assert!(!s.is_empty());
    s.try_recv();
    assert_eq!(s.len(), 2);
}

#[test]
fn buffered_accumulates_until_threshold() {
    let mut stream = Stream::<u64>::new();
    let mut tx = stream.buffered(4);
    tx.send(&mut stream, 1);
    tx.send(&mut stream, 2);
    tx.send(&mut stream, 3);
    assert_eq!(stream.tail(), 0);
    assert_eq!(tx.pending(), 3);
    tx.send(&mut stream, 4);
    assert_eq!(stream.tail(), 4);
    assert_eq!(tx.pending(), 0);
}

#[test]
fn buffered_explicit_flush() {
    let mut stream = Stream::<u64>::new();
    let mut tx = stream.buffered(64);
    for i in 0..10u64 {
        tx.send(&mut stream, i);
    }
    assert_eq!(stream.tail(), 0);
    let r = tx.flush(&mut stream).unwrap();
    assert_eq!(r.seq(), 9);
    assert_eq!(stream.tail(), 10);
    assert_eq!(tx.pending(), 0);
    let r2 = tx.flush(&mut stream).unwrap();
    assert_eq!(r2.seq(), 9);
}

#[test]
fn buffered_drop_flushes_residue() {
    let mut stream = Stream::<u64>::new();
    {
        let mut tx = stream.buffered(64);
        for i in 0..5u64 {
            tx.send(&mut stream, i);
        }
        assert_eq!(stream.tail(), 0);
        tx.close(&mut stream);
    }
    assert_eq!(stream.tail(), 5);
    for i in 0..5u64 {
        assert_eq!(stream.try_recv(), Some(i));
    }
}

#[test]
fn buffered_drop_with_payload_drops_remaining() {
    let drops = Arc::new(AtomicUsize::new(0));
    let mut stream: Stream<Counted> = Stream::new();
    {
        let mut tx = stream.buffered(64);
        for _ in 0..10 {
            tx.send(&mut stream, Counted(drops.clone()));
        }
        assert_eq!(drops.load(Ordering::Relaxed), 0);
        tx.close(&mut stream);
    }
    assert_eq!(stream.tail(), 10);
    drop(stream);
    assert_eq!(drops.load(Ordering::Relaxed), 10);
}

#[test]
fn buffered_last_receipt_tracks_flushes() {
    let mut stream = Stream::<u64>::new();
    let mut tx = stream.buffered(4);
    assert!(tx.last_receipt().is_none());
    tx.send(&mut stream, 0);
    tx.send(&mut stream, 1);
    tx.send(&mut stream, 2);
    tx.send(&mut stream, 3);
    assert_eq!(tx.last_receipt().unwrap().seq(), 3);
    tx.send(&mut stream, 4);
    tx.send(&mut stream, 5);
    assert_eq!(tx.last_receipt().unwrap().seq(), 3);
    let r = tx.flush(&mut stream).unwrap();
    assert_eq!(r.seq(), 5);
    assert_eq!(tx.last_receipt().unwrap().seq(), 5);
}

#[test]
fn many_segments_then_drain_all() {
    let mut s: Stream<u64> = Stream::new();
    const N: u64 = 5_000;
    for i in 0..N {
        s.send(i);
    }
    let mut buf = Vec::with_capacity(N as usize);
    while !s.is_empty() {
        s.recv_bulk(&mut buf, 256);
    }
    assert_eq!(buf.len(), N as usize);
    for (i, v) in buf.iter().enumerate() {
        assert_eq!(*v, i as u64);
    }
}

#[test]
fn a_stream_receive_waits_or_is_cancelled() {
    let mut s: Stream<u64> = Stream::new();
    let mut life = Lifeline::new();
    let id = life.register();
    assert_eq!(s.recv(), Step::Wait(()));
    assert!(matches!(s.recv_or_cancel(&life, id), Step::Wait(())));
    s.send(9);
    assert!(matches!(s.recv_or_cancel(&life, id), Step::Done(Ok(9))));
    life.cancel_one(id);
    assert!(matches!(s.recv_or_cancel(&life, id), Step::Done(Err(_))));
    assert_eq!(s.wait_for(1), Step::Done(()));
    assert_eq!(s.wait_for(2), Step::Wait(()));
}

#[test]
fn pair_construction_and_basic_send_recv() {
    let (mut d, a, b) = Duplex::<u64, &'static str>::pair();
    a.send(&mut d.a_to_b, 42);
    assert_eq!(b.try_recv(&mut d.a_to_b), Some(42));

    b.send(&mut d.b_to_a, "hello");
    assert_eq!(a.try_recv(&mut d.b_to_a), Some("hello"));
}

#[test]
fn each_direction_is_independent() {
    let (mut d, a, b) = Duplex::<u64, u64>::pair();
    a.send(&mut d.a_to_b, 0);
    a.send(&mut d.a_to_b, 1);
    a.send(&mut d.a_to_b, 2);
    b.send(&mut d.b_to_a, 100);
    b.send(&mut d.b_to_a, 101);
    b.send(&mut d.b_to_a, 102);

    assert_eq!(b.try_recv(&mut d.a_to_b), Some(0));
    assert_eq!(a.try_recv(&mut d.b_to_a), Some(100));
    assert_eq!(b.try_recv(&mut d.a_to_b), Some(1));
    assert_eq!(a.try_recv(&mut d.b_to_a), Some(101));
    assert_eq!(b.try_recv(&mut d.a_to_b), Some(2));
    assert_eq!(a.try_recv(&mut d.b_to_a), Some(102));
    assert_eq!(a.try_recv(&mut d.b_to_a), None);
    assert_eq!(b.try_recv(&mut d.a_to_b), None);
}

#[test]
fn cursors_track_each_direction() {
    let (mut d, a, b) = Duplex::<u64, u64>::pair();
    assert_eq!(a.out_tail(&d.a_to_b), 0);
    assert_eq!(b.out_tail(&d.b_to_a), 0);

    a.send(&mut d.a_to_b, 1);
    a.send(&mut d.a_to_b, 2);
    a.send(&mut d.a_to_b, 3);
    assert_eq!(a.out_tail(&d.a_to_b), 3);
    assert_eq!(b.peer_tail(&d.a_to_b), 3);

    b.send(&mut d.b_to_a, 10);
    assert_eq!(b.out_tail(&d.b_to_a), 1);
    assert_eq!(a.peer_tail(&d.b_to_a), 1);

    b.try_recv(&mut d.a_to_b);
    assert_eq!(b.in_cursor(&d.a_to_b), 1);
}

#[test]
fn type_level_direction() {
    let (mut d, req_side, resp_side) = Duplex::<&'static str, u32>::pair();
    req_side.send(&mut d.a_to_b, "hello");
    assert_eq!(resp_side.try_recv(&mut d.a_to_b), Some("hello"));

    resp_side.send(&mut d.b_to_a, 42);
    assert_eq!(req_side.try_recv(&mut d.b_to_a), Some(42));
}

#[test]
fn fire_and_forget_with_delivery_verification() {
    let (mut d, a, b) = Duplex::<u64, u64>::pair();

    let r0 = a.send(&mut d.a_to_b, 100);
    let r1 = a.send(&mut d.a_to_b, 200);
    let r2 = a.send(&mut d.a_to_b, 300);

    assert!(!a.is_delivered(&d.a_to_b, r0));
    assert!(!a.is_delivered(&d.a_to_b, r1));
    assert!(!a.is_delivered(&d.a_to_b, r2));

    assert_eq!(b.try_recv(&mut d.a_to_b), Some(100));
    assert_eq!(b.try_recv(&mut d.a_to_b), Some(200));

    assert!(a.is_delivered(&d.a_to_b, r0));
    assert!(a.is_delivered(&d.a_to_b, r1));
    assert!(!a.is_delivered(&d.a_to_b, r2));

    b.try_recv(&mut d.a_to_b);
    assert!(a.is_delivered(&d.a_to_b, r2));
}

#[test]
fn batch_send_iter_returns_last_receipt() {
    let (mut d, a, b) = Duplex::<u64, ()>::pair();
    let r = a.send_iter(&mut d.a_to_b, (0..100u64).collect()).unwrap();
    assert_eq!(r.seq(), 99);
    assert!(!a.is_delivered(&d.a_to_b, r));

    for _ in 0..100 {
        b.try_recv(&mut d.a_to_b);
    }
    assert!(a.is_delivered(&d.a_to_b, r));
}

#[test]
fn drop_drains_payloads_in_both_directions() {
    let drops = Arc::new(AtomicUsize::new(0));
    {
        let (mut d, a, b) = Duplex::<Counted, Counted>::pair();
        for _ in 0..5 {
            a.send(&mut d.a_to_b, Counted(drops.clone()));
        }
        for _ in 0..3 {
            b.send(&mut d.b_to_a, Counted(drops.clone()));
        }
    }
    assert_eq!(drops.load(Ordering::Relaxed), 8);
}

#[test]
fn closing_a_buffer_wakes_the_consumer_once_there_is_something() {
    let mut s: Stream<u64> = Stream::new_strict();
    s.set_consumer();
    s.not_empty.waiter.parked = true;
    let b = s.buffered(4);
    b.close(&mut s);
    assert!(!s.not_empty.waiter.owed);
    let mut b = s.buffered(4);
    b.send(&mut s, 7);
    assert!(!s.not_empty.waiter.owed);
    b.close(&mut s);
    assert!(s.not_empty.waiter.owed && s.not_empty.waiter.registered && s.strict_wake);
    assert_eq!((s.tail(), s.try_recv()), (1, Some(7)));
}

#[test]
fn receiving_in_bulk_keeps_the_consumer_registered() {
    let (mut d, a, b) = Duplex::<u64, u64>::pair();
    b.set_consumer(&mut d.a_to_b);
    assert!(a.send_iter(&mut d.a_to_b, vec![1, 2, 3]).is_some());
    let mut out = Vec::new();
    assert_eq!(b.recv_bulk(&mut d.a_to_b, &mut out, 2), 2);
    assert_eq!(out, vec![1, 2]);
    assert!(d.a_to_b.not_empty.waiter.registered && d.a_to_b.strict_wake);
}
