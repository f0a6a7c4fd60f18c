use arbitro_kit::gate::mpmc as gate_mpmc;
use arbitro_kit::gate::SignalId;
use arbitro_kit::route::mpsc2::Mpsc2;
use arbitro_kit::route::oneshot_async::OneShotAsync as TaskOneShot;
use arbitro_kit::route::{
    Hub, Mpmc, MpmcAsync, Mpsc, MpscAsync, MpscProducer, OneShot, OneShotAsync, OneShotClosed,
    Shutdown,
};
use arbitro_kit::waiter::{NotifyWaiter, ParkWaiter, Step};
use std::sync::atomic::{AtomicUsize, Ordering};
use std::sync::Arc;

struct Counted(Arc<AtomicUsize>);

impl Drop for Counted {
    fn drop(&mut self) {
        self.0.fetch_add(1, Ordering::Relaxed);
    }
}

// Hub

#[test]
fn try_send_returns_err_when_busy() {
    let (mut hub, _drain, mut ports) = Hub::<u64, u64>::new(1);
    let p = ports.remove(0);
    assert!(p.try_send(&mut hub, 1).is_ok());
    assert_eq!(p.try_send(&mut hub, 2), Err(2));
}

#[test]
fn drop_drains_inflight_inbound() {
    let drops = Arc::new(AtomicUsize::new(0));
    {
        let (mut hub, _drain, mut ports) = Hub::<Counted, ()>::new(2);
        let p0 = ports.remove(0);
        p0.try_send(&mut hub, Counted(drops.clone())).ok().unwrap();
    }
    assert_eq!(drops.load(Ordering::Relaxed), 1);
}

#[test]
fn hub_call_is_answered() {
    let (mut hub, mut drain, mut ports) = Hub::<u64, u64>::new(1);
    let p = ports.remove(0);
    drain.bind(&mut hub);
    p.bind(&mut hub);
    assert_eq!(p.index(), 0);
    assert_eq!((hub.len(), drain.len(&hub), hub.full_mask()), (1, 1, 1));
    assert!(p.is_idle(&hub));
    assert_eq!(p.call(&mut hub, 21), Step::Wait(()));
    assert!(!p.is_idle(&hub));
    let mut batch = Vec::new();
    assert!(hub.can_recv());
    assert_eq!(drain.recv_batch(&mut hub, &mut batch), Step::Done(Ok(())));
    for (idx, msg, reply) in batch {
        assert_eq!(idx, 0);
        assert!(!reply.pipe(&hub).has_data());
        reply.send(&mut hub, msg * 2);
    }
    assert!(p.is_idle(&hub));
    assert_eq!(p.recv_reply(&mut hub), Step::Done(42));
    assert_eq!(p.try_recv_reply(&mut hub), None);
}

#[test]
fn hub_batches_go_round() {
    let (mut hub, mut drain, ports) = Hub::<u64, u64>::new(3);
    assert_eq!(hub.full_mask(), 0b111);
    let mut firsts = Vec::new();
    for round in 0..4u64 {
        for p in ports.iter() {
            p.try_send(&mut hub, round).unwrap();
        }
        let mut batch = Vec::new();
        assert!(drain.try_recv_batch(&mut hub, &mut batch));
        let order: Vec<usize> = batch.iter().map(|m| m.0).collect();
        firsts.push(order[0]);
        let mut sorted = order.clone();
        sorted.sort();
        assert_eq!(sorted, vec![0, 1, 2]);
        assert_eq!(order[1], (order[0] + 1) % 3);
    }
    assert_eq!(firsts, vec![0, 1, 2, 0]);
    let mut batch = Vec::new();
    assert!(!drain.try_recv_batch(&mut hub, &mut batch));
    assert_eq!(drain.recv_batch(&mut hub, &mut batch), Step::Wait(()));
    assert!(batch.is_empty());
}

#[test]
fn hub_shutdown_drains_inflight_first() {
    let (mut hub, mut drain, mut ports) = Hub::<u64, u64>::new(63);
    let shutdown = drain.shutdown_handle();
    let p = ports.remove(62);
    assert!(!shutdown.is_signaled(&hub));
    p.try_send(&mut hub, 99).unwrap();
    shutdown.clone().signal(&mut hub);
    assert!(shutdown.is_signaled(&hub));
    let mut batch = Vec::new();
    assert_eq!(drain.recv_batch(&mut hub, &mut batch), Step::Done(Err(Shutdown)));
    assert_eq!(batch.len(), 1);
    assert_eq!((batch[0].0, batch[0].1), (62, 99));
}

// Mpmc

#[test]
fn mpmc_shutdown_drains_inflight() {
    let (mut ch, mut ps, mut cs, sd) = Mpmc::<u64, 64>::new(1, 1);
    let mut p = ps.remove(0);
    let c = cs.remove(0);

    p.try_send(&mut ch, 99).unwrap();
    sd.signal(&mut ch);

    c.bind(&mut ch);
    assert_eq!(c.recv(&mut ch), Step::Done(Ok(99)));
    assert_eq!(c.recv(&mut ch), Step::Done(Err(Shutdown)));

    let (mut ch, mut ps, mut cs, sd) = gate_mpmc::Mpmc::<u64, 64>::new(1, 1);
    let mut p = ps.remove(0);
    let c = cs.remove(0);

    p.try_send(&mut ch, 99).unwrap();
    sd.signal(&mut ch);

    c.bind(&mut ch);
    assert_eq!(c.recv(&mut ch), Step::Done(Ok(99)));
    assert_eq!(c.recv(&mut ch), Step::Done(Err(Shutdown)));
}

#[test]
fn mpmc_try_send_err_when_all_shards_full() {
    let (mut ch, mut ps, _cs, _sd) = Mpmc::<u64, 1>::new(1, 2);
    let mut p = ps.remove(0);
    assert!(p.try_send(&mut ch, 1).is_ok());
    assert!(p.try_send(&mut ch, 2).is_ok());
    assert_eq!(p.try_send(&mut ch, 3), Err(3));

    let (mut ch, mut ps, _cs, _sd) = gate_mpmc::Mpmc::<u64, 1>::new(1, 2);
    let mut p = ps.remove(0);
    assert!(p.try_send(&mut ch, 1).is_ok());
    assert!(p.try_send(&mut ch, 2).is_ok());
    assert_eq!(p.try_send(&mut ch, 3), Err(3));
}

#[test]
fn mpmc_drop_drains_inflight() {
    let drops = Arc::new(AtomicUsize::new(0));
    {
        let (mut ch, mut ps, _cs, _sd) = Mpmc::<Counted, 64>::new(2, 2);
        let mut p0 = ps.remove(0);
        let mut p1 = ps.remove(0);
        p0.try_send(&mut ch, Counted(drops.clone())).ok().unwrap();
        p1.try_send(&mut ch, Counted(drops.clone())).ok().unwrap();
    }
    assert_eq!(drops.load(Ordering::Relaxed), 2);

    let drops = Arc::new(AtomicUsize::new(0));
    {
        let (mut ch, mut ps, _cs, _sd) = gate_mpmc::Mpmc::<Counted, 64>::new(2, 2);
        let mut p0 = ps.remove(0);
        let mut p1 = ps.remove(0);
        p0.try_send(&mut ch, Counted(drops.clone())).ok().unwrap();
        p1.try_send(&mut ch, Counted(drops.clone())).ok().unwrap();
    }
    assert_eq!(drops.load(Ordering::Relaxed), 2);
}

#[test]
fn capacity_introspection_reports_correct_state() {
    let (mut ch, mut ps, mut cs, _sd) = Mpmc::<u32, 8>::new(2, 3);
    let mut p0 = ps.remove(0);
    let mut p1 = ps.remove(0);

    let c0 = cs.remove(0);
    let c1 = cs.remove(0);
    let c2 = cs.remove(0);

    assert_eq!(p0.capacity_per_shard(), 8);
    assert_eq!(p0.total_capacity(&ch), 24);
    assert_eq!(p0.available(&ch), 24);
    assert_eq!(p0.pending_in_shard(&ch, 0), 0);

    assert_eq!(c0.capacity_per_producer(), 8);
    assert_eq!(c0.total_capacity(&ch), 16);
    assert_eq!(c0.pending(&ch), 0);
    assert_eq!(c0.available(&ch), 16);
    assert_eq!(c0.has_pending(&ch), false);

    for v in 0..5u32 {
        p0.try_send(&mut ch, v).unwrap();
    }
    assert_eq!(p0.available(&ch), 24 - 5);
    let pending_from_p0 =
        c0.pending_from(&ch, 0) + c1.pending_from(&ch, 0) + c2.pending_from(&ch, 0);
    assert_eq!(pending_from_p0, 5);

    p1.try_send(&mut ch, 1000).unwrap();
    assert_eq!(p1.available(&ch), 24 - 1);

    let any_has = c0.has_pending(&ch) || c1.has_pending(&ch) || c2.has_pending(&ch);
    assert!(any_has);
}

#[test]
fn mpmc_recv_batch_drains_multiple_producers_in_one_park() {
    let (mut ch, mut ps, mut cs, _sd) = Mpmc::<u64, 64>::new(2, 1);
    let mut p0 = ps.remove(0);
    let mut p1 = ps.remove(0);
    let c = cs.remove(0);

    p0.try_send(&mut ch, 10).unwrap();
    p1.try_send(&mut ch, 20).unwrap();

    c.bind(&mut ch);
    let mut got: Vec<u64> = Vec::new();
    assert_eq!(c.recv_batch(&mut ch, &mut got), Step::Done(Ok(2)));
    got.sort();
    assert_eq!(got, vec![10, 20]);

    let (mut ch, mut ps, mut cs, _sd) = gate_mpmc::Mpmc::<u64, 64>::new(2, 1);
    let mut p0 = ps.remove(0);
    let mut p1 = ps.remove(0);
    let c = cs.remove(0);

    p0.try_send(&mut ch, 10).unwrap();
    p1.try_send(&mut ch, 20).unwrap();

    c.bind(&mut ch);
    let mut got: Vec<u64> = Vec::new();
    assert_eq!(c.recv_batch(&mut ch, &mut got), Step::Done(Ok(2)));
    got.sort();
    assert_eq!(got, vec![10, 20], "both producers drained in one batch");
}

#[test]
fn mpmc_try_send_batch_amortizes_multiple_items() {
    let (mut ch, mut ps, mut cs, _sd) = Mpmc::<u64, 64>::new(1, 1);
    let mut p = ps.remove(0);
    let c = cs.remove(0);

    let mut items: Vec<u64> = (0..20).collect();
    assert_eq!(p.try_send_batch(&mut ch, &mut items), 20);
    assert!(items.is_empty());

    c.bind(&mut ch);
    let mut got: Vec<u64> = Vec::new();
    assert_eq!(c.recv_batch(&mut ch, &mut got), Step::Done(Ok(20)));
    assert_eq!(got, (0..20).collect::<Vec<_>>());

    let (mut ch, mut ps, mut cs, _sd) = gate_mpmc::Mpmc::<u64, 64>::new(1, 1);
    let mut p = ps.remove(0);
    let c = cs.remove(0);

    let mut items: Vec<u64> = (0..20).collect();
    let n = p.try_send_batch(&mut ch, &mut items);
    assert_eq!(n, 20, "all 20 items fit in one 64-slot ring");
    assert!(items.is_empty(), "Vec is drained");

    c.bind(&mut ch);
    let mut got: Vec<u64> = Vec::new();
    assert_eq!(c.recv_batch(&mut ch, &mut got), Step::Done(Ok(20)));
    assert_eq!(got, (0..20).collect::<Vec<_>>());
}

#[test]
fn mpmc_shards_take_turns() {
    let (mut ch, mut ps, cs, _sd) = Mpmc::<u64, 2>::new(2, 3);
    let mut p = ps.remove(1);
    assert_eq!(p.index(), 1);
    for v in 0..6u64 {
        p.try_send(&mut ch, v).unwrap();
    }
    assert!(!p.has_idle_shard(&ch));
    assert_eq!(p.send(&mut ch, 6), Step::Wait(6));
    // Producer 1 starts at shard 1.
    let expected = [vec![2, 5], vec![0, 3], vec![1, 4]];
    for (s, c) in cs.iter().enumerate() {
        assert_eq!(c.shard(), s);
        assert_eq!(c.pending(&ch), 2);
        assert_eq!(c.available(&ch), 2);
        let mut got = Vec::new();
        assert_eq!(c.try_recv_batch(&mut ch, &mut got), 2);
        assert_eq!(got, expected[s]);
    }
    assert_eq!(cs[0].recv(&mut ch), Step::Wait(()));
    assert!(!cs[0].can_recv(&ch));
    assert_eq!(p.send(&mut ch, 6), Step::Done(()));
}

#[test]
fn mpmc_batch_fills_one_shard() {
    let (mut ch, mut ps, cs, _sd) = Mpmc::<u64, 4>::new(1, 2);
    let mut p = ps.remove(0);
    let mut items: Vec<u64> = (0..6).collect();
    assert_eq!(p.try_send_batch(&mut ch, &mut items), 4);
    assert_eq!(items, vec![4, 5]);
    assert_eq!(p.try_send_batch(&mut ch, &mut items), 2);
    assert_eq!(p.try_send_batch(&mut ch, &mut items), 0);
    assert_eq!((p.pending_in_shard(&ch, 0), p.pending_in_shard(&ch, 1)), (4, 2));
    assert_eq!(p.available_in_shard(&ch, 1), 2);
    assert_eq!(cs[1].try_recv(&mut ch), Some(4));
}

#[test]
fn mpmc_tasks_share_the_same_channel() {
    let (mut ch, mut ps, cs, sd) = MpmcAsync::<u64, 1>::new(1, 1);
    let mut p = ps.remove(0);
    assert_eq!(p.send_async(&mut ch, 1), Step::Done(()));
    assert_eq!(p.send_async(&mut ch, 2), Step::Wait(2));
    assert_eq!(cs[0].recv_async(&mut ch), Step::Done(Ok(1)));
    assert_eq!(cs[0].recv_async(&mut ch), Step::Wait(()));
    sd.clone().signal(&mut ch);
    assert!(sd.is_signaled(&ch));
    assert_eq!(cs[0].recv_async(&mut ch), Step::Done(Err(Shutdown)));
}

#[test]
fn bitmap_mpmc_clears_its_bits_before_it_sleeps() {
    let (mut ch, mut ps, mut cs, _sd) = gate_mpmc::Mpmc::<u64, 2>::new(3, 1);
    let c = cs.remove(0);
    assert_eq!(c.shard(), 0);
    ps[2].try_send(&mut ch, 7).unwrap();
    ps[1].try_send(&mut ch, 5).unwrap();
    assert_eq!(ch.shards[0].full_set.state(), 0b110);
    assert_eq!(c.try_recv(&mut ch), Some(5));
    assert_eq!(c.recv(&mut ch), Step::Done(Ok(7)));
    assert_eq!(ch.shards[0].full_set.state(), 0b110);
    assert!(c.can_recv(&ch));
    assert_eq!(c.recv(&mut ch), Step::Wait(()));
    assert_eq!(ch.shards[0].full_set.state(), 0);
    assert!(!c.can_recv(&ch));
    let mut out = Vec::new();
    assert_eq!(c.recv_batch(&mut ch, &mut out), Step::Wait(()));
    assert_eq!(c.try_recv_batch(&mut ch, &mut out), 0);
    ps[0].try_send(&mut ch, 1).unwrap();
    assert!(c.can_recv(&ch));
}

#[test]
fn bitmap_mpmc_producer_waits_for_its_signal() {
    let (mut ch, mut ps, mut cs, sd) = gate_mpmc::Mpmc::<u64, 1>::new(1, 1);
    let mut p = ps.remove(0);
    let c = cs.remove(0);
    p.bind(&mut ch);
    assert_eq!(p.index(), 0);
    assert!(p.can_send(&ch));
    assert_eq!(p.send(&mut ch, 1), Step::Done(()));
    assert_eq!(p.send(&mut ch, 2), Step::Wait(2));
    assert!(!p.has_idle_shard(&ch));
    assert!(!p.can_send(&ch));
    assert_eq!(c.try_recv(&mut ch), Some(1));
    assert!(p.can_send(&ch));
    assert_eq!(p.send(&mut ch, 2), Step::Done(()));
    sd.clone().signal(&mut ch);
    assert!(sd.is_signaled(&ch));
    let mut out = Vec::new();
    assert_eq!(c.recv_batch(&mut ch, &mut out), Step::Done(Ok(1)));
    assert_eq!(c.recv_batch(&mut ch, &mut out), Step::Done(Err(Shutdown)));
    assert_eq!(out, vec![2]);
}

// Mpsc

#[test]
fn mpsc_try_send_full_returns_err() {
    let (mut ch, mut ps, _c, _sd) = Mpsc::<u64, 1>::new(1);
    let mut p = ps.remove(0);
    assert!(p.try_send(&mut ch, 1).is_ok());
    assert_eq!(p.try_send(&mut ch, 2), Err(2));
}

#[test]
fn mpsc2_try_send_full_returns_err() {
    let (mut ch, mut ps, _c, _sd) = Mpsc2::<u64, 1>::new(1);
    let mut p = ps.remove(0);
    assert!(p.try_send(&mut ch, 1).is_ok());
    assert_eq!(p.try_send(&mut ch, 2), Err(2));
}

#[test]
fn mpsc_drop_producers_shuts_consumer() {
    let (mut ch, ps, mut c, _sd) = Mpsc::<u64, 64>::new(2);
    for p in ps {
        p.close(&mut ch);
    }
    assert_eq!(c.recv(&mut ch), Step::Done(Err(Shutdown)));
}

#[test]
fn mpsc2_drop_producers_shuts_consumer() {
    let (mut ch, ps, mut c, _sd) = Mpsc2::<u64, 64>::new(2);
    for p in ps {
        p.close(&mut ch);
    }
    assert_eq!(c.recv(&mut ch), Step::Done(Err(Shutdown)));
}

#[test]
fn mpsc_drop_producers_delivers_inflight_first() {
    let (mut ch, mut ps, mut c, _sd) = Mpsc::<u64, 16>::new(1);
    let mut p = ps.remove(0);
    for i in 0..10u64 {
        p.try_send(&mut ch, i).unwrap();
    }
    p.close(&mut ch);

    let mut got = Vec::new();
    while let Step::Done(Ok(v)) = c.recv(&mut ch) {
        got.push(v);
    }
    assert_eq!(c.recv(&mut ch), Step::Done(Err(Shutdown)));
    assert_eq!(got, (0..10u64).collect::<Vec<u64>>());
}

#[test]
fn mpsc2_drop_producers_delivers_inflight_first() {
    let (mut ch, mut ps, mut c, _sd) = Mpsc2::<u64, 16>::new(1);
    let mut p = ps.remove(0);
    for i in 0..10u64 {
        p.try_send(&mut ch, i).unwrap();
    }
    p.close(&mut ch);

    let mut got = Vec::new();
    while let Step::Done(Ok(v)) = c.recv(&mut ch) {
        got.push(v);
    }
    assert_eq!(c.recv(&mut ch), Step::Done(Err(Shutdown)));
    assert_eq!(got, (0..10u64).collect::<Vec<u64>>());
}

#[test]
fn mpsc_drop_drains_inflight() {
    let drops = Arc::new(AtomicUsize::new(0));
    {
        let (mut ch, mut ps, _c, _sd) = Mpsc::<Counted, 64>::new(2);
        let mut p0 = ps.remove(0);
        let mut p1 = ps.remove(0);
        p0.try_send(&mut ch, Counted(drops.clone())).ok().unwrap();
        p1.try_send(&mut ch, Counted(drops.clone())).ok().unwrap();
    }
    assert_eq!(drops.load(Ordering::Relaxed), 2);
}

#[test]
fn mpsc2_drop_drains_inflight() {
    let drops = Arc::new(AtomicUsize::new(0));
    {
        let (mut ch, mut ps, _c, _sd) = Mpsc2::<Counted, 64>::new(2);
        let mut p0 = ps.remove(0);
        let mut p1 = ps.remove(0);
        p0.try_send(&mut ch, Counted(drops.clone())).ok().unwrap();
        p1.try_send(&mut ch, Counted(drops.clone())).ok().unwrap();
    }
    assert_eq!(drops.load(Ordering::Relaxed), 2);
}

#[test]
fn run_blocking_returns_immediately_when_already_closed() {
    let (mut ch, _ps, c, sd) = Mpsc::<u64, 64>::new(1);
    c.bind(&mut ch);
    sd.signal(&mut ch);

    let mut called = Vec::new();
    assert!(matches!(c.run_blocking(&mut ch, &mut called), Step::Done(())));
    assert_eq!(called.len(), 0);
}

#[test]
fn run_blocking_collects_until_the_end() {
    let (mut ch, mut ps, c, _sd) = Mpsc::<u64, 4>::new(1);
    let mut p = ps.remove(0);
    let mut out = Vec::new();
    p.try_send(&mut ch, 1).unwrap();
    let c = match c.run_blocking(&mut ch, &mut out) {
        Step::Wait(c) => c,
        Step::Done(()) => panic!("the channel is open"),
    };
    p.try_send(&mut ch, 2).unwrap();
    p.close(&mut ch);
    assert!(matches!(c.run_blocking(&mut ch, &mut out), Step::Done(())));
    assert_eq!(out, vec![1, 2]);
}

#[test]
fn is_closed_false_at_start() {
    let (ch, _ps, c, sd) = Mpsc::<u64, 64>::new(4);
    assert!(!c.is_closed(&ch));
    assert!(!sd.is_closed(&ch));
}

#[test]
fn is_closed_true_after_shutdown_signal() {
    let (mut ch, _ps, c, sd) = Mpsc::<u64, 64>::new(4);
    sd.signal(&mut ch);
    assert!(c.is_closed(&ch));
    assert!(sd.is_closed(&ch));
}

#[test]
fn is_closed_true_after_all_producers_drop() {
    let (mut ch, ps, c, sd) = Mpsc::<u64, 64>::new(4);
    for p in ps {
        p.close(&mut ch);
    }
    assert!(c.is_closed(&ch));
    assert!(sd.is_closed(&ch));
}

#[test]
fn is_closed_survives_pending_items() {
    let (mut ch, mut ps, c, _sd) = Mpsc::<u64, 16>::new(1);
    let mut p = ps.remove(0);
    p.try_send(&mut ch, 1).unwrap();
    p.try_send(&mut ch, 2).unwrap();
    p.try_send(&mut ch, 3).unwrap();
    p.close(&mut ch);
    assert!(c.is_closed(&ch));
    assert!(c.pending(&ch) > 0);
}

#[test]
fn mpsc_keeps_the_order_of_each_producer() {
    let (mut ch, mut ps, mut c, sd) = Mpsc::<u64, 4>::new(3);
    assert_eq!((c.capacity_per_producer(), c.total_capacity(&ch)), (4, 12));
    ps[2].try_send(&mut ch, 20).unwrap();
    ps[0].try_send(&mut ch, 0).unwrap();
    ps[2].try_send(&mut ch, 21).unwrap();
    ps[0].try_send(&mut ch, 1).unwrap();
    assert_eq!((ps[2].pending(&ch), ps[2].available(&ch), ps[2].index()), (2, 2, 2));
    assert_eq!(c.try_recv(&mut ch), Some(0));
    assert_eq!(c.pending(&ch), 3);
    let mut out = Vec::new();
    assert_eq!(c.try_recv_batch(&mut ch, &mut out), 3);
    assert_eq!(out, vec![1, 20, 21]);
    assert_eq!(c.recv_batch(&mut ch, &mut out), Step::Wait(()));
    assert!(!ch.can_recv());
    sd.clone().signal(&mut ch);
    assert!(sd.is_signaled(&ch));
    assert!(ch.can_recv());
    assert_eq!(c.recv_batch(&mut ch, &mut out), Step::Done(Err(Shutdown)));
    assert_eq!(ps[0].try_send(&mut ch, 9), Err(9));
    assert_eq!(ps[0].send(&mut ch, 9), Step::Done(()));
    assert_eq!(c.pending(&ch), 0);
}

#[test]
fn mpsc_bulk_send_wakes_the_consumer_once() {
    let (mut ch, mut ps, mut c, _sd) = Mpsc::<u64, 4>::new(1);
    c.bind(&mut ch);
    ch.fanin_waiter.parked = true;
    let mut items = vec![1, 2, 3, 4, 5];
    assert_eq!(ps[0].try_send_bulk(&mut ch, &mut items), 4);
    assert_eq!(items, vec![1]);
    assert!(ch.fanin_waiter.owed);
    assert!(!ps[0].can_send(&ch));
    assert_eq!(ps[0].send(&mut ch, 9), Step::Wait(9));
    let mut out = Vec::new();
    assert_eq!(c.recv_batch(&mut ch, &mut out), Step::Done(Ok(4)));
    assert_eq!(out, vec![5, 4, 3, 2]);
}

#[test]
fn mpsc2_wakes_the_consumer_only_on_an_empty_ring() {
    let (mut ch, mut ps, mut c, _sd) = Mpsc2::<u64, 4>::new(1);
    c.bind(&mut ch);
    ch.inner.fanin_waiter.parked = true;
    ps[0].try_send(&mut ch, 1).unwrap();
    assert!(ch.inner.fanin_waiter.owed);
    ch.inner.fanin_waiter.owed = false;
    ch.inner.fanin_waiter.parked = true;
    ps[0].try_send(&mut ch, 2).unwrap();
    assert!(!ch.inner.fanin_waiter.owed);
    assert_eq!(c.recv(&mut ch), Step::Done(Ok(1)));
    assert_eq!(c.try_recv(&mut ch), Some(2));
    assert_eq!(c.recv(&mut ch), Step::Wait(()));

    let (mut ch, mut ps, _c, _sd) = Mpsc::<u64, 4>::new(1);
    ch.fanin_waiter = ParkWaiter::with_spin(0);
    ch.fanin_waiter.registered = true;
    ch.fanin_waiter.parked = true;
    ps[0].try_send(&mut ch, 1).unwrap();
    assert!(ch.fanin_waiter.owed);
    ch.fanin_waiter.owed = false;
    ch.fanin_waiter.parked = true;
    ps[0].try_send(&mut ch, 2).unwrap();
    assert!(ch.fanin_waiter.owed);
}

#[test]
fn a_bulk_send_knows_of_the_room_that_sends_have_left() {
    let (mut ch, mut ps, mut c, _sd) = Mpsc::<u64, 4>::new(1);
    ps[0].try_send(&mut ch, 0).unwrap();
    assert_eq!(c.try_recv(&mut ch), Some(0));
    ps[0].try_send(&mut ch, 1).unwrap();
    // One item is in flight, and the producer, which has not looked since,
    // knows of two free slots.
    let mut items = vec![13, 12, 11, 10];
    assert_eq!(ps[0].try_send_bulk(&mut ch, &mut items), 2);
    assert_eq!(items, vec![13, 12]);

    let (mut ch, mut ps, mut c, _sd) = Mpsc2::<u64, 4>::new(1);
    ps[0].try_send(&mut ch, 0).unwrap();
    assert_eq!(c.try_recv(&mut ch), Some(0));
    ps[0].try_send(&mut ch, 1).unwrap();
    // This one looks with every send: it knows of all three.
    let mut items = vec![13, 12, 11, 10];
    assert_eq!(ps[0].try_send_bulk(&mut ch, &mut items), 3);
    assert_eq!(items, vec![13]);
}

#[test]
fn run_blocking_wakes_the_producers_it_makes_room_for() {
    let (mut ch, mut ps, c, sd) = Mpsc::<u64, 2>::new(2);
    ps[0].bind(&mut ch);
    ps[1].bind(&mut ch);
    ch.producer_waiters[0].parked = true;
    ch.producer_waiters[1].parked = true;
    ps[0].try_send(&mut ch, 5).unwrap();
    let mut out = Vec::new();
    let c = match c.run_blocking(&mut ch, &mut out) {
        Step::Wait(c) => c,
        Step::Done(()) => panic!("the channel is open"),
    };
    assert_eq!(out, vec![5]);
    assert!(ch.producer_waiters[0].owed && ch.producer_waiters[0].registered);
    assert!(!ch.producer_waiters[1].owed && ch.producer_waiters[1].registered);
    assert_eq!(ps[0].try_send(&mut ch, 6), Ok(()));
    sd.signal(&mut ch);
    assert!(matches!(c.run_blocking(&mut ch, &mut out), Step::Done(())));
    assert_eq!(out, vec![5, 6]);
}

#[test]
fn a_drained_shard_is_empty_and_has_its_room_back() {
    let (mut ch, mut ps, cs, _sd) = Mpmc::<u64, 2>::new(1, 2);
    let mut items = vec![1, 2, 3];
    assert_eq!(ps[0].try_send_batch(&mut ch, &mut items), 2);
    assert_eq!(ps[0].try_send_batch(&mut ch, &mut items), 1);
    assert_eq!(ps[0].available(&ch), 1);
    let mut out = Vec::new();
    assert_eq!(cs[0].try_recv_batch(&mut ch, &mut out), 2);
    assert_eq!(out, vec![1, 2]);
    assert_eq!((cs[0].pending(&ch), cs[1].pending(&ch)), (0, 1));
    assert_eq!(ps[0].available(&ch), 3);
    assert_eq!(cs[0].try_recv_batch(&mut ch, &mut out), 0);
}

#[test]
fn mpsc_tasks_share_the_same_channel() {
    let (mut ch, mut ps, mut c, sd) = MpscAsync::<u64, 1>::new(1);
    let p: &mut MpscProducer<u64, 1, NotifyWaiter> = &mut ps[0];
    assert_eq!(p.send_async(&mut ch, 1), Step::Done(()));
    assert_eq!(p.send_async(&mut ch, 2), Step::Wait(2));
    assert_eq!(p.send_async_send(&mut ch, 2), Step::Wait(2));
    assert_eq!(c.recv_async(&mut ch), Step::Done(Ok(1)));
    assert_eq!(c.recv_async_send(&mut ch), Step::Wait(()));
    let mut out = Vec::new();
    assert_eq!(c.recv_batch_async(&mut ch, &mut out), Step::Wait(()));
    assert_eq!(p.send_async_send(&mut ch, 3), Step::Done(()));
    assert_eq!(c.recv_batch_async_send(&mut ch, &mut out), Step::Done(Ok(1)));
    assert_eq!(out, vec![3]);
    assert_eq!(p.send_async(&mut ch, 4), Step::Done(()));
    c.close(&mut ch);
    // Full and closed: the value is given up.
    assert_eq!(p.send_async_send(&mut ch, 5), Step::Done(()));
    assert!(!sd.is_signaled(&ch));
}

#[test]
fn pool_leases_come_back() {
    let (mut ch, mut pool, mut c, _sd) = Mpsc::<u64, 8>::producer_pool(70);
    assert_eq!((pool.capacity(), pool.available()), (70, 70));
    let mut leases = Vec::new();
    for i in 0..70usize {
        let lease = pool.acquire().unwrap();
        assert_eq!(lease.deref().index(), i);
        leases.push(lease);
    }
    assert_eq!(pool.available(), 0);
    assert!(pool.acquire().is_none());
    let mut lease = leases.remove(66);
    lease.deref_mut().try_send(&mut ch, 1).unwrap();
    lease.close(&mut pool);
    assert_eq!(pool.available(), 1);
    let mut again = pool.acquire().unwrap();
    assert_eq!(again.deref().index(), 66);
    again.deref_mut().try_send(&mut ch, 2).unwrap();
    let mut out = Vec::new();
    assert_eq!(c.try_recv_batch(&mut ch, &mut out), 2);
    assert_eq!(out, vec![1, 2]);
    assert!(!c.is_closed(&ch));
}

#[test]
fn closing_the_pool_ends_the_channel() {
    let (mut ch, mut pool, mut c, sd) = Mpsc::<u64, 8>::producer_pool(3);
    let mut lease = pool.acquire().unwrap();
    assert!(lease.deref_mut().try_send(&mut ch, 7).is_ok());
    lease.close(&mut pool);
    assert!(!sd.is_closed(&ch));
    pool.close(&mut ch);
    assert!(sd.is_closed(&ch) && !sd.is_signaled(&ch));
    assert_eq!(ch.live_producers, 0);
    assert!(ch.rings.iter().all(|r| r.is_closed()));
    assert!(matches!(c.recv(&mut ch), Step::Done(Ok(7))));
    assert!(matches!(c.recv(&mut ch), Step::Done(Err(_))));
}

#[test]
fn pool_of_given_producers() {
    let (_ch, ps, _c, _sd) = Mpsc::<u64, 8>::new(2);
    let mut pool = Mpsc::<u64, 8>::pool_from_producers(ps);
    let a = pool.acquire().unwrap();
    let b = pool.acquire().unwrap();
    assert_eq!((a.deref().index(), b.deref().index()), (0, 1));
    a.close(&mut pool);
    assert_eq!(pool.acquire().unwrap().deref().index(), 0);
}

// OneShot

#[test]
fn try_recv_empty_returns_none() {
    let (mut slot, _tx, rx) = OneShot::<u64>::new();
    assert_eq!(rx.try_recv(&mut slot), Ok(None));
}

#[test]
fn try_recv_after_drop_returns_closed() {
    let (mut slot, tx, rx) = OneShot::<u64>::new();
    tx.close(&mut slot);
    assert_eq!(rx.try_recv(&mut slot), Err(OneShotClosed));
}

#[test]
fn try_recv_after_send_returns_value() {
    let (mut slot, tx, rx) = OneShot::<u64>::new();
    tx.send(&mut slot, 7);
    assert_eq!(rx.try_recv(&mut slot), Ok(Some(7)));
    assert_eq!(rx.try_recv(&mut slot), Err(OneShotClosed));
}

#[test]
fn send_after_receiver_drop_no_panic() {
    let (mut slot, tx, rx) = OneShot::<u64>::new();
    drop(rx);
    tx.send(&mut slot, 99);
}

#[test]
fn dropped_value_runs_destructor() {
    let drops = Arc::new(AtomicUsize::new(0));
    {
        let (mut slot, tx, rx) = OneShot::<Counted>::new();
        tx.send(&mut slot, Counted(drops.clone()));
        drop(rx);
    }
    assert_eq!(drops.load(Ordering::Relaxed), 1);
}

#[test]
fn one_shot_recv_waits_for_the_sender() {
    let (mut slot, tx, rx) = OneShot::<u64>::new();
    rx.bind(&mut slot);
    assert!(rx.waiter(&slot).registered);
    assert!(!slot.can_recv());
    let rx = match rx.recv(&mut slot) {
        Step::Wait(rx) => rx,
        Step::Done(_) => panic!("nothing was sent"),
    };
    tx.send(&mut slot, 42);
    assert!(slot.can_recv());
    assert!(matches!(rx.recv(&mut slot), Step::Done(Ok(42))));

    let (mut slot, tx, rx) = OneShotAsync::<u64>::new();
    let rx = match rx.recv_async(&mut slot) {
        Step::Wait(rx) => rx,
        Step::Done(_) => panic!("nothing was sent"),
    };
    tx.close(&mut slot);
    assert!(matches!(rx.recv_async(&mut slot), Step::Done(Err(OneShotClosed))));
}

#[test]
fn try_recv_states() {
    let (mut slot, tx, rx) = TaskOneShot::<u32>::new();
    assert_eq!(rx.try_recv(&mut slot), None);
    tx.send(&mut slot, 7);
    assert_eq!(rx.try_recv(&mut slot), Some(Ok(7)));
    assert_eq!(rx.try_recv(&mut slot), Some(Err(OneShotClosed)));
}

#[test]
fn oneshot_async_drop_drains_inflight() {
    let drops = Arc::new(AtomicUsize::new(0));
    {
        let (mut slot, tx, _rx) = TaskOneShot::<Counted>::new();
        tx.send(&mut slot, Counted(drops.clone()));
    }
    assert_eq!(drops.load(Ordering::Relaxed), 1);
}

#[test]
fn a_task_slot_notifies_whoever_waits() {
    let (mut slot, tx, rx) = TaskOneShot::<u32>::new();
    let rx = match rx.recv(&mut slot) {
        Step::Wait(rx) => rx,
        Step::Done(_) => panic!("nothing was sent"),
    };
    assert!(!slot.settle());
    tx.close(&mut slot);
    assert!(slot.settle());
    assert!(!slot.settle());
    assert!(matches!(rx.recv(&mut slot), Step::Done(Err(OneShotClosed))));
}

// Names, and what adds up

#[test]
fn every_port_of_a_hub_has_a_gate_under_its_own_name() {
    let (mut hub, mut drain, ports) = Hub::<u64, u64>::new(63);
    assert_eq!(hub.coordinator.name(SignalId::new(0)), Some("hub_port_0"));
    assert_eq!(hub.coordinator.name(SignalId::new(9)), Some("hub_port_9"));
    assert_eq!(hub.coordinator.name(SignalId::new(10)), Some("hub_port_10"));
    assert_eq!(hub.coordinator.name(SignalId::new(62)), Some("hub_port_62"));
    assert_eq!(hub.coordinator.name(SignalId::new(63)), None);
    assert_eq!(hub.coordinator.id_of("hub_port_41"), Some(SignalId::new(41)));
    assert_eq!(hub.coordinator.id_of("hub_port"), None);
    ports[41].try_send(&mut hub, 7).unwrap();
    let mut out = Vec::new();
    assert!(drain.try_recv_batch(&mut hub, &mut out));
    assert_eq!(hub.coordinator.id_of("hub_port_41"), Some(SignalId::new(41)));
}

#[test]
fn every_ring_of_a_shard_has_a_gate_under_its_own_name() {
    let (mut ch, mut ps, cs, sd) = gate_mpmc::Mpmc::<u64, 2>::new(3, 12);
    assert_eq!(ch.shards[0].full_set.name(SignalId::new(0)), Some("mpmc_s0_p0"));
    assert_eq!(ch.shards[11].full_set.name(SignalId::new(2)), Some("mpmc_s11_p2"));
    assert_eq!(ch.shards[11].full_set.name(SignalId::new(3)), None);
    assert_eq!(ch.shards[1].full_set.id_of("mpmc_s1_p2"), Some(SignalId::new(2)));
    assert_eq!(ch.shards[1].full_set.id_of("mpmc_s2_p1"), None);
    ps[0].try_send(&mut ch, 1).unwrap();
    assert_eq!(cs[0].recv(&mut ch), Step::Done(Ok(1)));
    sd.signal(&mut ch);
    assert_eq!(ch.shards[0].full_set.name(SignalId::new(1)), Some("mpmc_s0_p1"));
}

#[test]
fn free_producers_and_leases_make_the_pool() {
    let (_ch, mut pool, _c, _sd) = Mpsc::<u64, 8>::producer_pool(5);
    let mut leases = Vec::new();
    for _ in 0..4 {
        leases.push(pool.acquire().unwrap());
        assert_eq!(pool.available() + leases.len(), pool.capacity());
    }
    leases.remove(1).close(&mut pool);
    assert_eq!(pool.available() + leases.len(), pool.capacity());
}

#[test]
fn free_slots_and_pending_items_make_the_capacity() {
    let (mut ch, mut ps, cs, _sd) = Mpmc::<u32, 8>::new(2, 3);
    for v in 0..7u32 {
        ps[0].try_send(&mut ch, v).unwrap();
    }
    cs[1].try_recv(&mut ch).unwrap();
    let pending: usize = (0..3).map(|s| ps[0].pending_in_shard(&ch, s)).sum();
    assert_eq!(pending, 6);
    assert_eq!(ps[0].available(&ch) + pending, ps[0].total_capacity(&ch));
}

#[test]
fn a_waiting_consumer_is_called_by_the_first_item_of_any_ring() {
    let (mut ch, mut ps, mut c, _sd) = Mpsc2::<u64, 4>::new(2);
    c.bind(&mut ch);
    ps[0].try_send(&mut ch, 1).unwrap();
    assert_eq!(c.recv(&mut ch), Step::Done(Ok(1)));
    assert_eq!(c.recv(&mut ch), Step::Wait(()));
    ch.inner.fanin_waiter.parked = true;
    let mut items = vec![4, 3];
    assert_eq!(ps[1].try_send_bulk(&mut ch, &mut items), 2);
    assert!(ch.inner.fanin_waiter.owed);
}
