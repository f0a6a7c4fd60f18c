use arbitro_kit::gate::channel as gate_channel;
use arbitro_kit::slot::{CallPhase, Channel, ChannelAsync, Pipe, PipeAsync, Poisoned};
use arbitro_kit::waiter::{NotifyWaiter, Step};
use std::sync::atomic::{AtomicU64, Ordering};
use std::sync::Arc;

struct Counted(Arc<AtomicU64>);

impl Drop for Counted {
    fn drop(&mut self) {
        self.0.fetch_add(1, Ordering::Relaxed);
    }
}

#[test]
fn pipe_async_try_recv_empty() {
    let mut p: PipeAsync<u64> = PipeAsync::new();
    assert_eq!(p.try_recv(), None);
    p.send(7);
    assert_eq!(p.try_recv(), Some(7));
    assert_eq!(p.try_recv(), None);
}

#[test]
fn pipe_async_drop_drains_inflight() {
    let drops = Arc::new(AtomicU64::new(0));
    {
        let mut p: PipeAsync<Counted> = PipeAsync::new();
        p.send(Counted(drops.clone()));
    }
    assert_eq!(drops.load(Ordering::Relaxed), 1);
}

#[test]
fn every_async_send_notifies() {
    let mut p: PipeAsync<u8> = PipeAsync::new();
    assert!(!p.settle());
    p.send(1);
    assert!(p.has_data());
    assert!(p.settle());
    assert!(!p.settle());
    assert_eq!(p.recv(), Step::Done(1));
    assert_eq!(p.recv(), Step::Wait(()));
}

#[test]
fn a_call_gives_the_reply_of_the_handler() {
    let (mut ch, client, server) = Channel::<u64, u64>::spsc();
    client.bind(&mut ch);
    server.bind(&mut ch);
    assert_eq!(client.call(&mut ch, CallPhase::Submit(20)), Step::Wait(CallPhase::Await));
    assert!(server.has_request(&ch));
    assert_eq!(client.call(&mut ch, CallPhase::Await), Step::Wait(CallPhase::Await));
    assert!(matches!(server.serve_one(&mut ch, |n| n + 22), Step::Done(())));
    assert!(!server.has_request(&ch));
    assert!(client.has_response(&ch));
    assert_eq!(client.call(&mut ch, CallPhase::Await), Step::Done(Ok(42)));
    assert!(!client.has_response(&ch));
    assert!(matches!(server.serve_one(&mut ch, |n| n), Step::Wait(_)));
}

#[test]
fn poison_ends_a_call_and_every_later_one() {
    let mut ch = Channel::<u64, u64>::new();
    assert_eq!(ch.call(CallPhase::Submit(1)), Step::Wait(CallPhase::Await));
    assert_eq!(ch.take_request(), Some(1));
    ch.poison();
    assert_eq!(ch.call(CallPhase::Await), Step::Done(Err(Poisoned)));
    assert_eq!(ch.call(CallPhase::Submit(2)), Step::Wait(CallPhase::Await));
    assert_eq!(ch.call(CallPhase::Await), Step::Done(Err(Poisoned)));

    let mut ch = gate_channel::Channel::<u64, u64>::new();
    assert_eq!(
        ch.call(gate_channel::CallPhase::Submit(1)),
        Step::Wait(gate_channel::CallPhase::Await)
    );
    assert_eq!(ch.take_request(), Some(1));
    ch.poison();
    assert_eq!(
        ch.call(gate_channel::CallPhase::Await),
        Step::Done(Err(gate_channel::Poisoned))
    );
}

#[test]
fn a_try_call_picks_up_the_pending_response() {
    let mut ch = gate_channel::Channel::<u64, u64>::new();
    assert_eq!(ch.try_call(42), Err(42));
    assert_eq!(
        ch.call(gate_channel::CallPhase::Submit(1)),
        Step::Wait(gate_channel::CallPhase::Await)
    );
    assert!(matches!(ch.serve_one(|n| n * 10), Step::Done(())));
    assert_eq!(ch.try_call(2), Ok(10));
    assert_eq!(ch.take_request(), Some(2));
}

#[test]
fn an_async_call_gives_the_reply_of_the_handler() {
    let (mut ch, client, server) = ChannelAsync::<u64, u64>::spsc();
    assert_eq!(client.call_async(&mut ch, CallPhase::Submit(4)), Step::Wait(CallPhase::Await));
    assert!(matches!(server.serve_one_async(&mut ch, |n| n * n), Step::Done(())));
    assert_eq!(client.call_async(&mut ch, CallPhase::Await), Step::Done(Ok(16)));
}

#[test]
fn a_pipe_wakes_its_consumer() {
    let mut p: Pipe<u8> = Pipe::new();
    p.set_consumer();
    p.waiter.parked = true;
    p.send(1);
    assert!(p.waiter.owed);
    assert_eq!(p.recv(), Step::Done(1));
    assert_eq!(p.recv(), Step::Wait(()));

    let mut p: Pipe<u8, arbitro_kit::slot::NoHook, NotifyWaiter> = Pipe::new();
    p.send(1);
    assert_eq!(p.recv_async(), Step::Done(1));
    assert_eq!(p.recv_async(), Step::Wait(()));
}
