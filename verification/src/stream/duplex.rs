//! Two streams in opposite directions.
//!
//! A [`Duplex`] holds one stream per direction. Each [`DuplexEnd`] sends into
//! one of them and receives from the other, and its type says which messages
//! go which way.
use super::receipt::Receipt;
use super::segment::SEG_SIZE;
use super::stream::Stream;
use crate::waiter::{ParkWaiter, Step, Waiter};
use core::marker::PhantomData;
use vstd::prelude::*;

verus! {

/// The streams of a duplex connection.
pub struct Duplex<A, B> {
    /// From the left end to the right end.
    pub a_to_b: Stream<A>,
    /// From the right end to the left end.
    pub b_to_a: Stream<B>,
}

impl<A, B> Duplex<A, B> {
    /// A connection with its left and right ends. Both streams are strict: at
    /// either end the same thread may send and receive.
    pub fn pair() -> (r: (Self, DuplexEnd<A, B>, DuplexEnd<B, A>))
        ensures
            r.0.a_to_b.wf(),
            r.0.b_to_a.wf(),
            r.0.a_to_b@ == Seq::<A>::empty(),
            r.0.b_to_a@ == Seq::<B>::empty(),
            r.0.a_to_b.tail_pos == 0,
            r.0.a_to_b.head_pos == 0,
            r.0.b_to_a.tail_pos == 0,
            r.0.b_to_a.head_pos == 0,
            r.0.a_to_b.strict_wake,
            r.0.b_to_a.strict_wake,
            r.0.a_to_b.not_empty.waiter == ParkWaiter::initial(),
            r.0.b_to_a.not_empty.waiter == ParkWaiter::initial(),
    {
        (
            Duplex { a_to_b: Stream::new_strict(), b_to_a: Stream::new_strict() },
            DuplexEnd { ways: PhantomData },
            DuplexEnd { ways: PhantomData },
        )
    }
}

/// One end of a [`Duplex`]: sends `S`, receives `R`.
pub struct DuplexEnd<S, R> {
    ways: PhantomData<(S, R)>,
}

impl<S, R> DuplexEnd<S, R> {
    /// Send one message to the peer; see [`Stream::send`].
    pub fn send(&self, out: &mut Stream<S>, value: S) -> (r: Receipt)
        requires
            old(out).wf(),
            old(out).tail_pos + SEG_SIZE <= u64::MAX,
        ensures
            final(out).wf(),
            r.number() == old(out).tail_pos,
            final(out)@ == old(out)@.push(value),
            final(out).tail_pos == old(out).tail_pos + 1,
            final(out).head_pos == old(out).head_pos,
            final(out).not_empty.waiter == old(out).not_empty.waiter.woken(),
            final(out).strict_wake == old(out).strict_wake,
            final(out).grew(*old(out), seq![value]),
    {
        out.send(value)
    }

    /// Send a batch of messages to the peer; see [`Stream::send_iter`].
    pub fn send_iter(&self, out: &mut Stream<S>, items: Vec<S>) -> (r: Option<Receipt>)
        requires
            old(out).wf(),
            old(out).tail_pos + items@.len() + SEG_SIZE <= u64::MAX,
        ensures
            final(out).wf(),
            final(out)@ == old(out)@ + items@,
            final(out).tail_pos == old(out).tail_pos + items@.len(),
            final(out).head_pos == old(out).head_pos,
            final(out).strict_wake == old(out).strict_wake,
            match r {
                Some(receipt) => items@.len() > 0 && receipt.number() == final(out).tail_pos - 1,
                None => items@.len() == 0,
            },
            final(out).not_empty.waiter == (if items@.len() > 0 {
                old(out).not_empty.waiter.woken()
            } else {
                old(out).not_empty.waiter
            }),
            final(out).grew(*old(out), items@),
    {
        out.send_iter(items)
    }

    /// Messages sent to the peer so far.
    pub fn out_tail(&self, out: &Stream<S>) -> (n: u64)
        ensures
            n == out.tail_pos,
    {
        out.tail()
    }

    /// True iff the peer has received this message.
    pub fn is_delivered(&self, out: &Stream<S>, receipt: Receipt) -> (b: bool)
        ensures
            b == (out.head_pos > receipt.number()),
    {
        receipt.is_delivered(out)
    }

    /// One pass of a wait until the peer has received this message.
    pub fn wait_delivered(&self, out: &Stream<S>, receipt: Receipt) -> (r: Step<(), ()>)
        ensures
            r == (if out.head_pos > receipt.number() {
                Step::Done(())
            } else {
                Step::Wait(())
            }),
    {
        receipt.wait_delivered(out)
    }

    /// One pass of a wait until the peer has received `seq` messages.
    pub fn wait_for_out(&self, out: &Stream<S>, seq: u64) -> (r: Step<(), ()>)
        ensures
            r == (if out.head_pos >= seq {
                Step::Done(())
            } else {
                Step::Wait(())
            }),
    {
        out.wait_for(seq)
    }

    /// Take the oldest message from the peer, if there is one.
    pub fn try_recv(&self, inbox: &mut Stream<R>) -> (r: Option<R>)
        requires
            old(inbox).wf(),
        ensures
            final(inbox).wf(),
            old(inbox)@.len() == 0 ==> r is None && *final(inbox) == *old(inbox),
            old(inbox)@.len() > 0 ==> r == Some(old(inbox)@[0]) && final(inbox)@ == old(
                inbox,
            )@.drop_first() && final(inbox).head_pos == old(inbox).head_pos + 1,
            final(inbox).tail_pos == old(inbox).tail_pos,
            final(inbox).not_empty == old(inbox).not_empty,
            final(inbox).strict_wake == old(inbox).strict_wake,
            old(inbox)@.len() > 0 ==> final(inbox).shrank(*old(inbox), 1),
    {
        inbox.try_recv()
    }

    /// One pass of a blocking receive; see [`Stream::recv`].
    pub fn recv(&self, inbox: &mut Stream<R>) -> (r: Step<R, ()>)
        requires
            old(inbox).wf(),
        ensures
            final(inbox).wf(),
            old(inbox)@.len() == 0 ==> r == Step::<R, ()>::Wait(()) && *final(inbox) == *old(inbox),
            old(inbox)@.len() > 0 ==> r == Step::<R, ()>::Done(old(inbox)@[0]) && final(inbox)@
                == old(inbox)@.drop_first() && final(inbox).head_pos == old(inbox).head_pos + 1,
            final(inbox).tail_pos == old(inbox).tail_pos,
            final(inbox).not_empty == old(inbox).not_empty,
            final(inbox).strict_wake == old(inbox).strict_wake,
            old(inbox)@.len() > 0 ==> final(inbox).shrank(*old(inbox), 1),
    {
        inbox.recv()
    }

    /// Move up to `max` messages from the peer to the end of `buf`.
    pub fn recv_bulk(&self, inbox: &mut Stream<R>, buf: &mut Vec<R>, max: usize) -> (n: usize)
        requires
            old(inbox).wf(),
        ensures
            final(inbox).wf(),
            n == (if old(inbox)@.len() < max {
                old(inbox)@.len() as int
            } else {
                max as int
            }),
            final(buf)@ == old(buf)@ + old(inbox)@.take(n as int),
            final(inbox)@ == old(inbox)@.skip(n as int),
            final(inbox).head_pos == old(inbox).head_pos + n,
            final(inbox).tail_pos == old(inbox).tail_pos,
            final(inbox).not_empty == old(inbox).not_empty,
            final(inbox).strict_wake == old(inbox).strict_wake,
            final(inbox).shrank(*old(inbox), n as int),
    {
        inbox.recv_bulk(buf, max)
    }

    /// Register the thread that receives at this end.
    pub fn set_consumer(&self, inbox: &mut Stream<R>)
        ensures
            old(inbox).wf() ==> final(inbox).wf(),
            final(inbox)@ == old(inbox)@,
            final(inbox).not_empty.waiter == old(inbox).not_empty.waiter.bound(),
            final(inbox).tail_pos == old(inbox).tail_pos,
            final(inbox).head_pos == old(inbox).head_pos,
            final(inbox).segs == old(inbox).segs,
            final(inbox).strict_wake == old(inbox).strict_wake,
    {
        inbox.set_consumer();
    }

    /// Messages received from the peer so far.
    pub fn in_cursor(&self, inbox: &Stream<R>) -> (n: u64)
        ensures
            n == inbox.head_pos,
    {
        inbox.cursor()
    }

    /// Messages that the peer has sent so far.
    pub fn peer_tail(&self, inbox: &Stream<R>) -> (n: u64)
        ensures
            n == inbox.tail_pos,
    {
        inbox.tail()
    }
}

} // verus!
