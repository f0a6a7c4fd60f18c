//! Unbounded log between one producer and one consumer.
//!
//! Messages are numbered from 0 in the order in which they are sent and
//! received in that order. The producer never waits: it appends a segment
//! when the last one is full. The consumer drops a segment when it has read
//! past it, and its position says which messages have been delivered.
use super::receipt::Receipt;
use super::segment::{Segment, SEG_SIZE};
use crate::gate::lifeline::{Cancelled, Lifeline, WaiterId};
use crate::gate::park::Park;
use crate::waiter::{ParkWaiter, Step, Waiter};
use vstd::prelude::*;

verus! {

/// Unbounded log.
pub struct Stream<T> {
    /// Where the consumer waits while there is nothing to read.
    pub not_empty: Park,
    /// Messages sent so far.
    pub tail_pos: u64,
    /// Messages received so far.
    pub head_pos: u64,
    /// Live segments, oldest first. The consumer reads the first one, the
    /// producer writes the last one.
    pub segs: Vec<Segment<T>>,
    /// Sends are ordered before the wake by a full fence.
    pub strict_wake: bool,
}

impl<T> View for Stream<T> {
    type V = Seq<T>;

    /// The messages sent and not yet received, oldest first.
    open spec fn view(&self) -> Seq<T> {
        Seq::new((self.tail_pos - self.head_pos) as nat, |i: int| self.cell(self.head_pos + i)->0)
    }
}

impl<T> Default for Stream<T> {
    fn default() -> (s: Self)
        ensures
            s.wf(),
            s@ == Seq::<T>::empty(),
            s.tail_pos == 0,
            s.head_pos == 0,
            !s.strict_wake,
            s.not_empty.waiter == ParkWaiter::initial(),
    {
        Self::new()
    }
}

impl<T> Stream<T> {
    /// Number of the first slot that is still there.
    pub open spec fn base(&self) -> int {
        self.segs@[0].base_seq as int
    }

    /// Number of the first slot that is not there yet.
    pub open spec fn end(&self) -> int {
        self.base() + SEG_SIZE * self.segs@.len()
    }

    /// Slot of message `p`.
    pub open spec fn cell(&self, p: int) -> Option<T> {
        self.segs@[(p - self.base()) / SEG_SIZE as int].slots@[(p - self.base()) % SEG_SIZE as int]
    }

    /// The segments are numbered without a gap.
    pub open spec fn chained(&self) -> bool {
        &&& self.segs@.len() >= 1
        &&& self.base() % SEG_SIZE as int == 0
        &&& self.end() <= u64::MAX
        &&& forall|i: int|
            #![trigger self.segs@[i]]
            0 <= i < self.segs@.len() ==> self.segs@[i].wf() && self.segs@[i].base_seq
                == self.base() + SEG_SIZE * i
    }

    /// Validity: the consumer is in the first segment, the producer in the
    /// last, and exactly the slots between them are full.
    pub open spec fn wf(&self) -> bool {
        &&& self.chained()
        &&& self.base() <= self.head_pos <= self.base() + SEG_SIZE
        &&& self.head_pos <= self.tail_pos
        &&& self.end() - SEG_SIZE <= self.tail_pos <= self.end()
        &&& forall|p: int|
            self.head_pos <= p < self.tail_pos ==> (#[trigger] self.cell(p)) is Some
        &&& forall|p: int|
            self.base() <= p < self.end() && !(self.head_pos <= p < self.tail_pos) ==> (
            #[trigger] self.cell(p)) is None
    }

    /// This log is `before` with `messages` appended.
    pub open spec fn grew(&self, before: Self, messages: Seq<T>) -> bool {
        &&& self@ == before@ + messages
        &&& self.tail_pos == before.tail_pos + messages.len()
        &&& self.head_pos == before.head_pos
    }

    /// This log is `before` with the `n` oldest messages received.
    pub open spec fn shrank(&self, before: Self, n: int) -> bool {
        &&& 0 <= n <= before@.len()
        &&& self@ == before@.skip(n)
        &&& self.head_pos == before.head_pos + n
        &&& self.tail_pos == before.tail_pos
    }

    /// An empty log.
    pub fn new() -> (s: Self)
        ensures
            s.wf(),
            s@ == Seq::<T>::empty(),
            s.tail_pos == 0,
            s.head_pos == 0,
            !s.strict_wake,
            s.not_empty.waiter == ParkWaiter::initial(),
    {
        Self::new_inner(false)
    }

    /// An empty log whose sends are ordered before the wake by a full fence,
    /// for a thread that sends here and receives elsewhere.
    pub fn new_strict() -> (s: Self)
        ensures
            s.wf(),
            s@ == Seq::<T>::empty(),
            s.tail_pos == 0,
            s.head_pos == 0,
            s.strict_wake,
            s.not_empty.waiter == ParkWaiter::initial(),
    {
        Self::new_inner(true)
    }

    fn new_inner(strict_wake: bool) -> (s: Self)
        ensures
            s.wf(),
            s@ == Seq::<T>::empty(),
            s.tail_pos == 0,
            s.head_pos == 0,
            s.strict_wake == strict_wake,
            s.not_empty.waiter == ParkWaiter::initial(),
    {
        let mut segs: Vec<Segment<T>> = Vec::new();
        segs.push(Segment::new(0));
        let s: Stream<T> = Stream {
            not_empty: Park::new(),
            tail_pos: 0,
            head_pos: 0,
            segs,
            strict_wake,
        };
        assert(s@ =~= Seq::<T>::empty());
        s
    }

    /// Register the consumer.
    pub fn set_consumer(&mut self)
        ensures
            old(self).wf() ==> final(self).wf(),
            final(self)@ == old(self)@,
            final(self).not_empty.waiter == old(self).not_empty.waiter.bound(),
            final(self).tail_pos == old(self).tail_pos,
            final(self).head_pos == old(self).head_pos,
            final(self).segs == old(self).segs,
            final(self).strict_wake == old(self).strict_wake,
    {
        self.not_empty.set_worker();
        assert(forall|p: int| #[trigger] self.cell(p) == old(self).cell(p));
        assert(self@ =~= old(self)@);
    }

    /// Messages sent so far.
    pub fn tail(&self) -> (n: u64)
        ensures
            n == self.tail_pos,
    {
        self.tail_pos
    }

    /// Messages received so far.
    pub fn cursor(&self) -> (n: u64)
        ensures
            n == self.head_pos,
    {
        self.head_pos
    }

    /// Messages sent and not yet received.
    pub fn len(&self) -> (n: u64)
        requires
            self.wf(),
        ensures
            n == self@.len(),
    {
        self.tail_pos.saturating_sub(self.head_pos)
    }

    /// True iff every message sent has been received.
    pub fn is_empty(&self) -> (b: bool)
        requires
            self.wf(),
        ensures
            b == (self@.len() == 0),
    {
        self.head_pos >= self.tail_pos
    }

    /// One pass of a wait until `seq` messages have been received.
    pub fn wait_for(&self, seq: u64) -> (r: Step<(), ()>)
        ensures
            r == (if self.head_pos >= seq {
                Step::Done(())
            } else {
                Step::Wait(())
            }),
    {
        if self.cursor() < seq {
            Step::Wait(())
        } else {
            Step::Done(())
        }
    }

    /// Append a segment if the last one has no slot for the next message.
    fn locate_or_alloc_seg(&mut self)
        requires
            old(self).wf(),
            old(self).tail_pos + SEG_SIZE <= u64::MAX,
        ensures
            final(self).wf(),
            final(self)@ == old(self)@,
            final(self).tail_pos < final(self).end(),
            final(self).tail_pos == old(self).tail_pos,
            final(self).head_pos == old(self).head_pos,
            final(self).not_empty == old(self).not_empty,
            final(self).strict_wake == old(self).strict_wake,
    {
        let last: usize = self.segs.len() - 1;
        if !self.segs[last].contains(self.tail_pos) {
            self.alloc_next_seg();
        }
    }

    /// Append a segment after the last one.
    fn alloc_next_seg(&mut self)
        requires
            old(self).wf(),
            old(self).tail_pos == old(self).end(),
            old(self).tail_pos + SEG_SIZE <= u64::MAX,
        ensures
            final(self).wf(),
            final(self)@ == old(self)@,
            final(self).end() == old(self).end() + SEG_SIZE,
            final(self).tail_pos == old(self).tail_pos,
            final(self).head_pos == old(self).head_pos,
            final(self).not_empty == old(self).not_empty,
            final(self).strict_wake == old(self).strict_wake,
    {
        let last: usize = self.segs.len() - 1;
        let new_base: u64 = self.segs[last].base_seq + SEG_SIZE as u64;
        self.segs.push(Segment::new(new_base));
        proof {
            assert(self.base() == old(self).base());
            assert forall|p: int| old(self).base() <= p < old(self).end() implies (
            #[trigger] self.cell(p)) == old(self).cell(p) by {
                assert((p - self.base()) / SEG_SIZE as int <= last);
            }
            assert forall|p: int| old(self).end() <= p < self.end() implies (#[trigger] self.cell(
                p,
            )) is None by {
                assert((p - self.base()) / SEG_SIZE as int == last + 1);
            }
            assert(self@ =~= old(self)@);
        }
    }

    /// Write the next message into its slot.
    fn write_next(&mut self, value: T)
        requires
            old(self).wf(),
            old(self).tail_pos < old(self).end(),
        ensures
            final(self).wf(),
            final(self)@ == old(self)@.push(value),
            final(self).tail_pos == old(self).tail_pos + 1,
            final(self).end() == old(self).end(),
            final(self).head_pos == old(self).head_pos,
            final(self).not_empty == old(self).not_empty,
            final(self).strict_wake == old(self).strict_wake,
    {
        let seq: u64 = self.tail_pos;
        let last: usize = self.segs.len() - 1;
        let idx: usize = self.segs[last].idx(seq);
        self.segs[last].slots[idx] = Some(value);
        self.tail_pos = seq + 1;
        proof {
            let b = self.base();
            assert(b == old(self).base());
            assert forall|p: int| b <= p < self.end() && p != seq implies (#[trigger] self.cell(p))
                == old(self).cell(p) by {
                let i = (p - b) / SEG_SIZE as int;
                let k = (p - b) % SEG_SIZE as int;
                assert(p - b == SEG_SIZE * i + k);
                if i == last {
                    assert(k != idx);
                }
            }
            assert((seq - b) / SEG_SIZE as int == last);
            assert((seq - b) % SEG_SIZE as int == idx);
            assert(self.cell(seq as int) == Some(value));
            assert(self@ =~= old(self)@.push(value));
        }
    }

    /// Append one message and wake the consumer. Never waits.
    pub fn send(&mut self, value: T) -> (r: Receipt)
        requires
            old(self).wf(),
            old(self).tail_pos + SEG_SIZE <= u64::MAX,
        ensures
            final(self).wf(),
            r.number() == old(self).tail_pos,
            final(self)@ == old(self)@.push(value),
            final(self).tail_pos == old(self).tail_pos + 1,
            final(self).head_pos == old(self).head_pos,
            final(self).not_empty.waiter == old(self).not_empty.waiter.woken(),
            final(self).strict_wake == old(self).strict_wake,
            final(self).grew(*old(self), seq![value]),
    {
        let seq: u64 = self.tail_pos;
        self.locate_or_alloc_seg();
        self.write_next(value);
        let ghost sent = *self;
        self.not_empty.wake();
        assert(forall|p: int| #[trigger] self.cell(p) == sent.cell(p));
        assert(self@ =~= sent@);
        assert(self@ =~= old(self)@ + seq![value]);
        Receipt::new(seq)
    }

    /// Append a batch of messages in order; one wake serves them all. Returns
    /// the receipt of the last one, or `None` for an empty batch.
    pub fn send_iter(&mut self, items: Vec<T>) -> (r: Option<Receipt>)
        requires
            old(self).wf(),
            old(self).tail_pos + items@.len() + SEG_SIZE <= u64::MAX,
        ensures
            final(self).wf(),
            final(self)@ == old(self)@ + items@,
            final(self).tail_pos == old(self).tail_pos + items@.len(),
            final(self).head_pos == old(self).head_pos,
            final(self).strict_wake == old(self).strict_wake,
            match r {
                Some(receipt) => items@.len() > 0 && receipt.number() == final(self).tail_pos - 1,
                None => items@.len() == 0,
            },
            final(self).not_empty.waiter == (if items@.len() > 0 {
                old(self).not_empty.waiter.woken()
            } else {
                old(self).not_empty.waiter
            }),
            final(self).grew(*old(self), items@),
    {
        let start_seq: u64 = self.tail_pos;
        let ghost all = items@;
        assert(self@ =~= old(self)@ + all.take(0));
        for value in it: items
            invariant
                self.wf(),
                it.seq() == all,
                old(self).tail_pos + all.len() + SEG_SIZE <= u64::MAX,
                self@ == old(self)@ + all.take(it.index() as int),
                self.tail_pos == old(self).tail_pos + it.index(),
                self.head_pos == old(self).head_pos,
                self.not_empty == old(self).not_empty,
                self.strict_wake == old(self).strict_wake,
        {
            self.locate_or_alloc_seg();
            self.write_next(value);
            assert(all.take(it.index() as int + 1) =~= all.take(it.index() as int).push(value));
        }
        assert(all.take(all.len() as int) =~= all);
        if self.tail_pos == start_seq {
            return None;
        }
        let ghost sent = *self;
        self.not_empty.wake();
        assert(forall|p: int| #[trigger] self.cell(p) == sent.cell(p));
        assert(self@ =~= sent@);
        Some(Receipt::new(self.tail_pos - 1))
    }

    /// Drop the first segment, which the consumer has read to its end.
    fn advance_seg(&mut self)
        requires
            old(self).wf(),
            old(self).head_pos == old(self).base() + SEG_SIZE,
            old(self).head_pos < old(self).tail_pos,
        ensures
            final(self).wf(),
            final(self)@ == old(self)@,
            final(self).base() == old(self).base() + SEG_SIZE,
            final(self).tail_pos == old(self).tail_pos,
            final(self).head_pos == old(self).head_pos,
            final(self).not_empty == old(self).not_empty,
            final(self).strict_wake == old(self).strict_wake,
    {
        let _ = self.segs.remove(0);
        proof {
            assert forall|i: int| 0 <= i < self.segs@.len() implies (#[trigger] self.segs@[i])
                == old(self).segs@[i + 1] by {}
            assert(self.base() == old(self).base() + SEG_SIZE);
            assert forall|p: int| self.base() <= p < self.end() implies (#[trigger] self.cell(p))
                == old(self).cell(p) by {
                assert((p - old(self).base()) / SEG_SIZE as int == (p - self.base())
                    / SEG_SIZE as int + 1);
                assert((p - old(self).base()) % SEG_SIZE as int == (p - self.base())
                    % SEG_SIZE as int);
            }
            assert(self@ =~= old(self)@);
        }
    }

    /// Take the oldest message, if there is one.
    pub fn try_recv(&mut self) -> (r: Option<T>)
        requires
            old(self).wf(),
        ensures
            final(self).wf(),
            old(self)@.len() == 0 ==> r is None && *final(self) == *old(self),
            old(self)@.len() > 0 ==> r == Some(old(self)@[0]) && final(self)@ == old(
                self,
            )@.drop_first() && final(self).head_pos == old(self).head_pos + 1,
            final(self).tail_pos == old(self).tail_pos,
            final(self).not_empty == old(self).not_empty,
            final(self).strict_wake == old(self).strict_wake,
            old(self)@.len() > 0 ==> final(self).shrank(*old(self), 1),
    {
        let head: u64 = self.head_pos;
        if head >= self.tail_pos {
            return None;
        }
        if !self.segs[0].contains(head) {
            self.advance_seg();
        }
        let idx: usize = self.segs[0].idx(head);
        let ghost before = *self;
        let mut slot: Option<T> = None;
        assert(self.cell(head as int) is Some);
        std::mem::swap(&mut self.segs[0].slots[idx], &mut slot);
        self.head_pos = head + 1;
        proof {
            let b = self.base();
            assert(b == before.base());
            assert forall|p: int| b <= p < self.end() && p != head implies (#[trigger] self.cell(p))
                == before.cell(p) by {
                let i = (p - b) / SEG_SIZE as int;
                let k = (p - b) % SEG_SIZE as int;
                assert(p - b == SEG_SIZE * i + k);
            }
            assert(self.cell(head as int) is None);
            assert(slot == before.cell(head as int));
            assert(self@ =~= before@.drop_first());
        }
        slot
    }

    /// One pass of a blocking receive: done with a message, otherwise the next
    /// pass is due when the log is not empty.
    pub fn recv(&mut self) -> (r: Step<T, ()>)
        requires
            old(self).wf(),
        ensures
            final(self).wf(),
            old(self)@.len() == 0 ==> r == Step::<T, ()>::Wait(()) && *final(self) == *old(self),
            old(self)@.len() > 0 ==> r == Step::<T, ()>::Done(old(self)@[0]) && final(self)@ == old(
                self,
            )@.drop_first() && final(self).head_pos == old(self).head_pos + 1,
            final(self).tail_pos == old(self).tail_pos,
            final(self).not_empty == old(self).not_empty,
            final(self).strict_wake == old(self).strict_wake,
            old(self)@.len() > 0 ==> final(self).shrank(*old(self), 1),
    {
        match self.try_recv() {
            Some(v) => Step::Done(v),
            None => Step::Wait(()),
        }
    }

    /// One pass of a blocking receive that a lifeline can end. A message wins
    /// over a cancellation; without either, the next pass is due when the log
    /// is not empty or the waiter is cancelled.
    pub fn recv_or_cancel(&mut self, life: &Lifeline, id: WaiterId) -> (r: Step<
        Result<T, Cancelled>,
        (),
    >)
        requires
            old(self).wf(),
        ensures
            final(self).wf(),
            old(self)@.len() == 0 ==> *final(self) == *old(self) && r == (if life.cancelled(
                id.idx(),
            ) {
                Step::Done(Err(Cancelled))
            } else {
                Step::<Result<T, Cancelled>, ()>::Wait(())
            }),
            old(self)@.len() > 0 ==> r == Step::<Result<T, Cancelled>, ()>::Done(Ok(old(self)@[0]))
                && final(self)@ == old(self)@.drop_first() && final(self).head_pos == old(
                self,
            ).head_pos + 1,
            final(self).tail_pos == old(self).tail_pos,
            final(self).not_empty == old(self).not_empty,
            final(self).strict_wake == old(self).strict_wake,
            old(self)@.len() > 0 ==> final(self).shrank(*old(self), 1),
    {
        match self.try_recv() {
            Some(v) => Step::Done(Ok(v)),
            None => if life.is_cancelled(id) {
                Step::Done(Err(Cancelled))
            } else {
                Step::Wait(())
            },
        }
    }

    /// Move up to `max` messages to the end of `buf`, oldest first. Returns
    /// how many were moved.
    pub fn recv_bulk(&mut self, buf: &mut Vec<T>, max: usize) -> (n: usize)
        requires
            old(self).wf(),
        ensures
            final(self).wf(),
            n == (if old(self)@.len() < max {
                old(self)@.len() as int
            } else {
                max as int
            }),
            final(buf)@ == old(buf)@ + old(self)@.take(n as int),
            final(self)@ == old(self)@.skip(n as int),
            final(self).head_pos == old(self).head_pos + n,
            final(self).tail_pos == old(self).tail_pos,
            final(self).not_empty == old(self).not_empty,
            final(self).strict_wake == old(self).strict_wake,
            final(self).shrank(*old(self), n as int),
    {
        let ghost all = self@;
        let mut drained: usize = 0;
        assert(buf@ =~= old(buf)@ + all.take(0));
        assert(self@ =~= all.skip(0));
        while drained < max
            invariant
                self.wf(),
                all == old(self)@,
                drained <= max,
                drained <= all.len(),
                buf@ == old(buf)@ + all.take(drained as int),
                self@ == all.skip(drained as int),
                self.head_pos == old(self).head_pos + drained,
                self.tail_pos == old(self).tail_pos,
                self.not_empty == old(self).not_empty,
                self.strict_wake == old(self).strict_wake,
            ensures
                drained == max || drained == all.len(),
            decreases max - drained,
        {
            match self.try_recv() {
                Some(v) => {
                    buf.push(v);
                    drained = drained + 1;
                    assert(all.take(drained as int) =~= all.take(drained - 1).push(v));
                    assert(self@ =~= all.skip(drained as int));
                    assert(buf@ =~= old(buf)@ + all.take(drained as int));
                },
                None => {
                    break;
                },
            }
        }
        drained
    }
}

} // verus!
