//! Batching in front of a [`Stream`].
use super::receipt::Receipt;
use super::segment::SEG_SIZE;
use super::stream::Stream;
use crate::waiter::Waiter;
use vstd::prelude::*;

verus! {

/// Collects messages and appends them to a stream in batches of `threshold`.
pub struct BufferedSender<T> {
    /// Messages collected and not yet appended.
    pub buf: Vec<T>,
    pub threshold: usize,
    /// Receipt of the last batch.
    pub last_receipt: Option<Receipt>,
}

impl<T> BufferedSender<T> {
    /// Validity: fewer messages are collected than make a batch.
    pub open spec fn wf(&self) -> bool {
        self.buf@.len() < self.threshold
    }

    /// A sender with nothing collected. The threshold is not 0.
    pub fn new(threshold: usize) -> (b: Self)
        requires
            threshold > 0,
        ensures
            b.wf(),
            b.buf@ == Seq::<T>::empty(),
            b.threshold == threshold,
            b.last_receipt is None,
    {
        BufferedSender { buf: Vec::new(), threshold, last_receipt: None }
    }

    /// Collect one message; the one that completes a batch has the batch
    /// appended to the stream.
    pub fn send(&mut self, stream: &mut Stream<T>, value: T)
        requires
            old(self).wf(),
            old(stream).wf(),
            old(stream).tail_pos + old(self).buf@.len() + 1 + SEG_SIZE <= u64::MAX,
        ensures
            final(self).wf(),
            final(stream).wf(),
            final(self).threshold == old(self).threshold,
            final(stream).head_pos == old(stream).head_pos,
            final(stream).strict_wake == old(stream).strict_wake,
            old(self).buf@.len() + 1 < old(self).threshold ==> {
                &&& final(self).buf@ == old(self).buf@.push(value)
                &&& final(self).last_receipt == old(self).last_receipt
                &&& *final(stream) == *old(stream)
            },
            old(self).buf@.len() + 1 == old(self).threshold ==> {
                &&& final(self).buf@ == Seq::<T>::empty()
                &&& final(stream).grew(*old(stream), old(self).buf@.push(value))
                &&& final(stream).not_empty.waiter == old(stream).not_empty.waiter.woken()
                &&& final(self).last_receipt is Some
                &&& final(self).last_receipt->0.number() == final(stream).tail_pos - 1
            },
            final(stream)@ + final(self).buf@ == (old(stream)@ + old(self).buf@).push(value),
    {
        self.buf.push(value);
        if self.buf.len() >= self.threshold {
            let _ = self.flush(stream);
        }
        assert(stream@ + self.buf@ =~= (old(stream)@ + old(self).buf@).push(value));
    }

    /// Append everything collected to the stream. Returns the receipt of the
    /// last message appended so far by this sender.
    pub fn flush(&mut self, stream: &mut Stream<T>) -> (r: Option<Receipt>)
        requires
            old(self).threshold > 0,
            old(stream).wf(),
            old(stream).tail_pos + old(self).buf@.len() + SEG_SIZE <= u64::MAX,
        ensures
            final(self).wf(),
            final(stream).wf(),
            final(self).buf@ == Seq::<T>::empty(),
            final(self).threshold == old(self).threshold,
            final(self).last_receipt == r,
            final(stream)@ == old(stream)@ + old(self).buf@,
            final(stream).tail_pos == old(stream).tail_pos + old(self).buf@.len(),
            final(stream).head_pos == old(stream).head_pos,
            final(stream).strict_wake == old(stream).strict_wake,
            old(self).buf@.len() == 0 ==> r == old(self).last_receipt && *final(stream) == *old(
                stream,
            ),
            old(self).buf@.len() > 0 ==> r is Some && r->0.number() == final(stream).tail_pos - 1
                && final(stream).not_empty.waiter == old(stream).not_empty.waiter.woken(),
            final(stream).grew(*old(stream), old(self).buf@),
    {
        if self.buf.is_empty() {
            assert(stream@ =~= stream@ + self.buf@);
            return self.last_receipt;
        }
        let mut batch: Vec<T> = Vec::new();
        std::mem::swap(&mut batch, &mut self.buf);
        let r: Option<Receipt> = stream.send_iter(batch);
        if r.is_some() {
            self.last_receipt = r;
        }
        r
    }

    /// Messages collected and not yet appended.
    pub fn pending(&self) -> (n: usize)
        ensures
            n == self.buf@.len(),
    {
        self.buf.len()
    }

    /// Size of a batch.
    pub fn threshold(&self) -> (n: usize)
        ensures
            n == self.threshold,
    {
        self.threshold
    }

    /// Receipt of the last batch.
    pub fn last_receipt(&self) -> (r: Option<Receipt>)
        ensures
            r == self.last_receipt,
    {
        self.last_receipt
    }

    /// Finish: whatever is still collected is appended to the stream.
    pub fn close(self, stream: &mut Stream<T>)
        requires
            self.wf(),
            old(stream).wf(),
            old(stream).tail_pos + self.buf@.len() + SEG_SIZE <= u64::MAX,
        ensures
            final(stream).wf(),
            final(stream)@ == old(stream)@ + self.buf@,
            final(stream).tail_pos == old(stream).tail_pos + self.buf@.len(),
            final(stream).head_pos == old(stream).head_pos,
            final(stream).strict_wake == old(stream).strict_wake,
            final(stream).not_empty.waiter == (if self.buf@.len() > 0 {
                old(stream).not_empty.waiter.woken()
            } else {
                old(stream).not_empty.waiter
            }),
            self.buf@.len() == 0 ==> *final(stream) == *old(stream),
            final(stream).grew(*old(stream), self.buf@),
    {
        let mut rest: Self = self;
        let _ = rest.flush(stream);
    }
}

impl<T> Stream<T> {
    /// A batching sender for this stream. The threshold is not 0.
    pub fn buffered(&self, threshold: usize) -> (b: BufferedSender<T>)
        requires
            threshold > 0,
        ensures
            b.wf(),
            b.buf@ == Seq::<T>::empty(),
            b.threshold == threshold,
            b.last_receipt is None,
    {
        BufferedSender::new(threshold)
    }
}

} // verus!
