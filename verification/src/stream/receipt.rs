//! Proof of sending, good for asking whether the message has been delivered.
use super::stream::Stream;
use crate::waiter::Step;
use vstd::prelude::*;

verus! {

/// Sequence number of a message, or of the last message of a batch.
#[derive(Debug, Clone, Copy, PartialEq, Eq, Structural)]
pub struct Receipt(u64);

impl Receipt {
    /// The sequence number.
    pub closed spec fn number(self) -> u64 {
        self.0
    }

    /// The receipt of message `seq`.
    pub(crate) fn new(seq: u64) -> (r: Self)
        ensures
            r.number() == seq,
    {
        Receipt(seq)
    }

    /// The sequence number.
    pub fn seq(&self) -> (s: u64)
        ensures
            s == self.number(),
    {
        self.0
    }

    /// True iff the consumer has taken this message.
    pub fn is_delivered<T>(&self, stream: &Stream<T>) -> (b: bool)
        ensures
            b == (stream.head_pos > self.number()),
    {
        stream.cursor() > self.0
    }

    /// One pass of a wait for the delivery of this message.
    pub fn wait_delivered<T>(&self, stream: &Stream<T>) -> (r: Step<(), ()>)
        ensures
            r == (if stream.head_pos > self.number() {
                Step::Done(())
            } else {
                Step::Wait(())
            }),
    {
        if self.0 == u64::MAX {
            return Step::Wait(());
        }
        stream.wait_for(self.0 + 1)
    }
}

} // verus!
