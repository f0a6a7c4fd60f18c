//! The state that the producer and the consumers share.
use crate::arith::is_pow2;
use crate::bits::{bit_set, lemma_has_zero};
use crate::gate::signal::{OwnedBool, Signal};
use crate::ring_buf::RingBuf;
use crate::waiter::{ParkWaiter, Waiter};
use vstd::prelude::*;

verus! {

/// The transport has ended and nothing is left to take.
#[derive(Debug, Clone, Copy, PartialEq, Eq, Structural)]
pub struct Shutdown;

/// A ring of `CAP` slots, a power of two, with `N` consumers, at most as many
/// as a word has bits.
pub struct Synapse<T, const CAP: usize, const N: usize> {
    /// The items in flight.
    pub buf: RingBuf<T, CAP>,
    /// Open when there may be room.
    pub not_full: Signal<OwnedBool>,
    pub shutdown: bool,
    /// Bit `i` is set while consumer `i` is asleep or about to be.
    pub idle_mask: u64,
    /// Signal `i` wakes consumer `i`.
    pub signals: Vec<Signal<OwnedBool>>,
}

impl<T, const CAP: usize, const N: usize> View for Synapse<T, CAP, N> {
    type V = Seq<T>;

    /// The items in flight, oldest first.
    open spec fn view(&self) -> Seq<T> {
        self.buf@
    }
}

impl<T, const CAP: usize, const N: usize> Synapse<T, CAP, N> {
    /// Validity: every idle bit belongs to a consumer.
    pub open spec fn wf(&self) -> bool {
        &&& self.buf.wf()
        &&& 0 < N <= 64
        &&& self.signals@.len() == N
        &&& forall|k: int| N <= k < 64 ==> !#[trigger] bit_set(self.idle_mask, k)
    }

    /// An empty ring with all consumers unregistered.
    pub fn new() -> (s: Self)
        requires
            is_pow2(CAP as int),
            0 < N <= 64,
        ensures
            s.wf(),
            s@ == Seq::<T>::empty(),
            !s.not_full.source.locked,
            s.not_full.parker == ParkWaiter::initial(),
            !s.shutdown,
            s.idle_mask == 0,
            forall|i: int|
                0 <= i < N ==> (#[trigger] s.signals@[i]).source.locked && s.signals@[i].parker
                    == ParkWaiter::initial(),
    {
        let mut signals: Vec<Signal<OwnedBool>> = Vec::new();
        let mut i: usize = 0;
        while i < N
            invariant
                i <= N,
                signals@.len() == i,
                forall|j: int|
                    0 <= j < i ==> (#[trigger] signals@[j]).source.locked && signals@[j].parker
                        == ParkWaiter::initial(),
            decreases N - i,
        {
            signals.push(Signal::new());
            i = i + 1;
        }
        let mut not_full: Signal<OwnedBool> = Signal::new();
        not_full.release(&mut ());
        proof {
            assert forall|k: int| N <= k < 64 implies !#[trigger] bit_set(0, k) by {
                lemma_has_zero(k);
            }
        }
        Synapse { buf: RingBuf::new(), not_full, shutdown: false, idle_mask: 0, signals }
    }

    /// Most items that can be in flight.
    pub fn capacity(&self) -> (n: usize)
        ensures
            n == CAP,
    {
        CAP
    }

    /// Number of consumers.
    pub fn consumers(&self) -> (n: usize)
        ensures
            n == N,
    {
        N
    }

    /// Items in flight.
    pub fn len(&self) -> (n: usize)
        requires
            self.wf(),
        ensures
            n == self@.len(),
    {
        self.buf.len()
    }

    /// True iff nothing is in flight.
    pub fn is_empty(&self) -> (b: bool)
        requires
            self.wf(),
        ensures
            b == (self@.len() == 0),
    {
        self.len() == 0
    }

    /// True iff there is no room.
    pub fn is_full(&self) -> (b: bool)
        requires
            self.wf(),
        ensures
            b == (self@.len() == CAP),
    {
        self.len() >= CAP
    }

    /// Register the producer.
    pub fn set_producer(&mut self)
        requires
            old(self).wf(),
        ensures
            final(self).wf(),
            *final(self) == (Synapse {
                not_full: Signal {
                    parker: old(self).not_full.parker.bound(),
                    ..old(self).not_full
                },
                ..*old(self)
            }),
    {
        self.not_full.set_worker();
    }

    /// Register consumer `i`.
    pub fn bind_consumer(&mut self, i: usize)
        requires
            old(self).wf(),
            i < N,
        ensures
            final(self).wf(),
            final(self).signals@ == old(self).signals@.update(
                i as int,
                Signal {
                    parker: old(self).signals@[i as int].parker.bound(),
                    ..old(self).signals@[i as int]
                },
            ),
            final(self).buf == old(self).buf,
            final(self).not_full == old(self).not_full,
            final(self).shutdown == old(self).shutdown,
            final(self).idle_mask == old(self).idle_mask,
    {
        self.signals[i].set_worker();
    }
}

} // verus!
