//! Receiving.
use super::state::{Shutdown, Synapse};
use super::wake::{lemma_clear_keeps_range, lemma_set_keeps_range};
use crate::arith::forward;
use crate::bits::bit;
use crate::gate::signal::{locked, released, OwnedBool, Signal};
use crate::waiter::{BlockingWaiter, Step, WaitPhase};
use vstd::prelude::*;

verus! {

/// Where a blocked consumer stands.
#[derive(Debug, Clone, Copy, PartialEq, Eq)]
pub enum RecvPhase {
    /// The next attempt is due.
    Try,
    /// Nothing was there; the end of the transport has to be looked for.
    Check,
    /// The consumer's signal has to be closed.
    Lock,
    /// The consumer has to be advertised as idle.
    Advertise,
    /// The ring has to be looked at once more.
    Recheck,
    /// The end of the transport has to be looked for once more.
    RecheckEnd,
    /// There is something to do; the advertisement has to be withdrawn.
    Withdraw,
    /// The signal has to be opened again.
    Reopen,
    /// Waiting for the signal.
    Park(WaitPhase),
    /// Woken; the advertisement has to be withdrawn.
    Clear,
}

impl<T, const CAP: usize, const N: usize> Synapse<T, CAP, N> {
    /// This transport is `before` after an attempt to take an item: the oldest
    /// one is gone and the producer is woken.
    pub open spec fn claimed(&self, before: Self, r: Option<T>) -> bool {
        if before@.len() == 0 {
            &&& r is None
            &&& *self == before
        } else {
            &&& r == Some(before@[0])
            &&& self.buf.wf()
            &&& self@ == before@.drop_first()
            &&& self.buf.head() == before.buf.head()
            &&& self.buf.tail() == forward(before.buf.tail(), 1)
            &&& self.not_full == released(before.not_full)
            &&& self.shutdown == before.shutdown
            &&& self.idle_mask == before.idle_mask
            &&& self.signals == before.signals
        }
    }

    /// Take the oldest item without waiting.
    pub fn try_recv(&mut self) -> (r: Option<T>)
        requires
            old(self).wf(),
        ensures
            final(self).wf(),
            final(self).claimed(*old(self), r),
    {
        if self.buf.is_empty() {
            return None;
        }
        let value: T = self.buf.pop();
        self.not_full.release(&mut ());
        Some(value)
    }

    /// This transport is `before` except for the signal of consumer `i` and
    /// the idle bits.
    pub open spec fn signal_set_to(
        &self,
        before: Self,
        i: int,
        signal: Signal<OwnedBool>,
        idle_mask: u64,
    ) -> bool {
        &&& self.buf == before.buf
        &&& self.not_full == before.not_full
        &&& self.shutdown == before.shutdown
        &&& self.idle_mask == idle_mask
        &&& self.signals@ == before.signals@.update(i, signal)
    }

    /// What one operation of a blocking receive of consumer `i` at phase `at`
    /// does.
    pub open spec fn recv_step(
        &self,
        before: Self,
        i: int,
        at: RecvPhase,
        r: Step<Result<T, Shutdown>, RecvPhase>,
    ) -> bool {
        let signal = before.signals@[i];
        match at {
            RecvPhase::Try => if before@.len() > 0 {
                &&& r == Step::<Result<T, Shutdown>, RecvPhase>::Done(Ok(before@[0]))
                &&& self.claimed(before, Some(before@[0]))
            } else {
                &&& r == Step::<Result<T, Shutdown>, RecvPhase>::Wait(RecvPhase::Check)
                &&& *self == before
            },
            RecvPhase::Check => {
                &&& r == (if before.shutdown {
                    Step::Done(Err(Shutdown))
                } else {
                    Step::<Result<T, Shutdown>, RecvPhase>::Wait(RecvPhase::Lock)
                })
                &&& *self == before
            },
            RecvPhase::Lock => {
                &&& r == Step::<Result<T, Shutdown>, RecvPhase>::Wait(RecvPhase::Advertise)
                &&& self.signal_set_to(before, i, locked(signal), before.idle_mask)
            },
            RecvPhase::Advertise => {
                &&& r == Step::<Result<T, Shutdown>, RecvPhase>::Wait(RecvPhase::Recheck)
                &&& *self == (Synapse { idle_mask: before.idle_mask | bit(i), ..before })
            },
            RecvPhase::Recheck => {
                &&& r == Step::<Result<T, Shutdown>, RecvPhase>::Wait(
                    if before@.len() > 0 {
                        RecvPhase::Withdraw
                    } else {
                        RecvPhase::RecheckEnd
                    },
                )
                &&& *self == before
            },
            RecvPhase::RecheckEnd => {
                &&& r == Step::<Result<T, Shutdown>, RecvPhase>::Wait(
                    if before.shutdown {
                        RecvPhase::Withdraw
                    } else {
                        RecvPhase::Park(WaitPhase::Entry)
                    },
                )
                &&& *self == before
            },
            RecvPhase::Withdraw => {
                &&& r == Step::<Result<T, Shutdown>, RecvPhase>::Wait(RecvPhase::Reopen)
                &&& *self == (Synapse { idle_mask: before.idle_mask & !bit(i), ..before })
            },
            RecvPhase::Reopen => {
                &&& r == Step::<Result<T, Shutdown>, RecvPhase>::Wait(RecvPhase::Try)
                &&& self.signal_set_to(before, i, released(signal), before.idle_mask)
            },
            RecvPhase::Park(w) => {
                let (parker, next) = signal.parker.probed(w, !signal.source.locked);
                &&& r == Step::<Result<T, Shutdown>, RecvPhase>::Wait(
                    if next is Done {
                        RecvPhase::Clear
                    } else {
                        RecvPhase::Park(next)
                    },
                )
                &&& self.signal_set_to(
                    before,
                    i,
                    Signal { parker, source: signal.source },
                    before.idle_mask,
                )
            },
            RecvPhase::Clear => {
                &&& r == Step::<Result<T, Shutdown>, RecvPhase>::Wait(RecvPhase::Try)
                &&& *self == (Synapse { idle_mask: before.idle_mask & !bit(i), ..before })
            },
        }
    }

    /// One operation of a blocking receive of consumer `i`, which starts at
    /// [`RecvPhase::Try`]: done with an item, or with [`Shutdown`] when nothing
    /// was there and the transport has ended; otherwise with the next phase.
    /// Only a registered consumer can wait.
    pub fn recv(&mut self, i: usize, at: RecvPhase) -> (r: Step<Result<T, Shutdown>, RecvPhase>)
        requires
            old(self).wf(),
            i < N,
            at is Park ==> old(self).signals@[i as int].parker.registered || (at
                == RecvPhase::Park(WaitPhase::Entry)
                && !old(self).signals@[i as int].source.locked),
        ensures
            final(self).wf(),
            final(self).recv_step(*old(self), i as int, at, r),
    {
        let only: u64 = 1u64 << (i as u64);
        assert(only == bit(i as int));
        match at {
            RecvPhase::Try => match self.try_recv() {
                Some(v) => Step::Done(Ok(v)),
                None => Step::Wait(RecvPhase::Check),
            },
            RecvPhase::Check => {
                if self.shutdown {
                    Step::Done(Err(Shutdown))
                } else {
                    Step::Wait(RecvPhase::Lock)
                }
            },
            RecvPhase::Lock => {
                self.signals[i].lock(&mut ());
                assert(self.signals@[i as int] == locked(old(self).signals@[i as int]));
                Step::Wait(RecvPhase::Advertise)
            },
            RecvPhase::Advertise => {
                proof {
                    lemma_set_keeps_range(self.idle_mask, i as int, N as int);
                }
                self.idle_mask = self.idle_mask | only;
                Step::Wait(RecvPhase::Recheck)
            },
            RecvPhase::Recheck => {
                if self.is_empty() {
                    Step::Wait(RecvPhase::RecheckEnd)
                } else {
                    Step::Wait(RecvPhase::Withdraw)
                }
            },
            RecvPhase::RecheckEnd => {
                if self.shutdown {
                    Step::Wait(RecvPhase::Withdraw)
                } else {
                    Step::Wait(RecvPhase::Park(WaitPhase::Entry))
                }
            },
            RecvPhase::Withdraw => {
                proof {
                    lemma_clear_keeps_range(self.idle_mask, i as int, N as int);
                }
                self.idle_mask = self.idle_mask & !only;
                Step::Wait(RecvPhase::Reopen)
            },
            RecvPhase::Reopen => {
                self.signals[i].release(&mut ());
                assert(self.signals@[i as int] == released(old(self).signals@[i as int]));
                Step::Wait(RecvPhase::Try)
            },
            RecvPhase::Park(w) => {
                let next: WaitPhase = self.signals[i].acquire(&(), w);
                if matches!(next, WaitPhase::Done) {
                    Step::Wait(RecvPhase::Clear)
                } else {
                    Step::Wait(RecvPhase::Park(next))
                }
            },
            RecvPhase::Clear => {
                proof {
                    lemma_clear_keeps_range(self.idle_mask, i as int, N as int);
                }
                self.idle_mask = self.idle_mask & !only;
                Step::Wait(RecvPhase::Try)
            },
        }
    }
}

} // verus!
