//! Sending.
use super::state::Synapse;
use crate::arith::forward;
use crate::gate::signal::{locked, released};
use crate::waiter::{BlockingWaiter, Step, WaitPhase};
use vstd::prelude::*;

verus! {

/// Where a blocked producer stands.
#[derive(Debug, Clone, Copy, PartialEq, Eq)]
pub enum SendPhase {
    /// The next attempt is due.
    Try,
    /// The ring was full; its signal has to be closed.
    Lock,
    /// The ring has to be looked at once more.
    Recheck,
    /// There is room after all; the signal has to be opened again.
    Reopen,
    /// Waiting for the signal.
    Park(WaitPhase),
}

impl<T, const CAP: usize, const N: usize> Synapse<T, CAP, N> {
    /// This transport is `before` with `value` behind the items in flight.
    pub open spec fn published(&self, before: Self, value: T) -> bool {
        &&& self.buf.wf()
        &&& self@ == before@.push(value)
        &&& self.buf.head() == forward(before.buf.head(), 1)
        &&& self.buf.tail() == before.buf.tail()
        &&& self.not_full == before.not_full
        &&& self.shutdown == before.shutdown
        &&& self.idle_mask == before.idle_mask
        &&& self.signals == before.signals
    }

    /// This transport is `before` after `value` was sent: it is published,
    /// and then one idle consumer is woken.
    pub open spec fn sent(&self, before: Self, value: T) -> bool {
        exists|middle: Self| #[trigger]
            middle.published(before, value) && self.one_woken(middle)
    }

    /// Send without waiting. The value comes back iff there is no room.
    pub fn try_send(&mut self, value: T) -> (r: Result<(), T>)
        requires
            old(self).wf(),
        ensures
            final(self).wf(),
            r == (if old(self)@.len() < CAP {
                Ok(())
            } else {
                Err(value)
            }),
            r is Ok ==> final(self).sent(*old(self), value) && final(self)@ == old(self)@.push(
                value,
            ),
            r is Err ==> *final(self) == *old(self),
    {
        if self.buf.len() >= CAP {
            return Err(value);
        }
        self.buf.push(value);
        let ghost middle = *self;
        assert(middle.published(*old(self), value));
        self.wake_consumers();
        Ok(())
    }

    /// What one operation of a blocking send at phase `at` does.
    pub open spec fn send_step(
        &self,
        before: Self,
        value: T,
        at: SendPhase,
        r: Step<(), (T, SendPhase)>,
    ) -> bool {
        let full = before@.len() >= CAP;
        match at {
            SendPhase::Try => {
                &&& r == (if full {
                    Step::Wait((value, SendPhase::Lock))
                } else {
                    Step::Done(())
                })
                &&& full ==> *self == before
                &&& !full ==> self.sent(before, value) && self@ == before@.push(value)
            },
            SendPhase::Lock => {
                &&& r == Step::<(), (T, SendPhase)>::Wait((value, SendPhase::Recheck))
                &&& *self == (Synapse { not_full: locked(before.not_full), ..before })
            },
            SendPhase::Recheck => {
                &&& r == Step::<(), (T, SendPhase)>::Wait(
                    (
                        value,
                        if full {
                            SendPhase::Park(WaitPhase::Entry)
                        } else {
                            SendPhase::Reopen
                        },
                    ),
                )
                &&& *self == before
            },
            SendPhase::Reopen => {
                &&& r == Step::<(), (T, SendPhase)>::Wait((value, SendPhase::Try))
                &&& *self == (Synapse { not_full: released(before.not_full), ..before })
            },
            SendPhase::Park(w) => {
                let (parker, next) = before.not_full.parker.probed(
                    w,
                    !before.not_full.source.locked,
                );
                &&& r == Step::<(), (T, SendPhase)>::Wait(
                    (
                        value,
                        if next is Done {
                            SendPhase::Try
                        } else {
                            SendPhase::Park(next)
                        },
                    ),
                )
                &&& self.not_full.parker == parker
                &&& self.not_full.source == before.not_full.source
                &&& *self == (Synapse { not_full: self.not_full, ..before })
            },
        }
    }

    /// One operation of a blocking send, which starts at [`SendPhase::Try`]:
    /// done when the value is accepted; otherwise it comes back with the next
    /// phase. Only a registered producer can wait.
    pub fn send(&mut self, value: T, at: SendPhase) -> (r: Step<(), (T, SendPhase)>)
        requires
            old(self).wf(),
            at is Park ==> old(self).not_full.parker.registered || (at == SendPhase::Park(
                WaitPhase::Entry,
            ) && !old(self).not_full.source.locked),
        ensures
            final(self).wf(),
            final(self).send_step(*old(self), value, at, r),
    {
        match at {
            SendPhase::Try => match self.try_send(value) {
                Ok(_) => Step::Done(()),
                Err(v) => Step::Wait((v, SendPhase::Lock)),
            },
            SendPhase::Lock => {
                self.not_full.lock(&mut ());
                Step::Wait((value, SendPhase::Recheck))
            },
            SendPhase::Recheck => {
                if self.is_full() {
                    Step::Wait((value, SendPhase::Park(WaitPhase::Entry)))
                } else {
                    Step::Wait((value, SendPhase::Reopen))
                }
            },
            SendPhase::Reopen => {
                self.not_full.release(&mut ());
                Step::Wait((value, SendPhase::Try))
            },
            SendPhase::Park(w) => {
                let next: WaitPhase = self.not_full.acquire(&(), w);
                if matches!(next, WaitPhase::Done) {
                    Step::Wait((value, SendPhase::Try))
                } else {
                    Step::Wait((value, SendPhase::Park(next)))
                }
            },
        }
    }
}

} // verus!
