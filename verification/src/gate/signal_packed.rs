//! Single-channel signal with both flags in one byte.
//!
//! Bit 0 says that the signal is open, bit 1 that the consumer parks. A
//! producer opens and looks for a parked consumer in one read-modify-write; a
//! consumer announces that it parks and looks for an open signal in one
//! read-modify-write. Whichever of the two comes second sees the first.
use crate::waiter::park::TIGHT_SPIN;
use vstd::prelude::*;

verus! {

/// Default number of probes with a pause before parking.
pub const DEFAULT_SPIN_ITERS_PACKED: u32 = 512;

/// The signal is open.
pub const OPEN: u8 = 1;

/// The consumer parks.
pub const PARKED: u8 = 2;

/// Where a waiting consumer stands. Each phase is one memory operation.
#[derive(Debug, Clone, Copy, PartialEq, Eq, Structural)]
pub enum PackedPhase {
    /// Probe: nothing has been tried yet.
    Entry,
    /// Probe; `left` tight probes remain.
    Tight { left: u32 },
    /// Pause, then probe; `left` such probes remain.
    Pause { left: u32 },
    /// Set the parked flag and see what was there before.
    Commit,
    /// Park, then probe.
    Park,
    /// Clear the parked flag.
    Leave,
    /// The signal was seen open.
    Done,
}

/// A signal whose two flags share one byte.
#[derive(Debug, PartialEq, Eq, Structural)]
pub struct SignalPacked {
    pub state: u8,
    pub spin_iters: u32,
    /// The consumer has registered.
    pub registered: bool,
    /// An unpark has to be delivered to the consumer.
    pub owed: bool,
}

/// Phase after `at`, where the signal is found `open`.
pub open spec fn next_packed(spin_iters: u32, at: PackedPhase, open: bool) -> PackedPhase {
    match at {
        PackedPhase::Entry => if open {
            PackedPhase::Done
        } else {
            PackedPhase::Tight { left: TIGHT_SPIN }
        },
        PackedPhase::Tight { left } => if open {
            PackedPhase::Done
        } else if left > 1 {
            PackedPhase::Tight { left: (left - 1) as u32 }
        } else if spin_iters > 0 {
            PackedPhase::Pause { left: spin_iters }
        } else {
            PackedPhase::Commit
        },
        PackedPhase::Pause { left } => if open {
            PackedPhase::Done
        } else if left > 1 {
            PackedPhase::Pause { left: (left - 1) as u32 }
        } else {
            PackedPhase::Commit
        },
        PackedPhase::Commit | PackedPhase::Park => if open {
            PackedPhase::Leave
        } else {
            PackedPhase::Park
        },
        PackedPhase::Leave | PackedPhase::Done => PackedPhase::Done,
    }
}

/// Setting and clearing either flag leaves the other alone.
proof fn lemma_flags(s: u8)
    requires
        s < 4,
    ensures
        s | OPEN < 4,
        (s | OPEN) & OPEN != 0,
        (s | OPEN) & PARKED == s & PARKED,
        s & !OPEN < 4,
        (s & !OPEN) & OPEN == 0,
        (s & !OPEN) & PARKED == s & PARKED,
        s | PARKED < 4,
        (s | PARKED) & PARKED != 0,
        (s | PARKED) & OPEN == s & OPEN,
        s & !PARKED < 4,
        (s & !PARKED) & PARKED == 0,
        (s & !PARKED) & OPEN == s & OPEN,
{
    assert(s < 4 ==> (s | 1u8) < 4 && (s | 1u8) & 1u8 != 0 && (s | 1u8) & 2u8 == s & 2u8 && (s
        & !1u8) < 4 && (s & !1u8) & 1u8 == 0 && (s & !1u8) & 2u8 == s & 2u8 && (s | 2u8) < 4 && (s
        | 2u8) & 2u8 != 0 && (s | 2u8) & 1u8 == s & 1u8 && (s & !2u8) < 4 && (s & !2u8) & 2u8 == 0
        && (s & !2u8) & 1u8 == s & 1u8) by (bit_vector);
}

impl Default for SignalPacked {
    fn default() -> (s: Self)
        ensures
            s == (SignalPacked {
                state: 0,
                spin_iters: DEFAULT_SPIN_ITERS_PACKED,
                registered: false,
                owed: false,
            }),
    {
        Self::new()
    }
}

impl SignalPacked {
    /// Validity: no bit beyond the two flags is set.
    pub open spec fn wf(self) -> bool {
        self.state < 4
    }

    /// The signal is open.
    pub open spec fn opened(self) -> bool {
        self.state & OPEN != 0
    }

    /// The consumer has set its parked flag.
    pub open spec fn parked(self) -> bool {
        self.state & PARKED != 0
    }

    /// This signal after a release.
    pub open spec fn after_release(self) -> Self {
        SignalPacked {
            state: self.state | OPEN,
            owed: self.owed || (self.parked() && self.registered),
            ..self
        }
    }

    /// This signal after the consumer's operation in phase `at`.
    pub open spec fn after_acquire(self, at: PackedPhase) -> Self {
        match at {
            PackedPhase::Commit => SignalPacked { state: self.state | PARKED, ..self },
            PackedPhase::Leave => SignalPacked { state: self.state & !PARKED, ..self },
            _ => self,
        }
    }

    /// A closed signal with the default spin budget.
    pub fn new() -> (s: Self)
        ensures
            s == (SignalPacked {
                state: 0,
                spin_iters: DEFAULT_SPIN_ITERS_PACKED,
                registered: false,
                owed: false,
            }),
    {
        Self::with_spin(DEFAULT_SPIN_ITERS_PACKED)
    }

    /// A closed signal with its own spin budget; 0 parks right after the
    /// tight probes.
    pub fn with_spin(spin_iters: u32) -> (s: Self)
        ensures
            s == (SignalPacked { state: 0, spin_iters, registered: false, owed: false }),
            s.wf(),
            !s.opened(),
            !s.parked(),
    {
        proof {
            assert(0u8 & 1u8 == 0 && 0u8 & 2u8 == 0) by (bit_vector);
        }
        SignalPacked { state: 0, spin_iters, registered: false, owed: false }
    }

    /// Register the consumer.
    pub fn set_worker(&mut self)
        ensures
            *final(self) == (SignalPacked { registered: true, ..*old(self) }),
    {
        self.registered = true;
    }

    /// Open the signal; a consumer that has set its parked flag is unparked.
    pub fn release(&mut self)
        requires
            old(self).wf(),
        ensures
            final(self).wf(),
            *final(self) == old(self).after_release(),
            final(self).opened(),
            final(self).parked() == old(self).parked(),
    {
        proof {
            lemma_flags(self.state);
        }
        let prev: u8 = self.state;
        self.state = prev | OPEN;
        if prev & PARKED != 0 && self.registered {
            self.owed = true;
        }
    }

    /// Close the signal.
    pub fn lock(&mut self)
        requires
            old(self).wf(),
        ensures
            final(self).wf(),
            *final(self) == (SignalPacked { state: old(self).state & !OPEN, ..*old(self) }),
            !final(self).opened(),
            final(self).parked() == old(self).parked(),
    {
        proof {
            lemma_flags(self.state);
        }
        self.state = self.state & !OPEN;
    }

    /// True iff the signal was released since it was last locked.
    pub fn is_open(&self) -> (b: bool)
        ensures
            b == self.opened(),
    {
        self.state & OPEN != 0
    }

    /// One operation of the consumer's wait for the signal to open, which
    /// starts at [`PackedPhase::Entry`]. The wait leaves the signal open.
    pub fn acquire(&mut self, at: PackedPhase) -> (next: PackedPhase)
        requires
            old(self).wf(),
        ensures
            final(self).wf(),
            next == next_packed(old(self).spin_iters, at, old(self).opened()),
            *final(self) == old(self).after_acquire(at),
            final(self).opened() == old(self).opened(),
    {
        proof {
            lemma_flags(self.state);
        }
        let open: bool = self.is_open();
        match at {
            PackedPhase::Entry => if open {
                PackedPhase::Done
            } else {
                PackedPhase::Tight { left: TIGHT_SPIN }
            },
            PackedPhase::Tight { left } => if open {
                PackedPhase::Done
            } else if left > 1 {
                PackedPhase::Tight { left: left - 1 }
            } else if self.spin_iters > 0 {
                PackedPhase::Pause { left: self.spin_iters }
            } else {
                PackedPhase::Commit
            },
            PackedPhase::Pause { left } => if open {
                PackedPhase::Done
            } else if left > 1 {
                PackedPhase::Pause { left: left - 1 }
            } else {
                PackedPhase::Commit
            },
            PackedPhase::Commit => {
                self.state = self.state | PARKED;
                if open {
                    PackedPhase::Leave
                } else {
                    PackedPhase::Park
                }
            },
            PackedPhase::Park => if open {
                PackedPhase::Leave
            } else {
                PackedPhase::Park
            },
            PackedPhase::Leave => {
                self.state = self.state & !PARKED;
                PackedPhase::Done
            },
            PackedPhase::Done => PackedPhase::Done,
        }
    }

    /// Collect the unpark that is owed to the consumer.
    pub fn settle(&mut self) -> (b: bool)
        ensures
            b == old(self).owed,
            *final(self) == (SignalPacked { owed: false, ..*old(self) }),
    {
        let owed: bool = self.owed;
        self.owed = false;
        owed
    }
}

/// The consumer, the signal and the consumer's `park` token.
pub struct PackedWorld {
    pub signal: SignalPacked,
    pub at: PackedPhase,
    /// The consumer is inside `park`, or about to call it.
    pub asleep: bool,
    pub token: bool,
}

/// One step of the consumer, of a producer, or of the runtime.
pub open spec fn packed_step(s: PackedWorld, t: PackedWorld) -> bool {
    let next = next_packed(s.signal.spin_iters, s.at, s.signal.opened());
    // The consumer takes the next operation of its wait.
    ||| {
        &&& !s.asleep
        &&& !(s.at is Done)
        &&& t == (PackedWorld {
            signal: s.signal.after_acquire(s.at),
            at: next,
            asleep: next is Park,
            ..s
        })
    }
    // A `park` returns, because of the token or spuriously.
    ||| s.asleep && t == (PackedWorld { asleep: false, token: false, ..s })
    // A finished consumer may lock the signal, and waits again.
    ||| s.at is Done && t == (PackedWorld {
        signal: SignalPacked { state: s.signal.state & !OPEN, ..s.signal },
        at: PackedPhase::Entry,
        ..s
    })
    ||| s.at is Done && t == (PackedWorld { at: PackedPhase::Entry, ..s })
    // A producer releases.
    ||| t == (PackedWorld { signal: s.signal.after_release(), ..s })
    // The runtime unparks the consumer.
    ||| s.signal.owed && t == (PackedWorld {
        signal: SignalPacked { owed: false, ..s.signal },
        token: true,
        ..s
    })
}

/// A registered consumer starts to wait for a closed signal.
pub open spec fn packed_init(s: PackedWorld) -> bool {
    &&& s.signal.wf()
    &&& s.signal.registered
    &&& !s.signal.parked()
    &&& s.at is Entry
    &&& !s.asleep
}

/// Step `i` of an execution.
pub open spec fn packed_step_at(trace: Seq<PackedWorld>, i: int) -> bool {
    packed_step(trace[i], trace[i + 1])
}

/// An execution from an initial state.
pub open spec fn packed_execution(trace: Seq<PackedWorld>) -> bool {
    &&& trace.len() > 0
    &&& packed_init(trace[0])
    &&& forall|i: int| 0 <= i < trace.len() - 1 ==> #[trigger] packed_step_at(trace, i)
}

spec fn packed_inv(s: PackedWorld) -> bool {
    &&& s.signal.wf()
    &&& s.signal.registered
    &&& s.signal.parked() == (s.at is Park || s.at is Leave)
    &&& s.asleep ==> s.at is Park
    &&& s.asleep && s.signal.opened() ==> s.token || s.signal.owed
}

proof fn lemma_packed_inv(trace: Seq<PackedWorld>, n: int)
    requires
        packed_execution(trace),
        0 <= n < trace.len(),
    ensures
        packed_inv(trace[n]),
    decreases n,
{
    if n > 0 {
        lemma_packed_inv(trace, n - 1);
        assert(packed_step_at(trace, n - 1));
        lemma_flags(trace[n - 1].signal.state);
    }
}

/// No release is lost: in no state of any execution is the consumer asleep
/// while the signal is open, unless its token is set or an unpark is owed.
pub proof fn packed_loses_no_release(trace: Seq<PackedWorld>, n: int)
    requires
        packed_execution(trace),
        0 <= n < trace.len(),
        trace[n].asleep,
        trace[n].signal.opened(),
    ensures
        trace[n].token || trace[n].signal.owed,
{
    lemma_packed_inv(trace, n);
}

} // verus!
