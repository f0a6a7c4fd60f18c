//! Single-channel signal over a four-state byte.
//!
//! ```text
//!   Unparked --lock--> PendingPark --commit--> Parked
//!      ^                    |                    |
//!      |                    | release            | release, unpark
//!      |                    v                    v
//!      +---- consume ---- PendingUnpark <--------+
//! ```
//!
//! The consumer writes `Unparked`, `PendingPark` and `Parked`; producers write
//! `PendingUnpark`. A producer that finds the consumer awake has nothing to
//! do. A fresh signal starts out in `PendingPark`.
use crate::waiter::park::TIGHT_SPIN;
use vstd::prelude::*;

verus! {

/// Probes with a pause before the consumer commits to parking.
pub const SPIN_ITERS: u32 = 512;

/// The four states.
#[derive(Debug, Clone, Copy, PartialEq, Eq, Structural)]
pub enum ParkState {
    /// The consumer is awake.
    Unparked,
    /// The consumer will park if nothing happens.
    PendingPark,
    /// The consumer has committed to parking.
    Parked,
    /// A producer has signalled and the consumer has not consumed it yet.
    PendingUnpark,
}

/// Where a releasing producer stands. Each phase is one memory operation.
#[derive(Debug, Clone, Copy, PartialEq, Eq, Structural)]
pub enum ReleasePhase {
    /// Read the state.
    Load,
    /// Exchange the state seen, if it is still the same.
    Swap { seen: ParkState },
    Done,
}

/// Where an acquiring consumer stands. Each phase is one memory operation.
#[derive(Debug, Clone, Copy, PartialEq, Eq, Structural)]
pub enum AcquirePhase {
    /// Read the state.
    Check,
    /// Probe; `left` tight probes remain.
    Tight { left: u32 },
    /// Pause, then probe; `left` such probes remain.
    Pause { left: u32 },
    /// Exchange `PendingPark` for `Parked`.
    Commit,
    /// Park, then probe.
    Park,
    /// Consume the signal.
    Consume,
    Done,
}

/// A signal with its consumer.
#[derive(Debug, PartialEq, Eq, Structural)]
pub struct SignalStates {
    pub state: ParkState,
    /// The consumer has registered.
    pub registered: bool,
    /// An unpark has to be delivered to the consumer.
    pub owed: bool,
}

/// Phase of a producer after reading `state`.
pub open spec fn after_load(state: ParkState) -> ReleasePhase {
    match state {
        ParkState::Unparked | ParkState::PendingUnpark => ReleasePhase::Done,
        ParkState::PendingPark | ParkState::Parked => ReleasePhase::Swap { seen: state },
    }
}

/// Phase of a producer after phase `at`, with the signal in `state` before it.
pub open spec fn next_release(at: ReleasePhase, state: ParkState) -> ReleasePhase {
    match at {
        ReleasePhase::Load => after_load(state),
        ReleasePhase::Swap { seen } => if state == seen {
            ReleasePhase::Done
        } else {
            after_load(state)
        },
        ReleasePhase::Done => ReleasePhase::Done,
    }
}

/// Phase of the consumer after phase `at`, with the signal in `state` before
/// it.
pub open spec fn next_acquire(at: AcquirePhase, state: ParkState) -> AcquirePhase {
    match at {
        AcquirePhase::Check => match state {
            ParkState::PendingUnpark => AcquirePhase::Consume,
            ParkState::Unparked => AcquirePhase::Done,
            ParkState::PendingPark | ParkState::Parked => AcquirePhase::Tight { left: TIGHT_SPIN },
        },
        AcquirePhase::Tight { left } => if state is PendingUnpark {
            AcquirePhase::Consume
        } else if left > 1 {
            AcquirePhase::Tight { left: (left - 1) as u32 }
        } else {
            AcquirePhase::Pause { left: SPIN_ITERS }
        },
        AcquirePhase::Pause { left } => if state is PendingUnpark {
            AcquirePhase::Consume
        } else if left > 1 {
            AcquirePhase::Pause { left: (left - 1) as u32 }
        } else {
            AcquirePhase::Commit
        },
        AcquirePhase::Commit => match state {
            ParkState::PendingPark => AcquirePhase::Park,
            ParkState::PendingUnpark => AcquirePhase::Consume,
            ParkState::Unparked | ParkState::Parked => AcquirePhase::Check,
        },
        AcquirePhase::Park => if state is PendingUnpark {
            AcquirePhase::Consume
        } else {
            AcquirePhase::Park
        },
        AcquirePhase::Consume | AcquirePhase::Done => AcquirePhase::Done,
    }
}

impl Default for SignalStates {
    fn default() -> (s: Self)
        ensures
            s == (SignalStates { state: ParkState::PendingPark, registered: false, owed: false }),
    {
        Self::new()
    }
}

impl SignalStates {
    /// This signal after a producer's operation in phase `at`.
    pub open spec fn after_release_step(self, at: ReleasePhase) -> Self {
        match at {
            ReleasePhase::Swap { seen } => if self.state == seen {
                SignalStates {
                    state: ParkState::PendingUnpark,
                    owed: self.owed || (seen is Parked && self.registered),
                    ..self
                }
            } else {
                self
            },
            _ => self,
        }
    }

    /// This signal after the consumer's operation in phase `at`.
    pub open spec fn after_acquire(self, at: AcquirePhase) -> Self {
        match at {
            AcquirePhase::Commit => if self.state is PendingPark {
                SignalStates { state: ParkState::Parked, ..self }
            } else {
                self
            },
            AcquirePhase::Consume => SignalStates { state: ParkState::Unparked, ..self },
            _ => self,
        }
    }

    /// A signal in `PendingPark`.
    pub fn new() -> (s: Self)
        ensures
            s == (SignalStates { state: ParkState::PendingPark, registered: false, owed: false }),
    {
        SignalStates { state: ParkState::PendingPark, registered: false, owed: false }
    }

    /// Register the consumer.
    pub fn set_worker(&mut self)
        ensures
            *final(self) == (SignalStates { registered: true, ..*old(self) }),
    {
        self.registered = true;
    }

    /// One operation of a producer that signals work. A producer starts at
    /// [`ReleasePhase::Load`]; when its exchange fails it goes on with the
    /// state it found instead.
    pub fn release_step(&mut self, at: ReleasePhase) -> (next: ReleasePhase)
        ensures
            next == next_release(at, old(self).state),
            *final(self) == old(self).after_release_step(at),
    {
        match at {
            ReleasePhase::Load => Self::plan(self.state),
            ReleasePhase::Swap { seen } => {
                if self.state == seen {
                    self.state = ParkState::PendingUnpark;
                    if seen == ParkState::Parked && self.registered {
                        self.owed = true;
                    }
                    ReleasePhase::Done
                } else {
                    Self::plan(self.state)
                }
            },
            ReleasePhase::Done => ReleasePhase::Done,
        }
    }

    /// What a producer does about the state it has seen.
    fn plan(state: ParkState) -> (next: ReleasePhase)
        ensures
            next == after_load(state),
    {
        match state {
            ParkState::Unparked | ParkState::PendingUnpark => ReleasePhase::Done,
            ParkState::PendingPark | ParkState::Parked => ReleasePhase::Swap { seen: state },
        }
    }

    /// Signal work, undisturbed by others: an awake consumer needs nothing, a
    /// consumer that may park is told not to, a parked one is unparked.
    pub fn release(&mut self)
        ensures
            *final(self) == (match old(self).state {
                ParkState::Unparked | ParkState::PendingUnpark => *old(self),
                ParkState::PendingPark => SignalStates {
                    state: ParkState::PendingUnpark,
                    ..*old(self)
                },
                ParkState::Parked => SignalStates {
                    state: ParkState::PendingUnpark,
                    owed: old(self).owed || old(self).registered,
                    ..*old(self)
                },
            }),
    {
        let first: ReleasePhase = self.release_step(ReleasePhase::Load);
        let _ = self.release_step(first);
    }

    /// One operation of the consumer that waits for a signal, which starts at
    /// [`AcquirePhase::Check`]. An awake consumer returns at once.
    pub fn acquire(&mut self, at: AcquirePhase) -> (next: AcquirePhase)
        ensures
            next == next_acquire(at, old(self).state),
            *final(self) == old(self).after_acquire(at),
    {
        let signalled: bool = self.is_open();
        match at {
            AcquirePhase::Check => match self.state {
                ParkState::PendingUnpark => AcquirePhase::Consume,
                ParkState::Unparked => AcquirePhase::Done,
                ParkState::PendingPark | ParkState::Parked => AcquirePhase::Tight {
                    left: TIGHT_SPIN,
                },
            },
            AcquirePhase::Tight { left } => if signalled {
                AcquirePhase::Consume
            } else if left > 1 {
                AcquirePhase::Tight { left: left - 1 }
            } else {
                AcquirePhase::Pause { left: SPIN_ITERS }
            },
            AcquirePhase::Pause { left } => if signalled {
                AcquirePhase::Consume
            } else if left > 1 {
                AcquirePhase::Pause { left: left - 1 }
            } else {
                AcquirePhase::Commit
            },
            AcquirePhase::Commit => match self.state {
                ParkState::PendingPark => {
                    self.state = ParkState::Parked;
                    AcquirePhase::Park
                },
                ParkState::PendingUnpark => AcquirePhase::Consume,
                ParkState::Unparked | ParkState::Parked => AcquirePhase::Check,
            },
            AcquirePhase::Park => if signalled {
                AcquirePhase::Consume
            } else {
                AcquirePhase::Park
            },
            AcquirePhase::Consume => {
                self.state = ParkState::Unparked;
                AcquirePhase::Done
            },
            AcquirePhase::Done => AcquirePhase::Done,
        }
    }

    /// The consumer is done with its work: it will park unless a signal is
    /// pending.
    pub fn lock(&mut self)
        ensures
            *final(self) == (if old(self).state is Unparked {
                SignalStates { state: ParkState::PendingPark, ..*old(self) }
            } else {
                *old(self)
            }),
    {
        if self.state == ParkState::Unparked {
            self.state = ParkState::PendingPark;
        }
    }

    /// True iff a producer has signalled and the consumer has not consumed it
    /// yet.
    pub fn is_open(&self) -> (b: bool)
        ensures
            b == (self.state is PendingUnpark),
    {
        self.state == ParkState::PendingUnpark
    }

    /// Collect the unpark that is owed to the consumer.
    pub fn settle(&mut self) -> (b: bool)
        ensures
            b == old(self).owed,
            *final(self) == (SignalStates { owed: false, ..*old(self) }),
    {
        let owed: bool = self.owed;
        self.owed = false;
        owed
    }
}

/// The consumer, any number of producers, and the consumer's `park` token.
pub struct StatesWorld {
    pub signal: SignalStates,
    pub at: AcquirePhase,
    /// The consumer is inside `park`, or about to call it.
    pub asleep: bool,
    pub token: bool,
    pub producers: Seq<ReleasePhase>,
    /// Times the consumer has committed to parking.
    pub parks: nat,
    /// Unparks issued by producers.
    pub unparks: nat,
}

/// The consumer takes the next operation of its wait.
pub open spec fn states_consumer_step(s: StatesWorld, t: StatesWorld) -> bool {
    let next = next_acquire(s.at, s.signal.state);
    &&& !s.asleep
    &&& !(s.at is Done)
    &&& t == (StatesWorld {
        signal: s.signal.after_acquire(s.at),
        at: next,
        asleep: next is Park,
        parks: if s.at is Commit && next is Park {
            s.parks + 1
        } else {
            s.parks
        },
        ..s
    })
}

/// A `park` returns, because of the token or spuriously.
pub open spec fn states_park_returns(s: StatesWorld, t: StatesWorld) -> bool {
    s.asleep && t == (StatesWorld { asleep: false, token: false, ..s })
}

/// A finished consumer locks the signal and waits again.
pub open spec fn states_waits_again(s: StatesWorld, t: StatesWorld) -> bool {
    &&& s.at is Done
    &&& t == (StatesWorld {
        signal: if s.signal.state is Unparked {
            SignalStates { state: ParkState::PendingPark, ..s.signal }
        } else {
            s.signal
        },
        at: AcquirePhase::Check,
        ..s
    })
}

/// Producer `i` takes the next operation of its release, or starts one.
pub open spec fn states_producer_step(s: StatesWorld, t: StatesWorld, i: int) -> bool {
    &&& 0 <= i < s.producers.len()
    &&& t == (StatesWorld {
        signal: s.signal.after_release_step(s.producers[i]),
        producers: s.producers.update(
            i,
            if s.producers[i] is Done {
                ReleasePhase::Load
            } else {
                next_release(s.producers[i], s.signal.state)
            },
        ),
        unparks: if s.producers[i] == (ReleasePhase::Swap { seen: ParkState::Parked })
            && s.signal.state is Parked {
            s.unparks + 1
        } else {
            s.unparks
        },
        ..s
    })
}

/// The runtime unparks the consumer.
pub open spec fn states_unpark_delivered(s: StatesWorld, t: StatesWorld) -> bool {
    s.signal.owed && t == (StatesWorld {
        signal: SignalStates { owed: false, ..s.signal },
        token: true,
        ..s
    })
}

/// One step of any of the parties.
pub open spec fn states_step(s: StatesWorld, t: StatesWorld) -> bool {
    ||| states_consumer_step(s, t)
    ||| states_park_returns(s, t)
    ||| states_waits_again(s, t)
    ||| states_unpark_delivered(s, t)
    ||| exists|i: int| #[trigger] states_producer_step(s, t, i)
}

/// A registered consumer starts to wait on a fresh signal.
pub open spec fn states_init(s: StatesWorld) -> bool {
    &&& s.signal == (SignalStates { state: ParkState::PendingPark, registered: true, owed: false })
    &&& s.at is Check
    &&& !s.asleep
    &&& s.parks == 0
    &&& s.unparks == 0
    &&& forall|i: int| 0 <= i < s.producers.len() ==> (#[trigger] s.producers[i]) is Done
}

/// Step `i` of an execution.
pub open spec fn states_step_at(trace: Seq<StatesWorld>, i: int) -> bool {
    states_step(trace[i], trace[i + 1])
}

/// An execution from an initial state.
pub open spec fn states_execution(trace: Seq<StatesWorld>) -> bool {
    &&& trace.len() > 0
    &&& states_init(trace[0])
    &&& forall|i: int| 0 <= i < trace.len() - 1 ==> #[trigger] states_step_at(trace, i)
}

spec fn states_inv(s: StatesWorld) -> bool {
    &&& s.signal.registered
    &&& s.asleep ==> s.at is Park
    &&& s.at is Park ==> s.signal.state is Parked || s.signal.state is PendingUnpark
    &&& s.signal.state is Parked ==> s.at is Park
    &&& s.at is Consume ==> s.signal.state is PendingUnpark
    &&& s.asleep && s.signal.state is PendingUnpark ==> s.token || s.signal.owed
    &&& s.unparks <= s.parks
    &&& s.signal.state is Parked ==> s.unparks < s.parks
}

proof fn lemma_states_inv(trace: Seq<StatesWorld>, n: int)
    requires
        states_execution(trace),
        0 <= n < trace.len(),
    ensures
        states_inv(trace[n]),
    decreases n,
{
    if n > 0 {
        lemma_states_inv(trace, n - 1);
        assert(states_step_at(trace, n - 1));
        let s = trace[n - 1];
        let t = trace[n];
        if exists|i: int| #[trigger] states_producer_step(s, t, i) {
            let i = choose|i: int| #[trigger] states_producer_step(s, t, i);
            assert(states_inv(t));
        }
    }
}

/// No signal is lost: in no state of any execution is the consumer asleep
/// while a signal is pending, unless its token is set or an unpark is owed.
pub proof fn states_lose_no_signal(trace: Seq<StatesWorld>, n: int)
    requires
        states_execution(trace),
        0 <= n < trace.len(),
        trace[n].asleep,
        trace[n].signal.state is PendingUnpark,
    ensures
        trace[n].token || trace[n].signal.owed,
{
    lemma_states_inv(trace, n);
}

/// Racing producers do not unpark twice: there are never more unparks than
/// times the consumer has committed to parking.
pub proof fn one_unpark_per_park(trace: Seq<StatesWorld>, n: int)
    requires
        states_execution(trace),
        0 <= n < trace.len(),
    ensures
        trace[n].unparks <= trace[n].parks,
{
    lemma_states_inv(trace, n);
}

/// Each party keeps to its own states: a producer only ever writes
/// `PendingUnpark`, the consumer never does.
pub proof fn each_side_writes_its_states(s: SignalStates, by: ReleasePhase, at: AcquirePhase)
    ensures
        s.after_release_step(by).state == s.state || s.after_release_step(by).state is PendingUnpark,
        s.after_acquire(at).state == s.state || !(s.after_acquire(at).state is PendingUnpark),
{
}

} // verus!
