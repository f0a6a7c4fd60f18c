//! No wake is lost.
//!
//! One party waits, any number of wakers publish changes and wake it, and
//! their steps interleave in any order. The memory operations of both sides
//! are taken as steps of one total order, which the sequentially consistent
//! fences of the two protocols provide. Under every such interleaving a party
//! whose condition holds is never left asleep: some waker is still on its way
//! to wake it, a delivery is owed, or the delivery has already arrived.
use super::{AsyncWaiter, AwaitPhase, BlockingWaiter, NotifyWaiter, ParkWaiter, WaitPhase, Waiter};
use super::notify::future_alive;
use super::park::announced;
use vstd::prelude::*;

verus! {

/// Where a waker stands. It publishes a change, probes for a waiting party,
/// and if that fast probe finds none, probes once more behind a fence.
pub enum WakerAt {
    /// Not waking.
    Idle,
    /// The change is published; the fast probe comes next.
    Published,
    /// The fast probe found nobody; the second probe comes next.
    Missed,
}

/// A waker is between publishing a change and the end of its wake.
pub open spec fn in_flight(wakers: Seq<WakerAt>) -> bool {
    exists|i: int| 0 <= i < wakers.len() && !((#[trigger] wakers[i]) is Idle)
}

/// One thread that waits, its wakers, and its `park` token.
pub struct ParkWorld {
    pub waiter: ParkWaiter,
    /// Phase of the waiting thread.
    pub at: WaitPhase,
    /// The thread is inside `park`, or about to call it.
    pub asleep: bool,
    /// The thread's token, which makes a `park` return.
    pub token: bool,
    /// The awaited condition.
    pub holds: bool,
    pub wakers: Seq<WakerAt>,
}

/// The thread takes the next step of its wait.
pub open spec fn thread_probes(s: ParkWorld, t: ParkWorld) -> bool {
    let (w, next) = s.waiter.probed(s.at, s.holds);
    &&& !s.asleep
    &&& !(s.at is Done)
    &&& t == (ParkWorld { waiter: w, at: next, asleep: next is Park, ..s })
}

/// A `park` returns, because of the token or spuriously.
pub open spec fn park_returns(s: ParkWorld, t: ParkWorld) -> bool {
    &&& s.asleep
    &&& t == (ParkWorld { asleep: false, token: false, ..s })
}

/// A finished thread uses up what it waited for and waits again.
pub open spec fn thread_waits_again(s: ParkWorld, t: ParkWorld) -> bool {
    &&& s.at is Done
    &&& t == (ParkWorld { at: WaitPhase::Entry, holds: t.holds, ..s })
}

/// Waker `i` publishes a change that makes the condition true.
pub open spec fn thread_waker_publishes(s: ParkWorld, t: ParkWorld, i: int) -> bool {
    &&& 0 <= i < s.wakers.len()
    &&& s.wakers[i] is Idle
    &&& t == (ParkWorld { holds: true, wakers: s.wakers.update(i, WakerAt::Published), ..s })
}

/// Waker `i` probes for a parked thread.
pub open spec fn thread_waker_probes(s: ParkWorld, t: ParkWorld, i: int) -> bool {
    &&& 0 <= i < s.wakers.len()
    &&& !(s.wakers[i] is Idle)
    &&& t == (ParkWorld {
        waiter: s.waiter.woken(),
        wakers: s.wakers.update(
            i,
            if s.wakers[i] is Published && !s.waiter.parked {
                WakerAt::Missed
            } else {
                WakerAt::Idle
            },
        ),
        ..s
    })
}

/// The runtime unparks the thread.
pub open spec fn unpark_delivered(s: ParkWorld, t: ParkWorld) -> bool {
    &&& s.waiter.owed()
    &&& t == (ParkWorld { waiter: s.waiter.settled(), token: true, ..s })
}

/// One step of any of the parties.
pub open spec fn park_step(s: ParkWorld, t: ParkWorld) -> bool {
    ||| thread_probes(s, t)
    ||| park_returns(s, t)
    ||| thread_waits_again(s, t)
    ||| unpark_delivered(s, t)
    ||| exists|i: int| #[trigger] thread_waker_publishes(s, t, i)
    ||| exists|i: int| #[trigger] thread_waker_probes(s, t, i)
}

/// A registered thread starts to wait and no waker is active.
pub open spec fn park_init(s: ParkWorld) -> bool {
    &&& s.waiter.registered
    &&& !s.waiter.parked
    &&& s.at is Entry
    &&& !s.asleep
    &&& forall|i: int| 0 <= i < s.wakers.len() ==> (#[trigger] s.wakers[i]) is Idle
}

/// The condition holds, and nothing is left that would end the sleep.
pub open spec fn park_stuck(s: ParkWorld) -> bool {
    &&& s.asleep
    &&& s.holds
    &&& !s.token
    &&& !s.waiter.owed
    &&& !in_flight(s.wakers)
}

/// Step `i` of an execution.
pub open spec fn park_step_at(trace: Seq<ParkWorld>, i: int) -> bool {
    park_step(trace[i], trace[i + 1])
}

/// An execution from an initial state.
pub open spec fn park_execution(trace: Seq<ParkWorld>) -> bool {
    &&& trace.len() > 0
    &&& park_init(trace[0])
    &&& forall|i: int| 0 <= i < trace.len() - 1 ==> #[trigger] park_step_at(trace, i)
}

spec fn park_inv(s: ParkWorld) -> bool {
    &&& s.waiter.registered
    &&& s.waiter.parked == announced(s.at)
    &&& s.asleep ==> s.at is Park
    &&& !park_stuck(s)
}

proof fn lemma_park_inv_step(s: ParkWorld, t: ParkWorld)
    requires
        park_inv(s),
        park_step(s, t),
    ensures
        park_inv(t),
{
    if exists|i: int| #[trigger] thread_waker_publishes(s, t, i) {
        let i = choose|i: int| #[trigger] thread_waker_publishes(s, t, i);
        assert(t.wakers[i] is Published);
    } else if exists|i: int| #[trigger] thread_waker_probes(s, t, i) {
        let i = choose|i: int| #[trigger] thread_waker_probes(s, t, i);
        if park_stuck(t) {
            assert(t.waiter.owed);
        }
    } else if thread_probes(s, t) {
    } else if unpark_delivered(s, t) {
    } else if park_returns(s, t) {
    } else {
        assert(thread_waits_again(s, t));
    }
}

proof fn lemma_park_inv(trace: Seq<ParkWorld>, n: int)
    requires
        park_execution(trace),
        0 <= n < trace.len(),
    ensures
        park_inv(trace[n]),
    decreases n,
{
    if n > 0 {
        lemma_park_inv(trace, n - 1);
        assert(park_step_at(trace, n - 1));
        lemma_park_inv_step(trace[n - 1], trace[n]);
    }
}

/// No wake of a parked thread is lost: in no state of any execution is the
/// thread asleep while its condition holds, unless its token is set, an
/// unpark is owed, or a waker is still at work.
pub proof fn park_loses_no_wake(trace: Seq<ParkWorld>, n: int)
    requires
        park_execution(trace),
        0 <= n < trace.len(),
    ensures
        !park_stuck(trace[n]),
{
    lemma_park_inv(trace, n);
}

/// A wait heads for its end exactly when a probe sees the condition hold, and
/// a thread that is about to sleep has its announcement up.
pub proof fn park_ends_only_when_ready(w: ParkWaiter, at: WaitPhase, ready: bool)
    requires
        !(at is Announce || at is Leave || at is Done),
    ensures
        ready <==> (w.probed(at, ready).1 is Leave || w.probed(at, ready).1 is Done),
        w.probed(at, ready).1 is Park ==> w.probed(at, ready).0.parked,
        w.probed(at, ready).1 is Done ==> !w.probed(at, ready).0.parked,
{
}

/// One task that waits, its wakers, and the permit of its notification.
pub struct AwaitWorld {
    pub waiter: NotifyWaiter,
    /// Phase of the waiting task.
    pub at: AwaitPhase,
    /// The task is suspended on its future, or about to be.
    pub asleep: bool,
    /// A notification that the live future has not consumed yet.
    pub permit: bool,
    /// The awaited condition.
    pub holds: bool,
    pub wakers: Seq<WakerAt>,
}

/// The task takes the next step of its wait.
pub open spec fn task_probes(s: AwaitWorld, t: AwaitWorld) -> bool {
    let (w, next) = s.waiter.polled(s.at, s.holds);
    &&& !s.asleep
    &&& !(s.at is Done)
    &&& t == (AwaitWorld { waiter: w, at: next, asleep: next is Suspended, ..s })
}

/// The notification arrives.
pub open spec fn task_resumes(s: AwaitWorld, t: AwaitWorld) -> bool {
    &&& s.asleep
    &&& s.permit
    &&& t == (AwaitWorld { asleep: false, permit: false, ..s })
}

/// The task is dropped at any point and another wait starts.
pub open spec fn task_cancelled(s: AwaitWorld, t: AwaitWorld) -> bool {
    &&& t.waiter == (if future_alive(s.at) {
        s.waiter.with_armed(s.waiter.inner.armed - 1)
    } else {
        s.waiter
    })
    &&& t == (AwaitWorld { waiter: t.waiter, at: AwaitPhase::Entry, asleep: false, ..s })
}

/// A finished task uses up what it waited for and waits again.
pub open spec fn task_waits_again(s: AwaitWorld, t: AwaitWorld) -> bool {
    &&& s.at is Done
    &&& t == (AwaitWorld { at: AwaitPhase::Entry, holds: t.holds, ..s })
}

/// Waker `i` publishes a change that makes the condition true.
pub open spec fn task_waker_publishes(s: AwaitWorld, t: AwaitWorld, i: int) -> bool {
    &&& 0 <= i < s.wakers.len()
    &&& s.wakers[i] is Idle
    &&& t == (AwaitWorld { holds: true, wakers: s.wakers.update(i, WakerAt::Published), ..s })
}

/// Waker `i` probes for an armed gate.
pub open spec fn task_waker_probes(s: AwaitWorld, t: AwaitWorld, i: int) -> bool {
    &&& 0 <= i < s.wakers.len()
    &&& !(s.wakers[i] is Idle)
    &&& t == (AwaitWorld {
        waiter: s.waiter.woken(),
        wakers: s.wakers.update(
            i,
            if s.wakers[i] is Published && s.waiter.inner.armed == 0 {
                WakerAt::Missed
            } else {
                WakerAt::Idle
            },
        ),
        ..s
    })
}

/// The runtime notifies the task.
pub open spec fn notify_delivered(s: AwaitWorld, t: AwaitWorld) -> bool {
    &&& s.waiter.owed()
    &&& t == (AwaitWorld { waiter: s.waiter.settled(), permit: true, ..s })
}

/// One step of any of the parties.
pub open spec fn await_step(s: AwaitWorld, t: AwaitWorld) -> bool {
    ||| task_probes(s, t)
    ||| task_resumes(s, t)
    ||| task_cancelled(s, t)
    ||| task_waits_again(s, t)
    ||| notify_delivered(s, t)
    ||| exists|i: int| #[trigger] task_waker_publishes(s, t, i)
    ||| exists|i: int| #[trigger] task_waker_probes(s, t, i)
}

/// A task starts to wait at a disarmed gate and no waker is active.
pub open spec fn await_init(s: AwaitWorld) -> bool {
    &&& s.waiter.inner.armed == 0
    &&& s.at is Entry
    &&& !s.asleep
    &&& forall|i: int| 0 <= i < s.wakers.len() ==> (#[trigger] s.wakers[i]) is Idle
}

/// The condition holds, and nothing is left that would resume the task.
pub open spec fn await_stuck(s: AwaitWorld) -> bool {
    &&& s.asleep
    &&& s.holds
    &&& !s.permit
    &&& !s.waiter.inner.owed
    &&& !in_flight(s.wakers)
}

/// Step `i` of an execution.
pub open spec fn await_step_at(trace: Seq<AwaitWorld>, i: int) -> bool {
    await_step(trace[i], trace[i + 1])
}

/// An execution from an initial state.
pub open spec fn await_execution(trace: Seq<AwaitWorld>) -> bool {
    &&& trace.len() > 0
    &&& await_init(trace[0])
    &&& forall|i: int| 0 <= i < trace.len() - 1 ==> #[trigger] await_step_at(trace, i)
}

spec fn await_inv(s: AwaitWorld) -> bool {
    &&& s.waiter.inner.armed == (if future_alive(s.at) {
        1int
    } else {
        0
    })
    &&& s.asleep ==> s.at is Suspended
    &&& !await_stuck(s)
}

proof fn lemma_await_inv_step(s: AwaitWorld, t: AwaitWorld)
    requires
        await_inv(s),
        await_step(s, t),
    ensures
        await_inv(t),
{
    if exists|i: int| #[trigger] task_waker_publishes(s, t, i) {
        let i = choose|i: int| #[trigger] task_waker_publishes(s, t, i);
        assert(t.wakers[i] is Published);
    } else if exists|i: int| #[trigger] task_waker_probes(s, t, i) {
        if await_stuck(t) {
            assert(t.waiter.inner.owed);
        }
    }
}

proof fn lemma_await_inv(trace: Seq<AwaitWorld>, n: int)
    requires
        await_execution(trace),
        0 <= n < trace.len(),
    ensures
        await_inv(trace[n]),
    decreases n,
{
    if n > 0 {
        lemma_await_inv(trace, n - 1);
        assert(await_step_at(trace, n - 1));
        lemma_await_inv_step(trace[n - 1], trace[n]);
    }
}

/// No wake of a suspended task is lost, cancellations included: in no state
/// of any execution is the task asleep while its condition holds, unless a
/// notification waits for it, one is owed, or a waker is still at work.
pub proof fn notify_loses_no_wake(trace: Seq<AwaitWorld>, n: int)
    requires
        await_execution(trace),
        0 <= n < trace.len(),
    ensures
        !await_stuck(trace[n]),
{
    lemma_await_inv(trace, n);
}

/// The wake gate is armed exactly while a notification future is alive, whatever
/// waits have ended or been cancelled before.
pub proof fn gate_counts_live_futures(trace: Seq<AwaitWorld>, n: int)
    requires
        await_execution(trace),
        0 <= n < trace.len(),
    ensures
        trace[n].waiter.inner.armed == (if future_alive(trace[n].at) {
            1int
        } else {
            0
        }),
{
    lemma_await_inv(trace, n);
}

} // verus!
