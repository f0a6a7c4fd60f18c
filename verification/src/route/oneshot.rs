//! A slot for a single reply, generic over how the receiver waits.
//!
//! [`OneShot::new`] builds the shared slot with a sender and a receiver. The
//! slot is empty until the sender delivers the value or leaves without one;
//! the value can be taken once. Afterwards the receiver is told that the slot
//! is closed.
use crate::waiter::{AsyncWaiter, BlockingWaiter, ParkWaiter, Step, Waiter};
use core::marker::PhantomData;
use vstd::prelude::*;

verus! {

/// The sender left without sending, or the value has been taken.
#[derive(Debug, PartialEq, Eq, Clone, Copy, Structural)]
pub struct Closed;

/// What the slot holds.
#[derive(Debug)]
pub enum SlotState<T> {
    /// Nothing yet.
    Empty,
    /// The value.
    Full(T),
    /// The sender left without sending.
    Closed,
    /// The value has been taken.
    Taken,
}

/// What an attempt to take the value gives; `None` while it is pending.
pub open spec fn take_outcome<T>(s: SlotState<T>) -> Option<Result<T, Closed>> {
    match s {
        SlotState::Empty => None,
        SlotState::Full(v) => Some(Ok(v)),
        SlotState::Closed => Some(Err(Closed)),
        SlotState::Taken => Some(Err(Closed)),
    }
}

/// The slot after an attempt to take the value.
pub open spec fn after_take<T>(s: SlotState<T>) -> SlotState<T> {
    if s is Full {
        SlotState::Taken
    } else {
        s
    }
}

impl<T> SlotState<T> {
    /// Take the value, if there is one.
    pub(crate) fn take(&mut self) -> (r: Option<Result<T, Closed>>)
        ensures
            r == take_outcome(*old(self)),
            *final(self) == after_take(*old(self)),
    {
        if matches!(*self, SlotState::Empty) {
            return None;
        }
        if matches!(*self, SlotState::Closed) {
            return Some(Err(Closed));
        }
        let mut cell: SlotState<T> = SlotState::Taken;
        std::mem::swap(self, &mut cell);
        match cell {
            SlotState::Full(v) => Some(Ok(v)),
            _ => Some(Err(Closed)),
        }
    }

    /// True iff nothing has happened yet.
    pub(crate) fn is_empty(&self) -> (b: bool)
        ensures
            b == (self is Empty),
    {
        matches!(*self, SlotState::Empty)
    }
}

/// The slot that both handles share.
pub struct OneShot<T, W: Waiter = ParkWaiter> {
    pub state: SlotState<T>,
    /// Where the receiver waits.
    pub waiter: W,
}

/// Handle that delivers the value.
pub struct Sender<T, W: Waiter = ParkWaiter> {
    shared: PhantomData<(T, W)>,
}

/// Handle that receives the value.
pub struct Receiver<T, W: Waiter = ParkWaiter> {
    shared: PhantomData<(T, W)>,
}

impl<T, W: Waiter> OneShot<T, W> {
    /// An empty slot with its two handles.
    pub fn new() -> (r: (Self, Sender<T, W>, Receiver<T, W>))
        ensures
            r.0 == (OneShot { state: SlotState::<T>::Empty, waiter: W::initial() }),
    {
        (
            OneShot { state: SlotState::Empty, waiter: W::fresh() },
            Sender { shared: PhantomData },
            Receiver { shared: PhantomData },
        )
    }

    /// True iff a blocked receiver has something to do.
    pub fn can_recv(&self) -> (b: bool)
        ensures
            b == !(self.state is Empty),
    {
        !self.state.is_empty()
    }
}

impl<T, W: Waiter> Sender<T, W> {
    /// Deliver the value and wake the receiver. A sender is there only as
    /// long as its slot is empty.
    pub fn send(self, slot: &mut OneShot<T, W>, value: T)
        requires
            old(slot).state is Empty,
        ensures
            *final(slot) == (OneShot {
                state: SlotState::Full(value),
                waiter: old(slot).waiter.woken(),
            }),
    {
        slot.state = SlotState::Full(value);
        slot.waiter.wake();
    }

    /// Leave without sending and wake the receiver.
    pub fn close(self, slot: &mut OneShot<T, W>)
        requires
            old(slot).state is Empty,
        ensures
            *final(slot) == (OneShot {
                state: SlotState::<T>::Closed,
                waiter: old(slot).waiter.woken(),
            }),
    {
        slot.state = SlotState::Closed;
        slot.waiter.wake();
    }
}

impl<T, W: Waiter> Receiver<T, W> {
    /// Register the receiver.
    pub fn bind(&self, slot: &mut OneShot<T, W>)
        ensures
            *final(slot) == (OneShot { waiter: old(slot).waiter.bound(), ..*old(slot) }),
    {
        slot.waiter.set_worker();
    }

    /// The waiter of the receiver.
    pub fn waiter<'a>(&self, slot: &'a OneShot<T, W>) -> (w: &'a W)
        ensures
            *w == slot.waiter,
    {
        &slot.waiter
    }

    /// Take the value without waiting: `Ok(None)` while it is pending.
    pub fn try_recv(&self, slot: &mut OneShot<T, W>) -> (r: Result<Option<T>, Closed>)
        ensures
            r == (match take_outcome(old(slot).state) {
                Some(Ok(v)) => Ok(Some(v)),
                Some(Err(_)) => Err(Closed),
                None => Ok(None),
            }),
            *final(slot) == (OneShot { state: after_take(old(slot).state), ..*old(slot) }),
    {
        match self.try_take(slot) {
            Some(Ok(v)) => Ok(Some(v)),
            Some(Err(_)) => Err(Closed),
            None => Ok(None),
        }
    }

    fn try_take(&self, slot: &mut OneShot<T, W>) -> (r: Option<Result<T, Closed>>)
        ensures
            r == take_outcome(old(slot).state),
            *final(slot) == (OneShot { state: after_take(old(slot).state), ..*old(slot) }),
    {
        slot.state.take()
    }

    fn recv_pass(self, slot: &mut OneShot<T, W>) -> (r: Step<Result<T, Closed>, Self>)
        ensures
            r == (match take_outcome(old(slot).state) {
                Some(taken) => Step::Done(taken),
                None => Step::Wait(self),
            }),
            *final(slot) == (OneShot { state: after_take(old(slot).state), ..*old(slot) }),
    {
        match self.try_take(slot) {
            Some(taken) => Step::Done(taken),
            None => Step::Wait(self),
        }
    }
}

impl<T, W: BlockingWaiter> Receiver<T, W> {
    /// One pass of a blocking receive: done with the value or with [`Closed`];
    /// otherwise the receiver comes back and the next pass is due when
    /// [`OneShot::can_recv`] holds.
    pub fn recv(self, slot: &mut OneShot<T, W>) -> (r: Step<Result<T, Closed>, Self>)
        ensures
            r == (match take_outcome(old(slot).state) {
                Some(taken) => Step::Done(taken),
                None => Step::Wait(self),
            }),
            *final(slot) == (OneShot { state: after_take(old(slot).state), ..*old(slot) }),
    {
        self.recv_pass(slot)
    }
}

impl<T, W: AsyncWaiter> Receiver<T, W> {
    /// One pass of an awaited receive; see [`Receiver::recv`].
    pub fn recv_async(self, slot: &mut OneShot<T, W>) -> (r: Step<Result<T, Closed>, Self>)
        ensures
            r == (match take_outcome(old(slot).state) {
                Some(taken) => Step::Done(taken),
                None => Step::Wait(self),
            }),
            *final(slot) == (OneShot { state: after_take(old(slot).state), ..*old(slot) }),
    {
        self.recv_pass(slot)
    }
}

/// Something that happens to a slot.
pub enum SlotOp<T> {
    /// The sender sends.
    Send(T),
    /// The sender leaves.
    Leave,
    /// The receiver tries to take the value.
    Take,
}

/// A slot with what its sender has sent and what its receiver was given.
pub struct SlotHistory<T> {
    pub state: SlotState<T>,
    pub sent: Seq<T>,
    pub given: Seq<T>,
}

/// The slot after one operation. There is a sender only while the slot is
/// empty.
pub open spec fn apply_slot<T>(h: SlotHistory<T>, op: SlotOp<T>) -> SlotHistory<T> {
    match op {
        SlotOp::Send(v) => if h.state is Empty {
            SlotHistory { state: SlotState::Full(v), sent: h.sent.push(v), ..h }
        } else {
            h
        },
        SlotOp::Leave => if h.state is Empty {
            SlotHistory { state: SlotState::Closed, ..h }
        } else {
            h
        },
        SlotOp::Take => SlotHistory {
            state: after_take(h.state),
            given: match take_outcome(h.state) {
                Some(Ok(v)) => h.given.push(v),
                _ => h.given,
            },
            ..h
        },
    }
}

/// The slot after all of `ops`, in order.
pub open spec fn run_slot<T>(ops: Seq<SlotOp<T>>) -> SlotHistory<T>
    decreases ops.len(),
{
    if ops.len() == 0 {
        SlotHistory { state: SlotState::Empty, sent: Seq::empty(), given: Seq::empty() }
    } else {
        apply_slot(run_slot(ops.drop_last()), ops.last())
    }
}

/// At most one value is ever sent, and the receiver is given that value at
/// most once: whatever the operations, what was given is what was sent except
/// while the value is still in the slot. The receiver is told that the slot is
/// closed only when no value is or will be there for it.
pub proof fn one_value_at_most_once<T>(ops: Seq<SlotOp<T>>)
    ensures
        run_slot(ops).sent.len() <= 1,
        match run_slot(ops).state {
            SlotState::Empty => run_slot(ops).sent.len() == 0 && run_slot(ops).given.len() == 0,
            SlotState::Full(v) => run_slot(ops).sent == seq![v] && run_slot(ops).given.len() == 0,
            SlotState::Closed => run_slot(ops).sent.len() == 0 && run_slot(ops).given.len() == 0,
            SlotState::Taken => run_slot(ops).sent.len() == 1 && run_slot(ops).given == run_slot(
                ops,
            ).sent,
        },
    decreases ops.len(),
{
    if ops.len() > 0 {
        one_value_at_most_once(ops.drop_last());
        let g = run_slot(ops.drop_last());
        let h = run_slot(ops);
        match ops.last() {
            SlotOp::Send(v) => {
                if g.state is Empty {
                    assert(h.sent =~= seq![v]);
                }
            },
            SlotOp::Leave => {},
            SlotOp::Take => {
                match g.state {
                    SlotState::Full(v) => {
                        assert(h.given =~= seq![v]);
                    },
                    _ => {},
                }
            },
        }
    }
}

/// A receiver that has something to do is never told to wait, and once it has,
/// that stays so.
pub proof fn decided_for_good<T>(ops: Seq<SlotOp<T>>, n: int)
    requires
        0 <= n <= ops.len(),
        !(run_slot(ops.take(n)).state is Empty),
    ensures
        !(run_slot(ops).state is Empty),
        take_outcome(run_slot(ops).state) is Some,
    decreases ops.len() - n,
{
    if n < ops.len() {
        assert(ops.take(n + 1).drop_last() =~= ops.take(n));
        decided_for_good(ops, n + 1);
    } else {
        assert(ops.take(n) =~= ops);
    }
}

} // verus!
