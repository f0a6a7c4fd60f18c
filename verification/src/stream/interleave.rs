//! One producer and one consumer work on the same slots at the same time.
//!
//! Neither side takes a lock. Each works from its own cursor and a private,
//! possibly outdated copy of the other side's cursor, and publishes its own
//! cursor only after it is done with the slot. This module takes the two
//! sides apart into their single memory operations and lets these interleave
//! in any order. Positions are counted without wrapping here; how a wrapped
//! cursor finds its slot is the subject of
//! [`lemma_slot_of_forward`](crate::arith::lemma_slot_of_forward).
use crate::arith::lemma_slots_distinct;
use vstd::prelude::*;

verus! {

/// Both sides of a ring of `cap` slots.
pub struct SlotWorld<T> {
    pub cap: int,
    /// Published write position.
    pub head: int,
    /// Published read position.
    pub tail: int,
    /// The producer's copy of `tail`.
    pub cached_tail: int,
    /// The consumer's copy of `head`.
    pub cached_head: int,
    /// The producer has found room and is writing its slot.
    pub writing: bool,
    /// The consumer has found an item and is reading its slot.
    pub reading: bool,
    /// What each slot holds: the position it was written for and the value.
    pub slots: Map<int, (int, T)>,
    /// The values sent, by position.
    pub sent: Seq<T>,
    /// The values read so far.
    pub received: Seq<T>,
}

/// The producer refreshes its copy of the read position.
pub open spec fn producer_refreshes<T>(s: SlotWorld<T>, t: SlotWorld<T>) -> bool {
    &&& !s.writing
    &&& t == (SlotWorld { cached_tail: s.tail, ..s })
}

/// The producer's copy shows room, and the producer starts to write.
pub open spec fn producer_finds_room<T>(s: SlotWorld<T>, t: SlotWorld<T>) -> bool {
    &&& !s.writing
    &&& s.head - s.cached_tail < s.cap
    &&& t == (SlotWorld { writing: true, ..s })
}

/// The producer has written `v` into its slot and publishes the position.
pub open spec fn producer_publishes<T>(s: SlotWorld<T>, t: SlotWorld<T>, v: T) -> bool {
    &&& s.writing
    &&& t == (SlotWorld {
        writing: false,
        head: s.head + 1,
        slots: s.slots.insert(s.head % s.cap, (s.head, v)),
        sent: s.sent.push(v),
        ..s
    })
}

/// The consumer refreshes its copy of the write position.
pub open spec fn consumer_refreshes<T>(s: SlotWorld<T>, t: SlotWorld<T>) -> bool {
    &&& !s.reading
    &&& t == (SlotWorld { cached_head: s.head, ..s })
}

/// The consumer's copy shows an item, and the consumer starts to read.
pub open spec fn consumer_finds_item<T>(s: SlotWorld<T>, t: SlotWorld<T>) -> bool {
    &&& !s.reading
    &&& s.cached_head != s.tail
    &&& t == (SlotWorld { reading: true, ..s })
}

/// The consumer has read its slot and publishes the position.
pub open spec fn consumer_publishes<T>(s: SlotWorld<T>, t: SlotWorld<T>) -> bool {
    &&& s.reading
    &&& t == (SlotWorld {
        reading: false,
        tail: s.tail + 1,
        received: s.received.push(s.slots[s.tail % s.cap].1),
        ..s
    })
}

/// One memory operation of either side.
pub open spec fn slot_step<T>(s: SlotWorld<T>, t: SlotWorld<T>) -> bool {
    ||| producer_refreshes(s, t)
    ||| producer_finds_room(s, t)
    ||| exists|v: T| #[trigger] producer_publishes(s, t, v)
    ||| consumer_refreshes(s, t)
    ||| consumer_finds_item(s, t)
    ||| consumer_publishes(s, t)
}

/// A fresh ring.
pub open spec fn slot_init<T>(s: SlotWorld<T>) -> bool {
    &&& s.cap > 0
    &&& s.head == 0
    &&& s.tail == 0
    &&& s.cached_tail == 0
    &&& s.cached_head == 0
    &&& !s.writing
    &&& !s.reading
    &&& s.sent == Seq::<T>::empty()
    &&& s.received == Seq::<T>::empty()
}

/// Step `i` of an execution.
pub open spec fn slot_step_at<T>(trace: Seq<SlotWorld<T>>, i: int) -> bool {
    slot_step(trace[i], trace[i + 1])
}

/// An execution from a fresh ring.
pub open spec fn slot_execution<T>(trace: Seq<SlotWorld<T>>) -> bool {
    &&& trace.len() > 0
    &&& slot_init(trace[0])
    &&& forall|i: int| 0 <= i < trace.len() - 1 ==> #[trigger] slot_step_at(trace, i)
}

spec fn slot_inv<T>(s: SlotWorld<T>) -> bool {
    &&& s.cap > 0
    &&& 0 <= s.cached_tail <= s.tail
    &&& s.tail <= s.cached_head <= s.head
    &&& s.head - s.cached_tail <= s.cap
    &&& s.writing ==> s.head - s.cached_tail < s.cap
    &&& s.reading ==> s.tail < s.cached_head
    &&& s.sent.len() == s.head
    &&& s.received == s.sent.take(s.tail)
    &&& forall|p: int|
        s.tail <= p < s.head ==> (#[trigger] s.slots[p % s.cap]) == (p, s.sent[p])
}

proof fn lemma_slot_inv_step<T>(s: SlotWorld<T>, t: SlotWorld<T>)
    requires
        slot_inv(s),
        slot_step(s, t),
    ensures
        slot_inv(t),
{
    if exists|v: T| #[trigger] producer_publishes(s, t, v) {
        let v = choose|v: T| #[trigger] producer_publishes(s, t, v);
        assert forall|p: int| t.tail <= p < t.head implies (#[trigger] t.slots[p % t.cap]) == (
            p,
            t.sent[p],
        ) by {
            if p < s.head {
                lemma_slots_distinct(s.cap, p, s.head);
                assert(s.slots[p % s.cap] == (p, s.sent[p]));
            }
        }
        assert(t.received =~= t.sent.take(t.tail));
    } else if consumer_publishes(s, t) {
        assert(s.slots[s.tail % s.cap] == (s.tail, s.sent[s.tail]));
        assert(t.received =~= t.sent.take(t.tail));
    }
}

proof fn lemma_slot_inv<T>(trace: Seq<SlotWorld<T>>, n: int)
    requires
        slot_execution(trace),
        0 <= n < trace.len(),
    ensures
        slot_inv(trace[n]),
    decreases n,
{
    if n > 0 {
        lemma_slot_inv(trace, n - 1);
        assert(slot_step_at(trace, n - 1));
        lemma_slot_inv_step(trace[n - 1], trace[n]);
    } else {
        let s = trace[0];
        assert(s.received =~= s.sent.take(s.tail));
    }
}

/// The two sides never touch the same slot at the same time.
pub proof fn slot_access_is_exclusive<T>(trace: Seq<SlotWorld<T>>, n: int)
    requires
        slot_execution(trace),
        0 <= n < trace.len(),
        trace[n].writing,
        trace[n].reading,
    ensures
        trace[n].head % trace[n].cap != trace[n].tail % trace[n].cap,
{
    lemma_slot_inv(trace, n);
    let s = trace[n];
    lemma_slots_distinct(s.cap, s.tail, s.head);
}

/// A slot holds an unread value exactly as it was sent: whatever the
/// interleaving, the values received are the first values sent, in order,
/// and at most `cap` values are in flight.
pub proof fn interleaving_keeps_order<T>(trace: Seq<SlotWorld<T>>, n: int)
    requires
        slot_execution(trace),
        0 <= n < trace.len(),
    ensures
        trace[n].received == trace[n].sent.take(trace[n].tail),
        0 <= trace[n].tail <= trace[n].head <= trace[n].tail + trace[n].cap,
        trace[n].sent.len() == trace[n].head,
        forall|p: int|
            trace[n].tail <= p < trace[n].head ==> (#[trigger] trace[n].slots[p % trace[n].cap])
                == (p, trace[n].sent[p]),
{
    lemma_slot_inv(trace, n);
}

/// A private copy of the other side's cursor is never ahead of it: acting on
/// an outdated copy is always safe.
pub proof fn copies_lag_behind<T>(trace: Seq<SlotWorld<T>>, n: int)
    requires
        slot_execution(trace),
        0 <= n < trace.len(),
    ensures
        trace[n].cached_tail <= trace[n].tail,
        trace[n].cached_head <= trace[n].head,
{
    lemma_slot_inv(trace, n);
}

} // verus!
