//! Bounded slot array addressed by free-running cursors.
//!
//! [`RingBuf`] is the storage under every bounded transport. It keeps a write
//! cursor `head` and a read cursor `tail`; the items in flight occupy the
//! positions from `tail` up to `head`, and position `p` lives in slot
//! `p % CAP`. Both cursors wrap around at the end of the `usize` range.
use vstd::prelude::*;
use crate::arith::{ahead, forward, is_pow2, lemma_cap_divides_range, lemma_slot_of_forward, lemma_slots_distinct};

verus! {

/// Slot storage with a write cursor and a read cursor.
pub struct RingBuf<T, const CAP: usize> {
    head: usize,
    tail: usize,
    slots: Vec<Option<T>>,
}

/// Slot of the `i`-th position after cursor `tail`.
spec fn slot_at(cap: usize, tail: usize, i: int) -> int {
    (tail + i) % (cap as int)
}

impl<T, const CAP: usize> View for RingBuf<T, CAP> {
    type V = Seq<T>;

    /// The items in flight, oldest first.
    closed spec fn view(&self) -> Seq<T> {
        Seq::new(
            ahead(self.head, self.tail) as nat,
            |i: int| self.slots@[slot_at(CAP, self.tail, i)]->0,
        )
    }
}

impl<T, const CAP: usize> RingBuf<T, CAP> {
    /// The write cursor.
    pub closed spec fn head(&self) -> usize {
        self.head
    }

    /// The read cursor.
    pub closed spec fn tail(&self) -> usize {
        self.tail
    }

    /// A slot is occupied exactly when it belongs to a position in flight.
    spec fn slots_match(&self) -> bool {
        &&& self.slots@.len() == CAP
        &&& forall|i: int|
            0 <= i < ahead(self.head, self.tail) ==> (#[trigger] self.slots@[slot_at(CAP, self.tail, i)]) is Some
        &&& forall|i: int|
            ahead(self.head, self.tail) <= i < CAP ==> (#[trigger] self.slots@[slot_at(CAP, self.tail, i)]) is None
    }

    /// Slots and cursors agree.
    pub closed spec fn inv(&self) -> bool {
        self.slots_match()
    }

    /// Validity: the capacity is a power of two, at most `CAP` items are in
    /// flight, and the cursors are that many positions apart.
    pub open spec fn wf(&self) -> bool {
        &&& is_pow2(CAP as int)
        &&& self.inv()
        &&& self@.len() == ahead(self.head(), self.tail())
        &&& self@.len() <= CAP
    }

    /// Storage with every slot free and both cursors at zero.
    pub fn new() -> (b: Self)
        requires
            is_pow2(CAP as int),
        ensures
            b.wf(),
            b@ == Seq::<T>::empty(),
            b.head() == 0,
            b.tail() == 0,
    {
        let mut slots: Vec<Option<T>> = Vec::new();
        let mut i: usize = 0;
        while i < CAP
            invariant
                i <= CAP,
                slots@.len() == i,
                forall|j: int| 0 <= j < i ==> (#[trigger] slots@[j]) is None,
            decreases CAP - i,
        {
            slots.push(None);
            i = i + 1;
        }
        let b: RingBuf<T, CAP> = RingBuf { head: 0, tail: 0, slots };
        proof {
            lemma_cap_divides_range(CAP);
            assert forall|j: int| 0 <= j < CAP implies (#[trigger] b.slots@[slot_at(CAP, b.tail, j)]) is None by {
                vstd::arithmetic::div_mod::lemma_small_mod(j as nat, CAP as nat);
            }
        }
        b
    }

    /// Number of items in flight.
    pub fn len(&self) -> (n: usize)
        requires
            self.wf(),
        ensures
            n == self@.len(),
    {
        self.head.wrapping_sub(self.tail)
    }

    /// True iff nothing is in flight.
    pub fn is_empty(&self) -> (b: bool)
        requires
            self.wf(),
        ensures
            b == (self@.len() == 0),
    {
        self.head == self.tail
    }

    /// True iff every slot is occupied.
    pub fn is_full(&self) -> (b: bool)
        requires
            self.wf(),
        ensures
            b == (self@.len() == CAP),
    {
        self.len() >= CAP
    }

    /// Value of the write cursor.
    pub fn head_cursor(&self) -> (h: usize)
        ensures
            h == self.head(),
    {
        self.head
    }

    /// Value of the read cursor.
    pub fn tail_cursor(&self) -> (t: usize)
        ensures
            t == self.tail(),
    {
        self.tail
    }

    /// Store one item behind the items in flight.
    pub fn push(&mut self, value: T)
        requires
            old(self).wf(),
            old(self)@.len() < CAP,
        ensures
            final(self).wf(),
            final(self)@ == old(self)@.push(value),
            final(self).head() == forward(old(self).head(), 1),
            final(self).tail() == old(self).tail(),
    {
        let ghost n = ahead(self.head, self.tail);
        let at: usize = self.head % CAP;
        proof {
            lemma_cap_divides_range(CAP);
            lemma_slot_of_forward(CAP, self.tail, n);
            assert(forward(self.tail, n) == self.head);
            assert(at as int == slot_at(CAP, self.tail, n));
            assert forall|i: int| 0 <= i < CAP && i != n implies #[trigger] slot_at(
                CAP,
                self.tail,
                i,
            ) != at as int by {
                if i < n {
                    lemma_slots_distinct(CAP as int, self.tail + i, self.tail + n);
                } else {
                    lemma_slots_distinct(CAP as int, self.tail + n, self.tail + i);
                }
            }
        }
        self.slots[at] = Some(value);
        self.head = self.head.wrapping_add(1);
        proof {
            assert(ahead(self.head, self.tail) == n + 1);
            assert forall|i: int| 0 <= i < n + 1 implies (#[trigger] self.slots@[slot_at(CAP, self.tail, i)]) is Some by {
                if i < n {
                    assert(old(self).slots@[slot_at(CAP, old(self).tail, i)] is Some);
                }
            }
            assert forall|i: int| n + 1 <= i < CAP implies (#[trigger] self.slots@[slot_at(CAP, self.tail, i)]) is None by {
                assert(old(self).slots@[slot_at(CAP, old(self).tail, i)] is None);
            }
            assert(self@ =~= old(self)@.push(value));
        }
    }

    /// Take the oldest item in flight.
    pub fn pop(&mut self) -> (value: T)
        requires
            old(self).wf(),
            old(self)@.len() > 0,
        ensures
            final(self).wf(),
            value == old(self)@[0],
            old(self)@ == seq![value] + final(self)@,
            final(self)@ == old(self)@.drop_first(),
            final(self).head() == old(self).head(),
            final(self).tail() == forward(old(self).tail(), 1),
    {
        let ghost n = ahead(self.head, self.tail);
        let at: usize = self.tail % CAP;
        proof {
            lemma_cap_divides_range(CAP);
            assert(slot_at(CAP, self.tail, 0) == at as int);
            assert(self.slots@[slot_at(CAP, self.tail, 0)] is Some);
        }
        let mut cell: Option<T> = None;
        std::mem::swap(&mut self.slots[at], &mut cell);
        self.tail = self.tail.wrapping_add(1);
        proof {
            assert(ahead(self.head, self.tail) == n - 1);
            assert forall|i: int| 0 <= i < CAP implies #[trigger] slot_at(
                CAP,
                self.tail,
                i,
            ) == slot_at(CAP, old(self).tail, i + 1) by {
                lemma_slot_of_forward(CAP, old(self).tail, 1);
                let t = old(self).tail + 1;
                let c = CAP as int;
                assert(self.tail as int % c == t % c);
                vstd::arithmetic::div_mod::lemma_add_mod_noop(self.tail as int, i, c);
                vstd::arithmetic::div_mod::lemma_add_mod_noop(t, i, c);
            }
            assert forall|i: int| 1 <= i < CAP implies #[trigger] slot_at(
                CAP,
                old(self).tail,
                i,
            ) != at as int by {
                lemma_slots_distinct(CAP as int, old(self).tail as int, old(self).tail + i);
            }
            assert forall|i: int| 0 <= i < n - 1 implies (#[trigger] self.slots@[slot_at(CAP, self.tail, i)]) is Some && self.slots@[slot_at(CAP, self.tail, i)] == old(self).slots@[slot_at(CAP, old(self).tail, i + 1)] by {
                assert(old(self).slots@[slot_at(CAP, old(self).tail, i + 1)] is Some);
            }
            assert forall|i: int| n - 1 <= i < CAP implies (#[trigger] self.slots@[slot_at(CAP, self.tail, i)]) is None by {
                if i == CAP - 1 {
                    assert(slot_at(CAP, old(self).tail, i + 1) == at as int) by {
                        vstd::arithmetic::div_mod::lemma_mod_add_multiples_vanish(
                            old(self).tail as int,
                            CAP as int,
                        );
                    }
                } else {
                    assert(old(self).slots@[slot_at(CAP, old(self).tail, i + 1)] is None);
                }
            }
            assert(self@ =~= old(self)@.drop_first());
            assert(old(self)@ =~= seq![old(self)@[0]] + self@);
        }
        cell.unwrap()
    }

    /// Take every item, oldest first, and append it to `out`. Returns how many
    /// there were.
    pub fn drain(&mut self, out: &mut Vec<T>) -> (n: usize)
        requires
            old(self).wf(),
        ensures
            final(self).wf(),
            final(self)@ == Seq::<T>::empty(),
            n == old(self)@.len(),
            final(out)@ == old(out)@ + old(self)@,
            final(self).head() == old(self).head(),
    {
        let n: usize = self.len();
        assert(out@ + self@ =~= old(out)@ + old(self)@);
        while !self.is_empty()
            invariant
                self.wf(),
                self.head() == old(self).head(),
                out@ + self@ == old(out)@ + old(self)@,
            decreases self@.len(),
        {
            let ghost rest = self@;
            let ghost got = out@;
            let value: T = self.pop();
            out.push(value);
            assert(got.push(value) + self@ =~= got + rest);
        }
        assert(out@ + self@ =~= out@);
        assert(self@ =~= Seq::<T>::empty());
        n
    }
}

} // verus!
