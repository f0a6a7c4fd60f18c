//! Cancellation scope for up to 64 waiters.
//!
//! Workers register and get a [`WaiterId`]; anybody may then cancel one of
//! them, a subset, or all of them. Cancelling marks the targets and leaves an
//! unpark owed to each registered target; it does not wait for anybody. A
//! worker finds out when it next asks [`Lifeline::is_cancelled`].
use crate::bits::{bit, bit_set, lemma_has_bit, lemma_has_low_mask, lemma_has_ops, lemma_same_bits, lemma_trailing_zeros, low_mask};
use vstd::prelude::*;

verus! {

/// Most waiters that one [`Lifeline`] can hold.
pub const MAX_WAITERS: usize = 64;

/// One waiter of a [`Lifeline`], as an index below [`MAX_WAITERS`].
#[derive(Debug, Clone, Copy, PartialEq, Eq, Hash, Structural)]
pub struct WaiterId(u8);

impl WaiterId {
    #[verifier::type_invariant]
    spec fn in_range(self) -> bool {
        self.0 < 64
    }

    /// The index of this waiter.
    pub closed spec fn idx(self) -> int {
        self.0 as int
    }

    /// Wrap a raw index.
    pub fn new(index: u8) -> (id: Self)
        requires
            index < MAX_WAITERS,
        ensures
            id.idx() == index,
    {
        WaiterId(index)
    }

    /// The raw index.
    pub fn index(self) -> (i: u8)
        ensures
            i == self.idx(),
            i < MAX_WAITERS,
    {
        proof {
            use_type_invariant(&self);
        }
        self.0
    }

    /// The mask with only this waiter's bit set.
    pub fn bit(self) -> (m: u64)
        ensures
            m == bit(self.idx()),
            0 <= self.idx() < MAX_WAITERS,
    {
        proof {
            use_type_invariant(&self);
        }
        1u64 << (self.0 as u64)
    }
}

/// Why a cancellable wait ended without a value.
#[derive(Debug, Clone, Copy, PartialEq, Eq, Structural)]
pub struct Cancelled;

/// Cancellation scope.
#[derive(Debug, PartialEq, Eq, Structural)]
pub struct Lifeline {
    /// Waiters cancelled one by one or by mask.
    pub mask: u64,
    /// Everybody is cancelled.
    pub global: bool,
    /// Index of the next waiter to register.
    pub next_id: u8,
    /// Registered waiters that an unpark has to be delivered to.
    pub owed: u64,
}

impl Default for Lifeline {
    fn default() -> (l: Self)
        ensures
            l == (Lifeline { mask: 0, global: false, next_id: 0, owed: 0 }),
    {
        Self::new()
    }
}

impl Lifeline {
    /// Validity: at most 64 waiters are registered.
    pub open spec fn wf(self) -> bool {
        self.next_id <= MAX_WAITERS
    }

    /// Waiter `i` has registered.
    pub open spec fn holds(self, i: int) -> bool {
        0 <= i < self.next_id
    }

    /// Waiter `i` is cancelled.
    pub open spec fn cancelled(self, i: int) -> bool {
        self.global || bit_set(self.mask, i)
    }

    /// An unpark has to be delivered to waiter `i`.
    pub open spec fn owes(self, i: int) -> bool {
        bit_set(self.owed, i)
    }

    /// An empty scope.
    pub fn new() -> (l: Self)
        ensures
            l == (Lifeline { mask: 0, global: false, next_id: 0, owed: 0 }),
            l.wf(),
    {
        Lifeline { mask: 0, global: false, next_id: 0, owed: 0 }
    }

    /// Register the next waiter. Indices are handed out in order, from 0.
    pub fn register(&mut self) -> (id: WaiterId)
        requires
            old(self).wf(),
            old(self).next_id < MAX_WAITERS,
        ensures
            final(self).wf(),
            id.idx() == old(self).next_id,
            *final(self) == (Lifeline { next_id: (old(self).next_id + 1) as u8, ..*old(self) }),
            *final(self) == lifeline_after(*old(self), LifelineOp::Register),
    {
        let id: u8 = self.next_id;
        self.next_id = id + 1;
        WaiterId::new(id)
    }

    /// True iff this waiter is cancelled, alone or with everybody.
    pub fn is_cancelled(&self, id: WaiterId) -> (b: bool)
        ensures
            b == self.cancelled(id.idx()),
    {
        self.global || (self.mask & id.bit()) != 0
    }

    /// True iff everybody was cancelled.
    pub fn is_cancelled_all(&self) -> (b: bool)
        ensures
            b == self.global,
    {
        self.global
    }

    /// The waiters cancelled one by one or by mask, not counting
    /// [`Lifeline::cancel_all`].
    pub fn cancelled_mask(&self) -> (m: u64)
        ensures
            m == self.mask,
    {
        self.mask
    }

    /// The registered waiters, as a mask.
    fn registered_mask(&self) -> (m: u64)
        requires
            self.wf(),
        ensures
            m == low_mask(self.next_id as int),
    {
        if self.next_id >= 64 {
            u64::MAX
        } else {
            let n: u64 = self.next_id as u64;
            proof {
                assert(n < 64 ==> (1u64 << n) >= 1) by (bit_vector);
            }
            (1u64 << n) - 1
        }
    }

    /// Cancel one waiter and wake it if it is registered.
    pub fn cancel_one(&mut self, id: WaiterId)
        requires
            old(self).wf(),
        ensures
            final(self).wf(),
            final(self).mask == old(self).mask | bit(id.idx()),
            final(self).owed == (if old(self).holds(id.idx()) {
                old(self).owed | bit(id.idx())
            } else {
                old(self).owed
            }),
            final(self).global == old(self).global,
            final(self).next_id == old(self).next_id,
            *final(self) == lifeline_after(*old(self), LifelineOp::CancelOne(id.idx())),
    {
        self.mask = self.mask | id.bit();
        if id.index() < self.next_id {
            self.owed = self.owed | id.bit();
        }
    }

    /// Cancel every waiter in `mask` and wake it. Bits beyond the registered
    /// range are ignored: a waiter that registers later is not cancelled.
    pub fn cancel_mask(&mut self, mask: u64)
        requires
            old(self).wf(),
        ensures
            final(self).wf(),
            final(self).mask == old(self).mask | (mask & low_mask(old(self).next_id as int)),
            final(self).owed == old(self).owed | (mask & low_mask(old(self).next_id as int)),
            final(self).global == old(self).global,
            final(self).next_id == old(self).next_id,
            *final(self) == lifeline_after(*old(self), LifelineOp::CancelMask(mask)),
    {
        if mask == 0 {
            proof {
                let m = self.mask;
                let o = self.owed;
                let r = low_mask(self.next_id as int);
                assert(m | (0u64 & r) == m) by (bit_vector);
                assert(o | (0u64 & r) == o) by (bit_vector);
            }
            return;
        }
        let targets: u64 = mask & self.registered_mask();
        self.mask = self.mask | targets;
        self.owed = self.owed | targets;
    }

    /// Cancel everybody, including those who register later, and wake every
    /// registered waiter.
    pub fn cancel_all(&mut self)
        requires
            old(self).wf(),
        ensures
            final(self).wf(),
            final(self).global,
            final(self).owed == old(self).owed | low_mask(old(self).next_id as int),
            final(self).mask == old(self).mask,
            final(self).next_id == old(self).next_id,
            *final(self) == lifeline_after(*old(self), LifelineOp::CancelAll),
    {
        self.global = true;
        self.owed = self.owed | self.registered_mask();
    }

    /// Collect the waiters that an unpark is owed to.
    pub fn settle(&mut self) -> (m: u64)
        ensures
            m == old(self).owed,
            *final(self) == (Lifeline { owed: 0, ..*old(self) }),
            *final(self) == lifeline_after(*old(self), LifelineOp::Settle),
    {
        let m: u64 = self.owed;
        self.owed = 0;
        m
    }
}

/// An operation on a scope.
pub enum LifelineOp {
    Register,
    CancelOne(int),
    CancelMask(u64),
    CancelAll,
    Settle,
}

/// The scope after one operation.
pub open spec fn lifeline_after(l: Lifeline, op: LifelineOp) -> Lifeline {
    match op {
        LifelineOp::Register => Lifeline { next_id: (l.next_id + 1) as u8, ..l },
        LifelineOp::CancelOne(i) => Lifeline {
            mask: l.mask | bit(i),
            owed: if l.holds(i) {
                l.owed | bit(i)
            } else {
                l.owed
            },
            ..l
        },
        LifelineOp::CancelMask(m) => Lifeline {
            mask: l.mask | (m & low_mask(l.next_id as int)),
            owed: l.owed | (m & low_mask(l.next_id as int)),
            ..l
        },
        LifelineOp::CancelAll => Lifeline {
            global: true,
            owed: l.owed | low_mask(l.next_id as int),
            ..l
        },
        LifelineOp::Settle => Lifeline { owed: 0, ..l },
    }
}

/// The scope after all of `ops`, in order.
pub open spec fn lifeline_run(l: Lifeline, ops: Seq<LifelineOp>) -> Lifeline
    decreases ops.len(),
{
    if ops.len() == 0 {
        l
    } else {
        lifeline_after(lifeline_run(l, ops.drop_last()), ops.last())
    }
}

/// An identifier is no more than its index: two of the same index are the
/// same, so that one rebuilt from its index is the one it was read from.
pub proof fn an_index_names_one_waiter(a: WaiterId, b: WaiterId)
    ensures
        a.idx() == b.idx() <==> a == b,
{
}

/// The mask of a waiter has one bit, at its index, and the masks of two waiters
/// overlap only if they are the same waiter.
pub proof fn masks_tell_waiters_apart(a: WaiterId, b: WaiterId)
    requires
        0 <= a.idx() < MAX_WAITERS,
        0 <= b.idx() < MAX_WAITERS,
    ensures
        vstd::std_specs::bits::u64_trailing_zeros(bit(a.idx())) == a.idx(),
        bit(a.idx()) & bit(b.idx()) != 0 <==> a == b,
        forall|i: int| 0 <= i < 64 ==> #[trigger] bit_set(bit(a.idx()), i) == (i == a.idx()),
{
    let w = bit(a.idx());
    assert forall|i: int| 0 <= i < 64 implies #[trigger] bit_set(w, i) == (i == a.idx()) by {
        lemma_has_bit(i, a.idx());
    }
    lemma_has_bit(b.idx(), a.idx());
    lemma_trailing_zeros(w);
    an_index_names_one_waiter(a, b);
}

/// What a cancellation by mask does to each waiter: the registered ones in the
/// mask are cancelled and woken, all others stay as they are. So one that
/// registers later is not cancelled by it.
pub proof fn cancel_mask_hits_its_targets(l: Lifeline, mask: u64, i: int)
    requires
        l.wf(),
        0 <= i < 64,
    ensures
        ({
            let c = lifeline_after(l, LifelineOp::CancelMask(mask));
            &&& c.cancelled(i) == (l.cancelled(i) || (bit_set(mask, i) && l.holds(i)))
            &&& c.owes(i) == (l.owes(i) || (bit_set(mask, i) && l.holds(i)))
            &&& lifeline_after(c, LifelineOp::Register).cancelled(i) == c.cancelled(i)
        }),
{
    let r = low_mask(l.next_id as int);
    lemma_has_ops(l.mask, mask & r, i);
    lemma_has_ops(l.owed, mask & r, i);
    lemma_has_ops(mask, r, i);
    lemma_has_low_mask(l.next_id as int, i);
}

/// Cancelling one waiter cancels it, registered or not, and leaves every other
/// waiter as it was.
pub proof fn cancel_one_hits_only_its_target(l: Lifeline, target: WaiterId, id: WaiterId)
    requires
        0 <= target.idx() < MAX_WAITERS,
        0 <= id.idx() < MAX_WAITERS,
    ensures
        ({
            let c = lifeline_after(l, LifelineOp::CancelOne(target.idx()));
            &&& c.cancelled(id.idx()) == (l.cancelled(id.idx()) || id == target)
            &&& c.owes(id.idx()) == (l.owes(id.idx()) || (id == target && l.holds(id.idx())))
        }),
{
    lemma_has_ops(l.mask, bit(target.idx()), id.idx());
    lemma_has_ops(l.owed, bit(target.idx()), id.idx());
    lemma_has_bit(id.idx(), target.idx());
    an_index_names_one_waiter(id, target);
}

/// Cancelling twice is cancelling once, and cancelling a registered waiter is
/// cancelling by its mask.
pub proof fn cancel_is_idempotent(l: Lifeline, i: int)
    requires
        l.wf(),
        0 <= i < 64,
    ensures
        ({
            let c = lifeline_after(l, LifelineOp::CancelOne(i));
            &&& lifeline_after(c, LifelineOp::CancelOne(i)) == c
            &&& l.holds(i) ==> lifeline_after(l, LifelineOp::CancelMask(bit(i))) == c
        }),
{
    let m = l.mask;
    let o = l.owed;
    let b = bit(i);
    let r = low_mask(l.next_id as int);
    assert((m | b) | b == m | b) by (bit_vector);
    assert((o | b) | b == o | b) by (bit_vector);
    if l.holds(i) {
        assert forall|j: int| 0 <= j < 64 implies #[trigger] bit_set(b & r, j) == bit_set(b, j) by {
            lemma_has_ops(b, r, j);
            lemma_has_bit(j, i);
            lemma_has_low_mask(l.next_id as int, j);
        }
        lemma_same_bits(b & r, b);
    }
}

/// No operation takes a cancellation back.
pub proof fn cancelled_for_good(l: Lifeline, ops: Seq<LifelineOp>, i: int)
    requires
        0 <= i < 64,
        l.cancelled(i),
    ensures
        lifeline_run(l, ops).cancelled(i),
    decreases ops.len(),
{
    if ops.len() > 0 {
        cancelled_for_good(l, ops.drop_last(), i);
        let p = lifeline_run(l, ops.drop_last());
        match ops.last() {
            LifelineOp::CancelOne(k) => {
                lemma_has_ops(p.mask, bit(k), i);
            },
            LifelineOp::CancelMask(m) => {
                lemma_has_ops(p.mask, m & low_mask(p.next_id as int), i);
            },
            _ => {},
        }
    }
}

/// Cancelling everybody reaches every waiter: the registered ones are also
/// woken, and a waiter that registers later finds itself cancelled.
pub proof fn cancel_all_reaches_everybody(l: Lifeline, i: int)
    requires
        l.wf(),
        0 <= i < 64,
    ensures
        ({
            let c = lifeline_after(l, LifelineOp::CancelAll);
            &&& c.cancelled(i)
            &&& c.mask == l.mask
            &&& l.holds(i) ==> c.owes(i)
            &&& lifeline_after(c, LifelineOp::Register).cancelled(i)
        }),
{
    lemma_has_ops(l.owed, low_mask(l.next_id as int), i);
    lemma_has_low_mask(l.next_id as int, i);
}

} // verus!
