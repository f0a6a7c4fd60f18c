//! Single-channel signal over a pluggable open/closed bit.
//!
//! Any number of producers open the signal, one consumer waits for it to be
//! open. Where the bit lives is up to the [`SignalSource`]: in the signal
//! itself, in a `bool` of the caller's, or in one bit of a word that several
//! signals share.
use crate::bits::{bit, bit_set, lemma_has_bit, lemma_has_ops};
use crate::waiter::{BlockingWaiter, ParkWaiter, WaitPhase, Waiter, DEFAULT_SPIN_ITERS};
use vstd::prelude::*;

verus! {

/// Where a [`Signal`] keeps its open/closed bit. `Cell` is the part of it that
/// lives with the caller.
pub trait SignalSource: Sized {
    type Cell;

    /// The source can tell open from closed.
    spec fn valid(self) -> bool;

    /// The bit says "open".
    spec fn opened(self, cell: Self::Cell) -> bool;

    /// Source and cell after opening.
    spec fn after_open(self, cell: Self::Cell) -> (Self, Self::Cell);

    /// Source and cell after closing.
    spec fn after_close(self, cell: Self::Cell) -> (Self, Self::Cell);

    /// Opening opens, closing closes, and both leave the source usable.
    proof fn open_and_close(self, cell: Self::Cell)
        requires
            self.valid(),
        ensures
            self.after_open(cell).0.valid(),
            self.after_open(cell).0.opened(self.after_open(cell).1),
            self.after_close(cell).0.valid(),
            !self.after_close(cell).0.opened(self.after_close(cell).1),
    ;

    /// True iff the signal is open.
    fn is_open(&self, cell: &Self::Cell) -> (b: bool)
        ensures
            b == self.opened(*cell),
    ;

    /// Open the signal.
    fn open(&mut self, cell: &mut Self::Cell)
        ensures
            (*final(self), *final(cell)) == old(self).after_open(*old(cell)),
    ;

    /// Close the signal.
    fn close(&mut self, cell: &mut Self::Cell)
        ensures
            (*final(self), *final(cell)) == old(self).after_close(*old(cell)),
    ;
}

/// Source that owns its bit. The flag is inverted: `true` means closed.
#[derive(Debug, PartialEq, Eq, Structural)]
pub struct OwnedBool {
    pub locked: bool,
}

impl OwnedBool {
    /// A closed source.
    pub fn new_locked() -> (s: Self)
        ensures
            s.locked,
    {
        OwnedBool { locked: true }
    }
}

impl SignalSource for OwnedBool {
    type Cell = ();

    open spec fn valid(self) -> bool {
        true
    }

    open spec fn opened(self, cell: ()) -> bool {
        !self.locked
    }

    open spec fn after_open(self, cell: ()) -> (Self, ()) {
        (OwnedBool { locked: false }, cell)
    }

    open spec fn after_close(self, cell: ()) -> (Self, ()) {
        (OwnedBool { locked: true }, cell)
    }

    proof fn open_and_close(self, cell: ()) {
    }

    fn is_open(&self, cell: &()) -> bool {
        !self.locked
    }

    fn open(&mut self, cell: &mut ()) {
        self.locked = false;
    }

    fn close(&mut self, cell: &mut ()) {
        self.locked = true;
    }
}

/// Source over a `bool` of the caller's: `true` means open.
#[derive(Debug, PartialEq, Eq, Structural)]
pub struct BoolView;

impl SignalSource for BoolView {
    type Cell = bool;

    open spec fn valid(self) -> bool {
        true
    }

    open spec fn opened(self, cell: bool) -> bool {
        cell
    }

    open spec fn after_open(self, cell: bool) -> (Self, bool) {
        (self, true)
    }

    open spec fn after_close(self, cell: bool) -> (Self, bool) {
        (self, false)
    }

    proof fn open_and_close(self, cell: bool) {
    }

    fn is_open(&self, cell: &bool) -> bool {
        *cell
    }

    fn open(&mut self, cell: &mut bool) {
        *cell = true;
    }

    fn close(&mut self, cell: &mut bool) {
        *cell = false;
    }
}

/// Source over the bits of `mask` in a word of the caller's: set means open.
/// Views of other bits of the same word are not disturbed.
#[derive(Debug, PartialEq, Eq, Structural)]
pub struct BitView {
    pub mask: u64,
}

impl SignalSource for BitView {
    type Cell = u64;

    open spec fn valid(self) -> bool {
        self.mask != 0
    }

    open spec fn opened(self, cell: u64) -> bool {
        cell & self.mask != 0
    }

    open spec fn after_open(self, cell: u64) -> (Self, u64) {
        (self, cell | self.mask)
    }

    open spec fn after_close(self, cell: u64) -> (Self, u64) {
        (self, cell & !self.mask)
    }

    proof fn open_and_close(self, cell: u64) {
        let m = self.mask;
        assert(m != 0 ==> (cell | m) & m != 0) by (bit_vector);
        assert((cell & !m) & m == 0) by (bit_vector);
    }

    fn is_open(&self, cell: &u64) -> bool {
        (*cell & self.mask) != 0
    }

    fn open(&mut self, cell: &mut u64) {
        *cell = *cell | self.mask;
    }

    fn close(&mut self, cell: &mut u64) {
        *cell = *cell & !self.mask;
    }
}

/// A signal and the consumer that may wait for it.
pub struct Signal<S: SignalSource = OwnedBool> {
    pub source: S,
    pub parker: ParkWaiter,
}

impl Signal<OwnedBool> {
    /// A closed signal with the default spin budget.
    pub fn new() -> (s: Self)
        ensures
            s.source.locked,
            s.parker == ParkWaiter::initial(),
    {
        Self::with_spin(DEFAULT_SPIN_ITERS)
    }

    /// A closed signal with its own spin budget; 0 parks right after the
    /// tight probes.
    pub fn with_spin(spin_iters: u32) -> (s: Self)
        ensures
            s.source.locked,
            s.parker == (ParkWaiter { spin_iters, ..ParkWaiter::initial() }),
    {
        Signal { source: OwnedBool::new_locked(), parker: ParkWaiter::with_spin(spin_iters) }
    }
}

impl Default for Signal<OwnedBool> {
    fn default() -> (s: Self)
        ensures
            s.source.locked,
            s.parker == ParkWaiter::initial(),
    {
        Self::new()
    }
}

impl Signal<BoolView> {
    /// A signal over a `bool` of the caller's.
    pub fn from_bool() -> (s: Self)
        ensures
            s.parker == ParkWaiter::initial(),
    {
        Self::with_source(BoolView, DEFAULT_SPIN_ITERS)
    }
}

impl Signal<BitView> {
    /// A signal over one bit of a word of the caller's.
    pub fn from_bit(bit: u8) -> (s: Self)
        requires
            bit < 64,
        ensures
            s.source.mask == crate::bits::bit(bit as int),
            s.source.valid(),
            s.parker == ParkWaiter::initial(),
    {
        proof {
            lemma_has_bit(bit as int, bit as int);
        }
        Self::with_source(BitView { mask: 1u64 << (bit as u64) }, DEFAULT_SPIN_ITERS)
    }
}

impl<S: SignalSource> Signal<S> {
    /// A signal over any source.
    pub fn with_source(source: S, spin_iters: u32) -> (s: Self)
        ensures
            s.source == source,
            s.parker == (ParkWaiter { spin_iters, ..ParkWaiter::initial() }),
    {
        Signal { source, parker: ParkWaiter::with_spin(spin_iters) }
    }

    /// Register the consumer.
    pub fn set_worker(&mut self)
        ensures
            *final(self) == (Signal { parker: old(self).parker.bound(), ..*old(self) }),
    {
        self.parker.set_worker();
    }

    /// Open the signal and wake a parked consumer.
    pub fn release(&mut self, cell: &mut S::Cell)
        ensures
            (final(self).source, *final(cell)) == old(self).source.after_open(*old(cell)),
            final(self).parker == old(self).parker.woken(),
    {
        self.source.open(cell);
        self.parker.wake();
    }

    /// Close the signal.
    pub fn lock(&mut self, cell: &mut S::Cell)
        ensures
            (final(self).source, *final(cell)) == old(self).source.after_close(*old(cell)),
            final(self).parker == old(self).parker,
    {
        self.source.close(cell);
    }

    /// True iff the signal is open.
    pub fn is_open(&self, cell: &S::Cell) -> (b: bool)
        ensures
            b == self.source.opened(*cell),
    {
        self.source.is_open(cell)
    }

    /// One operation of the consumer's wait for the signal to open, which
    /// starts at [`WaitPhase::Entry`]. The wait leaves the signal open.
    pub fn acquire(&mut self, cell: &S::Cell, at: WaitPhase) -> (next: WaitPhase)
        requires
            old(self).parker.registered || (at is Entry && old(self).source.opened(*cell)),
        ensures
            (final(self).parker, next) == old(self).parker.probed(
                at,
                old(self).source.opened(*cell),
            ),
            final(self).source == old(self).source,
    {
        let ready: bool = self.source.is_open(cell);
        self.parker.wait_until(at, ready)
    }
}

/// A signal after it was opened.
pub open spec fn released(s: Signal<OwnedBool>) -> Signal<OwnedBool> {
    Signal { source: OwnedBool { locked: false }, parker: s.parker.woken() }
}

/// A signal after it was closed.
pub open spec fn locked(s: Signal<OwnedBool>) -> Signal<OwnedBool> {
    Signal { source: OwnedBool { locked: true }, ..s }
}

/// Signals over different bits of one word do not disturb each other: opening
/// or closing the one leaves the other as it is.
pub proof fn bit_signals_are_independent(word: u64, i: int, j: int)
    requires
        0 <= i < 64,
        0 <= j < 64,
        i != j,
    ensures
        ({
            let a = BitView { mask: bit(i) };
            let b = BitView { mask: bit(j) };
            &&& b.opened(a.after_open(word).1) == b.opened(word)
            &&& b.opened(a.after_close(word).1) == b.opened(word)
        }),
{
    lemma_has_ops(word, bit(i), j);
    lemma_has_bit(j, i);
    assert(bit_set(word, j) == (word & bit(j) != 0));
    assert(bit_set(word | bit(i), j) == ((word | bit(i)) & bit(j) != 0));
    assert(bit_set(word & !bit(i), j) == ((word & !bit(i)) & bit(j) != 0));
}

/// A signal that was released is open until it is locked, and one that was
/// locked is closed until it is released, whatever its source.
pub proof fn release_opens_lock_closes<S: SignalSource>(source: S, cell: S::Cell)
    requires
        source.valid(),
    ensures
        ({
            let (s1, c1) = source.after_open(cell);
            let (s2, c2) = s1.after_close(c1);
            let (s3, c3) = s2.after_open(c2);
            &&& s1.opened(c1)
            &&& !s2.opened(c2)
            &&& s3.opened(c3)
        }),
{
    let (s1, c1) = source.after_open(cell);
    source.open_and_close(cell);
    s1.open_and_close(c1);
    let (s2, c2) = s1.after_close(c1);
    s2.open_and_close(c2);
}

} // verus!
