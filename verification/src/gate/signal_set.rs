//! Many signals, one consumer.
//!
//! Every gate of a [`SignalSet`] is one bit of a bitmap; set means open. The
//! consumer can wait for any gate, for all gates of a mask, or for anything at
//! all, and is woken when a gate goes from closed to open.
use crate::bits::{bit, bit_set, lemma_has_bit, lemma_has_ops, lemma_zero_iff};
use crate::waiter::{AsyncWaiter, AwaitPhase, BlockingWaiter, ParkWaiter, WaitPhase, Waiter};
use vstd::prelude::*;

verus! {

/// Gates of one bitmap word; the reach of the mask-based operations.
pub const MAX_GATES: usize = 64;

/// Handle of one gate.
#[derive(Debug, Clone, Copy, PartialEq, Eq, Hash, Structural)]
pub struct SignalId(pub u8);

impl SignalId {
    /// Wrap a raw index.
    pub fn new(idx: u8) -> (id: Self)
        ensures
            id.0 == idx,
    {
        SignalId(idx)
    }

    /// The raw index.
    pub fn index(self) -> (i: u8)
        ensures
            i == self.0,
    {
        self.0
    }

    /// The mask with only this gate's bit set, for a gate of the first word.
    pub fn mask(self) -> (m: u64)
        requires
            self.0 < 64,
        ensures
            m == bit(self.0 as int),
    {
        1u64 << (self.0 as u64)
    }
}

/// A bitmap of gates with the consumer that waits for them.
pub struct SignalSet<W: Waiter = ParkWaiter> {
    /// Bit `b` of word `c` belongs to gate `64 * c + b`.
    pub chunks: Vec<u64>,
    pub waiter: W,
    /// Names of the registered gates.
    pub names: Vec<Option<&'static str>>,
    /// Index of the next gate to register.
    pub next_id: u32,
}

/// Word of gate `i`.
pub open spec fn chunk_of(i: int) -> int {
    i / 64
}

/// Bit of gate `i` in its word.
pub open spec fn place_of(i: int) -> int {
    i % 64
}

/// Words needed for `n_bits` gates; at least one.
pub open spec fn chunks_for(n_bits: int) -> int {
    if n_bits <= 0 {
        1
    } else {
        (n_bits + 63) / 64
    }
}

impl<W: Waiter> Default for SignalSet<W> {
    /// A set with one word; see [`SignalSet::new`].
    fn default() -> (s: Self)
        ensures
            s.wf(),
            s.chunks@ == seq![0u64],
            s.next_id == 0,
            s.waiter == W::initial(),
    {
        Self::new()
    }
}

impl<W: Waiter> SignalSet<W> {
    /// Validity: there is a word, every gate can have a name, and exactly the
    /// registered gates have one.
    pub open spec fn wf(&self) -> bool {
        &&& self.chunks@.len() >= 1
        &&& self.names@.len() == self.chunks@.len() * 64
        &&& self.next_id <= self.names@.len()
        &&& self.next_id <= 256
        &&& forall|i: int| 0 <= i < self.next_id ==> (#[trigger] self.names@[i]) is Some
        &&& forall|i: int|
            self.next_id <= i < self.names@.len() ==> (#[trigger] self.names@[i]) is None
    }

    /// Number of gates the bitmap has room for.
    pub open spec fn capacity(&self) -> int {
        self.chunks@.len() as int * 64
    }

    /// Gate `i` is open.
    pub open spec fn opened(&self, i: int) -> bool {
        bit_set(self.chunks@[chunk_of(i)], place_of(i))
    }

    /// Some gate of any word is open.
    pub open spec fn anything_open(&self) -> bool {
        exists|c: int| 0 <= c < self.chunks@.len() && (#[trigger] self.chunks@[c]) != 0
    }

    /// A set with one word.
    pub fn new() -> (s: Self)
        ensures
            s.wf(),
            s.chunks@ == seq![0u64],
            s.next_id == 0,
            s.waiter == W::initial(),
    {
        let s: SignalSet<W> = Self::with_capacity(MAX_GATES);
        assert(s.chunks@ =~= seq![0u64]);
        s
    }

    /// A set with room for at least `n_bits` gates, all of them closed.
    pub fn with_capacity(n_bits: usize) -> (s: Self)
        requires
            chunks_for(n_bits as int) * 64 <= usize::MAX,
        ensures
            s.wf(),
            s.chunks@.len() == chunks_for(n_bits as int),
            forall|c: int| 0 <= c < s.chunks@.len() ==> (#[trigger] s.chunks@[c]) == 0,
            s.next_id == 0,
            s.waiter == W::initial(),
    {
        let n_chunks: usize = if n_bits == 0 {
            1
        } else {
            (n_bits - 1) / 64 + 1
        };
        let cap_bits: usize = n_chunks * 64;
        let mut chunks: Vec<u64> = Vec::new();
        let mut c: usize = 0;
        while c < n_chunks
            invariant
                c <= n_chunks,
                chunks@.len() == c,
                forall|j: int| 0 <= j < c ==> (#[trigger] chunks@[j]) == 0,
            decreases n_chunks - c,
        {
            chunks.push(0);
            c = c + 1;
        }
        let mut names: Vec<Option<&'static str>> = Vec::new();
        let mut k: usize = 0;
        while k < cap_bits
            invariant
                k <= cap_bits,
                names@.len() == k,
                forall|j: int| 0 <= j < k ==> (#[trigger] names@[j]) is None,
            decreases cap_bits - k,
        {
            names.push(None);
            k = k + 1;
        }
        SignalSet { chunks, waiter: W::fresh(), names, next_id: 0 }
    }

    /// The waiter of this set.
    pub fn waiter(&self) -> (w: &W)
        ensures
            *w == self.waiter,
    {
        &self.waiter
    }

    /// Number of words.
    pub fn n_chunks(&self) -> (n: usize)
        ensures
            n == self.chunks@.len(),
    {
        self.chunks.len()
    }

    /// Number of gates the bitmap has room for.
    pub fn capacity_bits(&self) -> (n: usize)
        requires
            self.wf(),
        ensures
            n == self.capacity(),
    {
        self.names.len()
    }

    /// Register the next gate under `name`. Indices are handed out in order,
    /// from 0.
    pub fn create(&mut self, name: &'static str) -> (id: SignalId)
        requires
            old(self).wf(),
            old(self).next_id < old(self).capacity(),
            old(self).next_id < 256,
        ensures
            final(self).wf(),
            id.0 == old(self).next_id,
            final(self).next_id == old(self).next_id + 1,
            final(self).names@ == old(self).names@.update(old(self).next_id as int, Some(name)),
            final(self).chunks@ == old(self).chunks@,
            final(self).waiter == old(self).waiter,
    {
        let at: usize = self.next_id as usize;
        let id: u8 = self.next_id as u8;
        self.next_id = self.next_id + 1;
        self.names[at] = Some(name);
        SignalId(id)
    }

    /// Name of a gate, if it is registered.
    pub fn name(&self, id: SignalId) -> (n: Option<&'static str>)
        requires
            self.wf(),
        ensures
            n == (if id.0 < self.next_id {
                self.names@[id.0 as int]
            } else {
                None
            }),
            n is Some <==> id.0 < self.next_id,
    {
        let at: usize = id.0 as usize;
        if at < self.names.len() {
            self.names[at]
        } else {
            None
        }
    }

    /// Gate `i` is registered under `name`.
    pub open spec fn named(&self, i: int, name: Seq<char>) -> bool {
        &&& 0 <= i < self.next_id
        &&& self.names@[i] is Some
        &&& self.names@[i]->0@ == name
    }

    /// The same gates are registered as in `before`, under the same names.
    pub open spec fn gates_kept(&self, before: Self) -> bool {
        &&& self.names@ == before.names@
        &&& self.next_id == before.next_id
    }

    /// `r` is the first gate registered under `name`, or `None` if there is
    /// none.
    pub open spec fn first_named(&self, name: Seq<char>, r: Option<SignalId>) -> bool {
        match r {
            Some(id) => self.named(id.0 as int, name) && forall|j: int|
                0 <= j < id.0 ==> !#[trigger] self.named(j, name),
            None => forall|j: int| !#[trigger] self.named(j, name),
        }
    }

    /// The first gate registered under `name`.
    pub fn id_of(&self, name: &str) -> (r: Option<SignalId>)
        requires
            self.wf(),
        ensures
            self.first_named(name@, r),
    {
        let wanted: String = name.to_owned();
        let n: usize = self.next_id as usize;
        let mut i: usize = 0;
        while i < n
            invariant
                self.wf(),
                n == self.next_id,
                i <= n,
                wanted@ == name@,
                forall|j: int| 0 <= j < i ==> !#[trigger] self.named(j, name@),
            decreases n - i,
        {
            if let Some(s) = self.names[i] {
                let here: String = s.to_owned();
                if here == wanted {
                    assert(self.named(i as int, name@));
                    return Some(SignalId(i as u8));
                }
            }
            i = i + 1;
        }
        None
    }

    /// Number of gates registered.
    pub fn registered(&self) -> (n: usize)
        ensures
            n == self.next_id,
    {
        self.next_id as usize
    }

    /// Register the consumer.
    pub fn set_worker(&mut self)
        ensures
            *final(self) == (SignalSet { waiter: old(self).waiter.bound(), ..*old(self) }),
    {
        self.waiter.set_worker();
    }

    /// True iff the consumer has registered, or need not.
    pub fn has_worker(&self) -> (b: bool)
        ensures
            b == self.waiter.registered(),
    {
        self.waiter.has_worker()
    }

    /// Open one gate. The consumer is woken iff that gate was closed.
    pub fn release(&mut self, id: SignalId)
        requires
            old(self).wf(),
            id.0 < old(self).capacity(),
        ensures
            final(self).wf(),
            final(self).chunks@ == old(self).chunks@.update(
                chunk_of(id.0 as int),
                old(self).chunks@[chunk_of(id.0 as int)] | bit(place_of(id.0 as int)),
            ),
            final(self).waiter == (if old(self).opened(id.0 as int) {
                old(self).waiter
            } else {
                old(self).waiter.woken()
            }),
            final(self).names@ == old(self).names@,
            final(self).next_id == old(self).next_id,
    {
        let chunk: usize = (id.0 as usize) / 64;
        let place: u64 = (id.0 as u64) % 64;
        let b: u64 = 1u64 << place;
        let prev: u64 = self.chunks[chunk];
        self.chunks[chunk] = prev | b;
        if (prev & b) == 0 {
            self.waiter.wake();
        }
    }

    /// Close one gate.
    pub fn lock(&mut self, id: SignalId)
        requires
            old(self).wf(),
            id.0 < old(self).capacity(),
        ensures
            final(self).wf(),
            final(self).chunks@ == old(self).chunks@.update(
                chunk_of(id.0 as int),
                old(self).chunks@[chunk_of(id.0 as int)] & !bit(place_of(id.0 as int)),
            ),
            final(self).waiter == old(self).waiter,
            final(self).names@ == old(self).names@,
            final(self).next_id == old(self).next_id,
    {
        let chunk: usize = (id.0 as usize) / 64;
        let place: u64 = (id.0 as u64) % 64;
        let b: u64 = 1u64 << place;
        self.chunks[chunk] = self.chunks[chunk] & !b;
    }

    /// Close every gate of the first word that is in `mask`.
    pub fn lock_mask(&mut self, mask: u64)
        requires
            old(self).wf(),
        ensures
            final(self).wf(),
            final(self).chunks@ == old(self).chunks@.update(0, old(self).chunks@[0] & !mask),
            final(self).waiter == old(self).waiter,
            final(self).names@ == old(self).names@,
            final(self).next_id == old(self).next_id,
    {
        self.chunks[0] = self.chunks[0] & !mask;
    }

    /// Close every gate of one word that is in `mask`.
    pub fn lock_chunk_mask(&mut self, chunk: usize, mask: u64)
        requires
            old(self).wf(),
            chunk < old(self).chunks@.len(),
        ensures
            final(self).wf(),
            final(self).chunks@ == old(self).chunks@.update(
                chunk as int,
                old(self).chunks@[chunk as int] & !mask,
            ),
            final(self).waiter == old(self).waiter,
            final(self).names@ == old(self).names@,
            final(self).next_id == old(self).next_id,
    {
        self.chunks[chunk] = self.chunks[chunk] & !mask;
    }

    /// True iff this gate is open.
    pub fn is_open(&self, id: SignalId) -> (b: bool)
        requires
            self.wf(),
            id.0 < self.capacity(),
        ensures
            b == self.opened(id.0 as int),
    {
        let chunk: usize = (id.0 as usize) / 64;
        let place: u64 = (id.0 as u64) % 64;
        (self.chunks[chunk] & (1u64 << place)) != 0
    }

    /// True iff a gate of the first word that is in `mask` is open.
    pub fn any_open(&self, mask: u64) -> (b: bool)
        requires
            self.wf(),
        ensures
            b == (self.chunks@[0] & mask != 0),
    {
        (self.chunks[0] & mask) != 0
    }

    /// True iff every gate of the first word that is in `mask` is open.
    pub fn all_open(&self, mask: u64) -> (b: bool)
        requires
            self.wf(),
        ensures
            b == (self.chunks@[0] & mask == mask),
    {
        (self.chunks[0] & mask) == mask
    }

    /// The first word.
    pub fn state(&self) -> (w: u64)
        requires
            self.wf(),
        ensures
            w == self.chunks@[0],
    {
        self.chunks[0]
    }

    /// One word.
    pub fn state_chunk(&self, idx: usize) -> (w: u64)
        requires
            self.wf(),
            idx < self.chunks@.len(),
        ensures
            w == self.chunks@[idx as int],
    {
        self.chunks[idx]
    }

    /// True iff a gate of any word is open.
    pub fn any_chunk_open(&self) -> (b: bool)
        ensures
            b == self.anything_open(),
    {
        let mut c: usize = 0;
        while c < self.chunks.len()
            invariant
                c <= self.chunks@.len(),
                forall|j: int| 0 <= j < c ==> (#[trigger] self.chunks@[j]) == 0,
            decreases self.chunks@.len() - c,
        {
            if self.chunks[c] != 0 {
                return true;
            }
            c = c + 1;
        }
        false
    }
}

impl<W: BlockingWaiter> SignalSet<W> {
    /// One operation of a wait that starts at [`WaitPhase::Entry`] and ends
    /// when a gate of `mask` is open.
    pub fn acquire_any(&mut self, mask: u64, at: WaitPhase) -> (next: WaitPhase)
        requires
            old(self).wf(),
            old(self).waiter.registered() || (at is Entry && old(self).chunks@[0] & mask != 0),
        ensures
            final(self).wf(),
            (final(self).waiter, next) == old(self).waiter.probed(
                at,
                old(self).chunks@[0] & mask != 0,
            ),
            *final(self) == (SignalSet { waiter: final(self).waiter, ..*old(self) }),
    {
        let ready: bool = self.any_open(mask);
        self.waiter.wait_until(at, ready)
    }

    /// One operation of a wait that starts at [`WaitPhase::Entry`] and ends
    /// when every gate of `mask` is open.
    pub fn acquire_all(&mut self, mask: u64, at: WaitPhase) -> (next: WaitPhase)
        requires
            old(self).wf(),
            old(self).waiter.registered() || (at is Entry && old(self).chunks@[0] & mask == mask),
        ensures
            final(self).wf(),
            (final(self).waiter, next) == old(self).waiter.probed(
                at,
                old(self).chunks@[0] & mask == mask,
            ),
            *final(self) == (SignalSet { waiter: final(self).waiter, ..*old(self) }),
    {
        let ready: bool = self.all_open(mask);
        self.waiter.wait_until(at, ready)
    }

    /// One operation of a wait that starts at [`WaitPhase::Entry`] and ends
    /// when any gate of the first word is open.
    pub fn acquire(&mut self, at: WaitPhase) -> (next: WaitPhase)
        requires
            old(self).wf(),
            old(self).waiter.registered() || (at is Entry && old(self).chunks@[0] != 0),
        ensures
            final(self).wf(),
            (final(self).waiter, next) == old(self).waiter.probed(at, old(self).chunks@[0] != 0),
            *final(self) == (SignalSet { waiter: final(self).waiter, ..*old(self) }),
    {
        let ready: bool = self.state() != 0;
        self.waiter.wait_until(at, ready)
    }

    /// One operation of a wait that starts at [`WaitPhase::Entry`] and ends
    /// when any gate of any word is open.
    pub fn acquire_any_chunk(&mut self, at: WaitPhase) -> (next: WaitPhase)
        requires
            old(self).wf(),
            old(self).waiter.registered() || (at is Entry && old(self).anything_open()),
        ensures
            final(self).wf(),
            (final(self).waiter, next) == old(self).waiter.probed(at, old(self).anything_open()),
            *final(self) == (SignalSet { waiter: final(self).waiter, ..*old(self) }),
    {
        let ready: bool = self.any_chunk_open();
        self.waiter.wait_until(at, ready)
    }
}

impl<W: AsyncWaiter> SignalSet<W> {
    /// One operation of an awaited [`SignalSet::acquire_any`].
    pub fn acquire_any_async(&mut self, mask: u64, at: AwaitPhase) -> (next: AwaitPhase)
        requires
            old(self).wf(),
            old(self).waiter.can_poll(at),
        ensures
            final(self).wf(),
            (final(self).waiter, next) == old(self).waiter.polled(
                at,
                old(self).chunks@[0] & mask != 0,
            ),
            *final(self) == (SignalSet { waiter: final(self).waiter, ..*old(self) }),
    {
        let ready: bool = self.any_open(mask);
        self.waiter.wait_until(at, ready)
    }

    /// One operation of an awaited [`SignalSet::acquire_all`].
    pub fn acquire_all_async(&mut self, mask: u64, at: AwaitPhase) -> (next: AwaitPhase)
        requires
            old(self).wf(),
            old(self).waiter.can_poll(at),
        ensures
            final(self).wf(),
            (final(self).waiter, next) == old(self).waiter.polled(
                at,
                old(self).chunks@[0] & mask == mask,
            ),
            *final(self) == (SignalSet { waiter: final(self).waiter, ..*old(self) }),
    {
        let ready: bool = self.all_open(mask);
        self.waiter.wait_until(at, ready)
    }

    /// One operation of an awaited [`SignalSet::acquire`].
    pub fn acquire_async(&mut self, at: AwaitPhase) -> (next: AwaitPhase)
        requires
            old(self).wf(),
            old(self).waiter.can_poll(at),
        ensures
            final(self).wf(),
            (final(self).waiter, next) == old(self).waiter.polled(at, old(self).chunks@[0] != 0),
            *final(self) == (SignalSet { waiter: final(self).waiter, ..*old(self) }),
    {
        let ready: bool = self.state() != 0;
        self.waiter.wait_until(at, ready)
    }

    /// One operation of an awaited [`SignalSet::acquire_any_chunk`].
    pub fn acquire_any_chunk_async(&mut self, at: AwaitPhase) -> (next: AwaitPhase)
        requires
            old(self).wf(),
            old(self).waiter.can_poll(at),
        ensures
            final(self).wf(),
            (final(self).waiter, next) == old(self).waiter.polled(at, old(self).anything_open()),
            *final(self) == (SignalSet { waiter: final(self).waiter, ..*old(self) }),
    {
        let ready: bool = self.any_chunk_open();
        self.waiter.wait_until(at, ready)
    }
}

/// Opening gate `i` opens that gate and changes no other; closing it closes
/// that gate and changes no other.
pub proof fn gates_are_independent(chunks: Seq<u64>, i: int, j: int)
    requires
        0 <= i < chunks.len() * 64,
        0 <= j < chunks.len() * 64,
    ensures
        ({
            let w = chunks[chunk_of(i)];
            let opened = chunks.update(chunk_of(i), w | bit(place_of(i)));
            let closed = chunks.update(chunk_of(i), w & !bit(place_of(i)));
            &&& bit_set(opened[chunk_of(j)], place_of(j)) == (j == i || bit_set(
                chunks[chunk_of(j)],
                place_of(j),
            ))
            &&& bit_set(closed[chunk_of(j)], place_of(j)) == (j != i && bit_set(
                chunks[chunk_of(j)],
                place_of(j),
            ))
        }),
{
    let w = chunks[chunk_of(i)];
    lemma_has_ops(w, bit(place_of(i)), place_of(j));
    lemma_has_bit(place_of(j), place_of(i));
}

/// A gate stays open, however often it is released, until it is locked:
/// releasing an open gate changes no bit.
pub proof fn releases_coalesce(word: u64, b: int)
    requires
        0 <= b < 64,
        bit_set(word, b),
    ensures
        word | bit(b) == word,
{
    let k = b as u64;
    assert(k < 64 && word & (1u64 << k) != 0 ==> word | (1u64 << k) == word) by (bit_vector);
}

/// What the mask-based questions mean gate by gate.
pub proof fn masks_ask_gate_by_gate(word: u64, mask: u64)
    ensures
        word & mask != 0 <==> exists|i: int| 0 <= i < 64 && bit_set(mask, i) && #[trigger] bit_set(word, i),
        word & mask == mask <==> forall|i: int|
            0 <= i < 64 && bit_set(mask, i) ==> #[trigger] bit_set(word, i),
{
    lemma_zero_iff(word & mask);
    assert forall|i: int| 0 <= i < 64 implies #[trigger] bit_set(word & mask, i) == (bit_set(word, i)
        && bit_set(mask, i)) by {
        lemma_has_ops(word, mask, i);
    }
    if word & mask != 0 {
        let i = choose|i: int| 0 <= i < 64 && bit_set(word & mask, i);
        assert(bit_set(word, i));
    }
    if exists|i: int| 0 <= i < 64 && bit_set(mask, i) && #[trigger] bit_set(word, i) {
        let i = choose|i: int| 0 <= i < 64 && bit_set(mask, i) && #[trigger] bit_set(word, i);
        assert(bit_set(word & mask, i));
    }
    if word & mask == mask {
        assert forall|i: int| 0 <= i < 64 && bit_set(mask, i) implies #[trigger] bit_set(word, i) by {
            assert(bit_set(word & mask, i) == bit_set(mask, i));
        }
    }
    if forall|i: int| 0 <= i < 64 && bit_set(mask, i) ==> #[trigger] bit_set(word, i) {
        assert forall|i: int| 0 <= i < 64 implies #[trigger] bit_set(word & mask, i) == bit_set(mask, i) by {
            assert(bit_set(word, i) || !bit_set(word, i));
        }
        crate::bits::lemma_same_bits(word & mask, mask);
    }
}

} // verus!
