//! Which consumer is woken, and shutdown.
use super::state::Synapse;
use crate::bits::{bit, bit_set, lemma_has_bit, lemma_has_nonzero, lemma_has_ops, lemma_trailing_zeros};
use crate::gate::signal::released;
use crate::round::{lemma_round, lemma_scan_is, scan};
use vstd::prelude::*;

verus! {

/// The bits of a word.
pub open spec fn word_bits(w: u64) -> Seq<bool> {
    Seq::new(64, |k: int| bit_set(w, k))
}

/// Where the search for an idle consumer starts: it moves on with the write
/// cursor, so that successive sends prefer different consumers.
pub open spec fn rotation(head: usize, n: int) -> int {
    (head as u32) as int % n
}

/// The idle consumer that is woken, of `n` consumers: the first idle one from
/// `rot` on; if there is none, whoever the wrapped search points at if that one
/// is idle, and otherwise the first idle one of all.
pub open spec fn wake_target(mask: u64, rot: int, n: int) -> int {
    let near = (scan(word_bits(mask), rot, 0) + rot) % n;
    if bit_set(mask, near) {
        near
    } else {
        scan(word_bits(mask), 0, 0)
    }
}

/// The word turned right by `r` bits.
fn rotate_right(w: u64, r: u32) -> (t: u64)
    requires
        r < 64,
    ensures
        forall|j: int| 0 <= j < 64 ==> #[trigger] bit_set(t, j) == bit_set(w, (j + r) % 64),
{
    if r == 0 {
        assert forall|j: int| 0 <= j < 64 implies #[trigger] bit_set(w, j) == bit_set(
            w,
            (j + r) % 64,
        ) by {
            assert((j + r) % 64 == j);
        }
        return w;
    }
    let up: u32 = 64 - r;
    let t: u64 = (w >> (r as u64)) | (w << (up as u64));
    proof {
        assert forall|j: int| 0 <= j < 64 implies #[trigger] bit_set(t, j) == bit_set(
            w,
            (j + r) % 64,
        ) by {
            let a = r as u64;
            let b = up as u64;
            let k = j as u64;
            let l = ((j + r) % 64) as u64;
            assert(l == (k + a) % 64);
            assert((((w >> a) | (w << b)) & (1u64 << k) != 0) == (w & (1u64 << l) != 0))
                by (bit_vector)
                requires
                    0 < a < 64,
                    b == 64 - a,
                    k < 64,
                    l == (k + a) % 64,
            ;
        }
    }
    t
}

impl<T, const CAP: usize, const N: usize> Synapse<T, CAP, N> {
    /// This transport is `before` after one idle consumer was woken, if there
    /// is one.
    pub open spec fn one_woken(&self, before: Self) -> bool {
        &&& self.buf == before.buf
        &&& self.not_full == before.not_full
        &&& self.shutdown == before.shutdown
        &&& if before.idle_mask == 0 {
            &&& self.idle_mask == 0
            &&& self.signals@ == before.signals@
        } else {
            let i = wake_target(
                before.idle_mask,
                rotation(before.buf.head(), N as int),
                N as int,
            );
            &&& 0 <= i < N
            &&& bit_set(before.idle_mask, i)
            &&& self.idle_mask == before.idle_mask & !bit(i)
            &&& self.signals@ == before.signals@.update(i, released(before.signals@[i]))
        }
    }

    /// Wake one idle consumer, if there is one.
    pub(crate) fn wake_consumers(&mut self)
        requires
            old(self).wf(),
        ensures
            final(self).wf(),
            final(self).one_woken(*old(self)),
    {
        let mask: u64 = self.idle_mask;
        if mask == 0 {
            return;
        }
        let head: usize = self.buf.head_cursor();
        let rot: u32 = (#[verifier::truncate] (head as u32)) % (N as u32);
        let rotated: u64 = rotate_right(mask, rot);
        proof {
            lemma_trailing_zeros(mask);
            let t = vstd::std_specs::bits::u64_trailing_zeros(mask) as int;
            let j = (t - rot + 64) % 64;
            assert(bit_set(mask, t));
            assert((j + rot) % 64 == t);
            assert(bit_set(rotated, j));
            lemma_has_nonzero(rotated, j);
            lemma_trailing_zeros(rotated);
        }
        let i_rot: u32 = rotated.trailing_zeros();
        let i: usize = ((i_rot + rot) as usize) % N;
        let only: u64 = 1u64 << (i as u64);
        assert(only == bit(i as int));
        proof {
            let bits = word_bits(mask);
            assert forall|j: int| 0 <= j < i_rot implies !#[trigger] bits[(rot + j) % 64] by {
                assert(!bit_set(rotated, j));
            }
            assert(bits[(rot + i_rot) % 64]) by {
                assert(bit_set(rotated, i_rot as int));
            }
            lemma_scan_is(bits, rot as int, 0, i_rot as int);
            assert(i as int == (scan(bits, rot as int, 0) + rot) % (N as int));
        }
        if mask & only != 0 {
            self.idle_mask = mask & !only;
            self.signals[i].release(&mut ());
            proof {
                lemma_clear_keeps_range(mask, i as int, N as int);
                assert(self.signals@[i as int] == released(old(self).signals@[i as int]));
            }
            return;
        }
        let low: u32 = mask.trailing_zeros();
        let j: usize = low as usize;
        proof {
            lemma_trailing_zeros(mask);
            let bits = word_bits(mask);
            assert forall|k: int| 0 <= k < low implies !#[trigger] bits[(0 + k) % 64] by {
                assert(!bit_set(mask, k));
            }
            assert(bits[(0 + low) % 64]);
            lemma_scan_is(bits, 0, 0, low as int);
            assert(bit_set(mask, low as int));
            assert(low < N);
            lemma_clear_keeps_range(mask, low as int, N as int);
        }
        self.idle_mask = mask & !(1u64 << (j as u64));
        self.signals[j].release(&mut ());
        assert(self.signals@[j as int] == released(old(self).signals@[j as int]));
    }

    /// Open every consumer's signal.
    pub(crate) fn wake_all_consumers(&mut self)
        requires
            old(self).wf(),
        ensures
            final(self).wf(),
            final(self).buf == old(self).buf,
            final(self).not_full == old(self).not_full,
            final(self).shutdown == old(self).shutdown,
            final(self).idle_mask == old(self).idle_mask,
            final(self).signals@ == Seq::new(N as nat, |i: int| released(old(self).signals@[i])),
    {
        let mut i: usize = 0;
        while i < N
            invariant
                i <= N,
                old(self).wf(),
                self.wf(),
                self.buf == old(self).buf,
                self.not_full == old(self).not_full,
                self.shutdown == old(self).shutdown,
                self.idle_mask == old(self).idle_mask,
                forall|j: int|
                    0 <= j < N ==> (#[trigger] self.signals@[j]) == (if j < i {
                        released(old(self).signals@[j])
                    } else {
                        old(self).signals@[j]
                    }),
            decreases N - i,
        {
            self.signals[i].release(&mut ());
            assert(self.signals@[i as int] == released(old(self).signals@[i as int]));
            i = i + 1;
        }
        assert(self.signals@ =~= Seq::new(N as nat, |i: int| released(old(self).signals@[i])));
    }

    /// End the transport: every consumer and the producer are woken. What is
    /// in flight can still be taken.
    pub fn shutdown(&mut self)
        requires
            old(self).wf(),
        ensures
            final(self).wf(),
            final(self).shutdown,
            final(self)@ == old(self)@,
            final(self).buf == old(self).buf,
            final(self).not_full == released(old(self).not_full),
            final(self).idle_mask == old(self).idle_mask,
            final(self).signals@ == Seq::new(N as nat, |i: int| released(old(self).signals@[i])),
    {
        self.shutdown = true;
        self.wake_all_consumers();
        self.not_full.release(&mut ());
    }

    /// True iff the transport was ended.
    pub fn is_shutdown(&self) -> (b: bool)
        ensures
            b == self.shutdown,
    {
        self.shutdown
    }
}

/// Clearing a bit sets no other.
pub(crate) proof fn lemma_clear_keeps_range(w: u64, i: int, n: int)
    requires
        0 <= i < 64,
        0 <= n <= 64,
        forall|k: int| n <= k < 64 ==> !#[trigger] bit_set(w, k),
    ensures
        forall|k: int| n <= k < 64 ==> !#[trigger] bit_set(w & !bit(i), k),
{
    assert forall|k: int| n <= k < 64 implies !#[trigger] bit_set(w & !bit(i), k) by {
        lemma_has_ops(w, bit(i), k);
        assert(!bit_set(w, k));
    }
}

/// Setting the bit of a consumer sets no other.
pub(crate) proof fn lemma_set_keeps_range(w: u64, i: int, n: int)
    requires
        0 <= i < n <= 64,
        forall|k: int| n <= k < 64 ==> !#[trigger] bit_set(w, k),
    ensures
        forall|k: int| n <= k < 64 ==> !#[trigger] bit_set(w | bit(i), k),
{
    assert forall|k: int| n <= k < 64 implies !#[trigger] bit_set(w | bit(i), k) by {
        lemma_has_ops(w, bit(i), k);
        lemma_has_bit(k, i);
        assert(!bit_set(w, k));
    }
}

/// Successive sends prefer different consumers: an idle consumer at the place
/// where the search starts is the one that is woken.
pub proof fn the_preferred_consumer_is_woken(mask: u64, rot: int, n: int)
    requires
        0 <= rot < n <= 64,
        bit_set(mask, rot),
    ensures
        wake_target(mask, rot, n) == rot,
{
    let bits = word_bits(mask);
    lemma_round(rot, 0, 64);
    assert(bits[(rot + 0) % 64]);
    lemma_scan_is(bits, rot, 0, 0);
    lemma_round(rot, 0, n);
}

} // verus!
