//! Bits of a `u64` word.
use vstd::prelude::*;
use vstd::std_specs::bits::axiom_u64_trailing_zeros;

verus! {

/// The word with only bit `i` set.
pub open spec fn bit(i: int) -> u64 {
    1u64 << (i as u64)
}

/// Bit `i` of `w` is set.
pub open spec fn bit_set(w: u64, i: int) -> bool {
    w & bit(i) != 0
}

/// The word whose lowest `n` bits are set.
pub open spec fn low_mask(n: int) -> u64 {
    if n >= 64 {
        u64::MAX
    } else {
        ((1u64 << (n as u64)) - 1) as u64
    }
}

/// Setting, clearing and selecting bits, bit by bit.
pub proof fn lemma_has_ops(a: u64, b: u64, i: int)
    requires
        0 <= i < 64,
    ensures
        bit_set(a | b, i) == (bit_set(a, i) || bit_set(b, i)),
        bit_set(a & b, i) == (bit_set(a, i) && bit_set(b, i)),
        bit_set(!a, i) == !bit_set(a, i),
        bit_set(a & !b, i) == (bit_set(a, i) && !bit_set(b, i)),
{
    let k = i as u64;
    assert(k < 64 ==> ((a | b) & (1u64 << k) != 0) == ((a & (1u64 << k) != 0) || (b & (1u64 << k)
        != 0))) by (bit_vector);
    assert(k < 64 ==> ((a & b) & (1u64 << k) != 0) == ((a & (1u64 << k) != 0) && (b & (1u64 << k)
        != 0))) by (bit_vector);
    assert(k < 64 ==> ((!a) & (1u64 << k) != 0) == !(a & (1u64 << k) != 0)) by (bit_vector);
    assert(k < 64 ==> ((a & !b) & (1u64 << k) != 0) == ((a & (1u64 << k) != 0) && !(b & (1u64 << k)
        != 0))) by (bit_vector);
}

/// Bit `i` of the word with only bit `j` set.
pub proof fn lemma_has_bit(i: int, j: int)
    requires
        0 <= i < 64,
        0 <= j < 64,
    ensures
        bit_set(bit(j), i) == (i == j),
        bit(j) != 0,
{
    let k = i as u64;
    let l = j as u64;
    assert(k < 64 && l < 64 ==> ((1u64 << l) & (1u64 << k) != 0) == (k == l)) by (bit_vector);
    assert(l < 64 ==> (1u64 << l) != 0) by (bit_vector);
}

/// The zero word has no bit set.
pub proof fn lemma_has_zero(i: int)
    requires
        0 <= i < 64,
    ensures
        !bit_set(0, i),
{
    let k = i as u64;
    assert(0u64 & (1u64 << k) == 0) by (bit_vector);
}

/// Bit `i` of a low mask.
pub proof fn lemma_has_low_mask(n: int, i: int)
    requires
        0 <= n <= 64,
        0 <= i < 64,
    ensures
        bit_set(low_mask(n), i) == (i < n),
{
    let k = i as u64;
    let m = n as u64;
    assert(k < 64 ==> u64::MAX & (1u64 << k) != 0) by (bit_vector);
    assert(m < 64 ==> (1u64 << m) >= 1) by (bit_vector);
    if n < 64 {
        let w = ((1u64 << m) - 1) as u64;
        assert(k < 64 && m < 64 && w == ((1u64 << m) - 1) as u64 ==> (w & (1u64 << k) != 0) == (k
            < m)) by (bit_vector);
    }
}

/// A word with a bit set is not zero.
pub proof fn lemma_has_nonzero(w: u64, i: int)
    requires
        bit_set(w, i),
    ensures
        w != 0,
{
    let k = i as u64;
    assert(0u64 & (1u64 << k) == 0) by (bit_vector);
}

/// The lowest set bit of a word.
pub proof fn lemma_trailing_zeros(w: u64)
    requires
        w != 0,
    ensures
        0 <= vstd::std_specs::bits::u64_trailing_zeros(w) < 64,
        bit_set(w, vstd::std_specs::bits::u64_trailing_zeros(w) as int),
        forall|j: int|
            0 <= j < vstd::std_specs::bits::u64_trailing_zeros(w) ==> !#[trigger] bit_set(w, j),
{
    axiom_u64_trailing_zeros(w);
    let t = vstd::std_specs::bits::u64_trailing_zeros(w) as u64;
    assert((w >> t) & 1u64 == 1u64);
    assert(t < 64 && (w >> t) & 1u64 == 1u64 ==> w & (1u64 << t) != 0) by (bit_vector);
    assert forall|j: int| 0 <= j < t implies !#[trigger] bit_set(w, j) by {
        let k = j as u64;
        assert((w >> k) & 1u64 == 0u64);
        assert(k < 64 && (w >> k) & 1u64 == 0u64 ==> w & (1u64 << k) == 0) by (bit_vector);
    }
}

/// Two words with the same bits are the same word.
pub proof fn lemma_same_bits(a: u64, b: u64)
    requires
        forall|i: int| 0 <= i < 64 ==> #[trigger] bit_set(a, i) == bit_set(b, i),
    ensures
        a == b,
{
    if a != b {
        let x = a ^ b;
        assert(a != b && x == a ^ b ==> x != 0) by (bit_vector);
        lemma_trailing_zeros(x);
        let t = vstd::std_specs::bits::u64_trailing_zeros(x) as u64;
        assert(bit_set(x, t as int));
        assert(t < 64 && x == a ^ b && x & (1u64 << t) != 0 ==> (a & (1u64 << t) != 0) != (b & (
        1u64 << t) != 0)) by (bit_vector);
        assert(bit_set(a, t as int) == bit_set(b, t as int));
    }
}

/// A word is zero iff none of its bits is set.
pub proof fn lemma_zero_iff(w: u64)
    ensures
        w == 0 <==> forall|i: int| 0 <= i < 64 ==> !#[trigger] bit_set(w, i),
{
    if w != 0 {
        lemma_trailing_zeros(w);
        assert(bit_set(w, vstd::std_specs::bits::u64_trailing_zeros(w) as int));
    } else {
        assert forall|i: int| 0 <= i < 64 implies !#[trigger] bit_set(w, i) by {
            lemma_has_zero(i);
        }
    }
}

} // verus!
