//! Modular cursor arithmetic shared by the bounded transports.
//!
//! Cursors are `usize` values that run freely and wrap around. A buffer of
//! `cap` slots, `cap` a power of two, stores position `p` in slot `p % cap`;
//! because `cap` divides the cursor range, the slot of a position does not
//! change when the cursor wraps.
use vstd::prelude::*;
use vstd::arithmetic::power2::{lemma_pow2_adds, lemma_pow2_pos, lemma_pow2_strictly_increases, pow2};
use vstd::arithmetic::div_mod::{lemma_mod_multiples_basic, lemma_mod_multiples_vanish};

verus! {

/// `n` is a power of two.
pub open spec fn is_pow2(n: int) -> bool {
    exists|k: nat| n == #[trigger] pow2(k)
}

/// Number of distinct `usize` values.
pub open spec fn cursor_range() -> int {
    usize::MAX + 1
}

/// Distance from cursor `b` forward to cursor `a`.
pub open spec fn ahead(a: usize, b: usize) -> int {
    if a >= b {
        a - b
    } else {
        a - b + cursor_range()
    }
}

/// Cursor `a` moved forward by `n` positions.
pub open spec fn forward(a: usize, n: int) -> usize {
    if a + n < cursor_range() {
        (a + n) as usize
    } else {
        (a + n - cursor_range()) as usize
    }
}

pub proof fn lemma_cursor_range_is_pow2()
    ensures
        cursor_range() == pow2(usize::BITS as nat),
{
    vstd::layout::unsigned_int_max_values();
    vstd::arithmetic::power2::lemma2_to64();
    vstd::arithmetic::power2::lemma2_to64_rest();
}

/// A power-of-two capacity divides the cursor range.
pub proof fn lemma_cap_divides_range(cap: usize)
    requires
        is_pow2(cap as int),
    ensures
        cap > 0,
        cursor_range() % (cap as int) == 0,
        cap < cursor_range(),
{
    lemma_cursor_range_is_pow2();
    let k = choose|k: nat| cap as int == #[trigger] pow2(k);
    let b = usize::BITS as nat;
    lemma_pow2_pos(k);
    if k >= b {
        if k > b {
            lemma_pow2_strictly_increases(b, k);
        }
        assert(false);
    }
    lemma_pow2_adds(k, (b - k) as nat);
    let q = pow2((b - k) as nat) as int;
    assert(cursor_range() == q * cap as int) by (nonlinear_arith)
        requires
            cursor_range() == cap as int * q,
    ;
    lemma_mod_multiples_basic(q, cap as int);
}

/// The slot of a position does not depend on whether the cursor has wrapped.
pub proof fn lemma_slot_of_forward(cap: usize, a: usize, n: int)
    requires
        is_pow2(cap as int),
        0 <= n < cursor_range(),
    ensures
        forward(a, n) as int % cap as int == (a + n) % (cap as int),
{
    lemma_cap_divides_range(cap);
    if a + n >= cursor_range() {
        let q = cursor_range() / (cap as int);
        vstd::arithmetic::div_mod::lemma_fundamental_div_mod(cursor_range(), cap as int);
        assert(cursor_range() == (cap as int) * q);
        lemma_mod_multiples_vanish(q, a + n - cursor_range(), cap as int);
    }
}

/// Positions less than `cap` apart lie in different slots.
pub proof fn lemma_slots_distinct(cap: int, p: int, q: int)
    requires
        0 < cap,
        0 <= p < q < p + cap,
    ensures
        p % cap != q % cap,
{
    if p % cap == q % cap {
        vstd::arithmetic::div_mod::lemma_fundamental_div_mod(p, cap);
        vstd::arithmetic::div_mod::lemma_fundamental_div_mod(q, cap);
        let a = p / cap;
        let b = q / cap;
        assert(q - p == cap * b - cap * a);
        assert(cap * b - cap * a == cap * (b - a)) by (nonlinear_arith);
        assert(false) by (nonlinear_arith)
            requires
                0 < cap,
                0 < cap * (b - a) < cap,
        ;
    }
}

} // verus!
