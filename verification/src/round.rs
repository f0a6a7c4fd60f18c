//! Going round a circle of indices.
use vstd::prelude::*;

verus! {

/// Distance from `start`, going round, to the first `true` of `ready` at a
/// distance of at least `k`; the number of entries if there is none.
pub open spec fn scan(ready: Seq<bool>, start: int, k: int) -> int
    decreases ready.len() - k,
{
    if k >= ready.len() {
        ready.len() as int
    } else if ready[(start + k) % (ready.len() as int)] {
        k
    } else {
        scan(ready, start, k + 1)
    }
}

/// A scan that ends before the circle does has found a `true`.
pub proof fn lemma_scan_finds(ready: Seq<bool>, start: int, k: int)
    requires
        0 <= k <= ready.len(),
    ensures
        k <= scan(ready, start, k) <= ready.len(),
        scan(ready, start, k) < ready.len() ==> ready[(start + scan(ready, start, k)) % (
        ready.len() as int)],
    decreases ready.len() - k,
{
    if k < ready.len() && !ready[(start + k) % (ready.len() as int)] {
        lemma_scan_finds(ready, start, k + 1);
    }
}

/// A scan stops at the first `true`.
pub proof fn lemma_scan_is(ready: Seq<bool>, start: int, k: int, at: int)
    requires
        0 <= k <= at <= ready.len(),
        forall|j: int| k <= j < at ==> !#[trigger] ready[(start + j) % (ready.len() as int)],
        at < ready.len() ==> ready[(start + at) % (ready.len() as int)],
    ensures
        scan(ready, start, k) == at,
    decreases at - k,
{
    if k < at {
        assert(!ready[(start + k) % (ready.len() as int)]);
        lemma_scan_is(ready, start, k + 1, at);
    }
}

/// Going round: `start + k` modulo `n`.
pub proof fn lemma_round(start: int, k: int, n: int)
    requires
        0 <= start < n,
        0 <= k <= n,
    ensures
        (start + k) % n == if start + k < n {
            start + k
        } else {
            start + k - n
        },
{
    if start + k < n {
        vstd::arithmetic::div_mod::lemma_small_mod((start + k) as nat, n as nat);
    } else {
        vstd::arithmetic::div_mod::lemma_mod_sub_multiples_vanish(start + k, n);
        vstd::arithmetic::div_mod::lemma_small_mod((start + k - n) as nat, n as nat);
    }
}

/// Every index is reached from `start` by going round.
pub proof fn lemma_round_back(start: int, s: int, n: int)
    requires
        0 <= start < n,
        0 <= s < n,
    ensures
        s >= start ==> (start + (s - start)) % n == s,
        s < start ==> (start + (s - start + n)) % n == s,
{
    lemma_round(start, if s >= start {
        s - start
    } else {
        s - start + n
    }, n);
}

} // verus!
