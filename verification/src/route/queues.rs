//! Several queues read by one consumer.
use vstd::prelude::*;

verus! {

/// Index of the first queue from `from` on that is not empty, or the number
/// of queues if there is none.
pub open spec fn first_nonempty<T>(qs: Seq<Seq<T>>, from: int) -> int
    decreases qs.len() - from,
{
    if from >= qs.len() {
        qs.len() as int
    } else if qs[from].len() > 0 {
        from
    } else {
        first_nonempty(qs, from + 1)
    }
}

/// The items of the first `n` queues, queue by queue.
pub open spec fn joined<T>(qs: Seq<Seq<T>>, n: int) -> Seq<T>
    decreases n,
{
    if n <= 0 {
        Seq::empty()
    } else {
        joined(qs, n - 1) + qs[n - 1]
    }
}

/// Some queue is not empty.
pub open spec fn any_ready<T>(qs: Seq<Seq<T>>) -> bool {
    exists|i: int| 0 <= i < qs.len() && (#[trigger] qs[i]).len() > 0
}

/// All queues are empty.
pub open spec fn all_empty<T>(qs: Seq<Seq<T>>) -> bool {
    forall|i: int| 0 <= i < qs.len() ==> (#[trigger] qs[i]).len() == 0
}

/// The queues after one item was taken from queue `i`.
pub open spec fn taken_at<T>(qs: Seq<Seq<T>>, i: int) -> Seq<Seq<T>> {
    qs.update(i, qs[i].drop_first())
}

pub proof fn lemma_first_nonempty<T>(qs: Seq<Seq<T>>, from: int)
    requires
        0 <= from <= qs.len(),
    ensures
        from <= first_nonempty(qs, from) <= qs.len(),
        forall|j: int| from <= j < first_nonempty(qs, from) ==> (#[trigger] qs[j]).len() == 0,
        first_nonempty(qs, from) < qs.len() ==> qs[first_nonempty(qs, from)].len() > 0,
    decreases qs.len() - from,
{
    if from < qs.len() && qs[from].len() == 0 {
        lemma_first_nonempty(qs, from + 1);
    }
}

/// The search result is the queue that a scan stops at.
pub proof fn lemma_first_nonempty_is<T>(qs: Seq<Seq<T>>, from: int, at: int)
    requires
        0 <= from <= at <= qs.len(),
        forall|j: int| from <= j < at ==> (#[trigger] qs[j]).len() == 0,
        at < qs.len() ==> qs[at].len() > 0,
    ensures
        first_nonempty(qs, from) == at,
    decreases at - from,
{
    if from < at {
        assert(qs[from].len() == 0);
        lemma_first_nonempty_is(qs, from + 1, at);
    }
}

/// Nothing is joined iff every queue is empty.
pub proof fn lemma_joined_empty<T>(qs: Seq<Seq<T>>, n: int)
    requires
        0 <= n <= qs.len(),
    ensures
        joined(qs, n).len() == 0 <==> forall|i: int| 0 <= i < n ==> (#[trigger] qs[i]).len() == 0,
    decreases n,
{
    if n > 0 {
        lemma_joined_empty(qs, n - 1);
        if joined(qs, n).len() == 0 {
            assert(joined(qs, n - 1).len() == 0);
        }
        if forall|i: int| 0 <= i < n ==> (#[trigger] qs[i]).len() == 0 {
            assert(qs[n - 1].len() == 0);
        }
    }
}

/// Each queue is a piece of what is joined, in its own order.
pub proof fn lemma_joined_holds<T>(qs: Seq<Seq<T>>, n: int, i: int)
    requires
        0 <= i < n <= qs.len(),
    ensures
        joined(qs, i).len() + qs[i].len() <= joined(qs, n).len(),
        joined(qs, n).subrange(
            joined(qs, i).len() as int,
            joined(qs, i).len() as int + qs[i].len(),
        ) == qs[i],
    decreases n,
{
    let from = joined(qs, i).len() as int;
    let to = from + qs[i].len();
    if i == n - 1 {
        assert(joined(qs, n).subrange(from, to) =~= qs[i]);
    } else {
        lemma_joined_holds(qs, n - 1, i);
        assert(joined(qs, n).subrange(from, to) =~= joined(qs, n - 1).subrange(from, to));
    }
}

/// As many queues, all of them empty, are the same.
pub proof fn lemma_all_empty_same<T>(a: Seq<Seq<T>>, b: Seq<Seq<T>>)
    requires
        a.len() == b.len(),
        all_empty(a),
        all_empty(b),
    ensures
        a == b,
{
    assert forall|i: int| 0 <= i < a.len() implies a[i] =~= b[i] by {
        assert(a[i].len() == 0 && b[i].len() == 0);
    }
    assert(a =~= b);
}

/// More queues hold no fewer items.
pub proof fn lemma_joined_grows<T>(qs: Seq<Seq<T>>, a: int, b: int)
    requires
        0 <= a <= b <= qs.len(),
    ensures
        joined(qs, a).len() <= joined(qs, b).len(),
    decreases b - a,
{
    if a < b {
        lemma_joined_grows(qs, a, b - 1);
    }
}

} // verus!
