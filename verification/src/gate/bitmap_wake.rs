//! Why a consumer that clears the bits of its shard before it sleeps misses no
//! item, however it and the producers interleave.
//!
//! Every step is one operation of one party on the shard: an item put into or
//! taken from a ring, a bit set, all bits cleared, a look at one ring. The
//! operations of a channel are runs of such steps; see
//! [`crate::gate::shard_history`].
use vstd::prelude::*;

verus! {

/// Where the consumer of a shard stands.
pub enum ShardConsumerAt {
    /// It takes items from rings whose bit is set.
    Take,
    /// It found nothing and is about to clear all bits.
    Clear,
    /// It looks at every ring once more, this one being next; whether it has
    /// found an item so far.
    Recheck(int, bool),
    /// It sleeps until a bit is set or it is told of a shutdown.
    Park,
}

/// One shard with its consumer and its producers.
#[verifier::ext_equal]
pub struct ShardWorld {
    /// Number of items in each ring.
    pub items: Seq<int>,
    /// The bits that are set.
    pub bits: Set<int>,
    /// The producer has put an item into its ring and not set its bit yet.
    pub posting: Seq<bool>,
    /// The bit that stands for a shutdown is set.
    pub told: bool,
    pub consumer: ShardConsumerAt,
}

/// Producer `p` puts `n` items into its ring.
pub open spec fn posts(s: ShardWorld, t: ShardWorld, p: int, n: int) -> bool {
    &&& 0 <= p < s.items.len()
    &&& n > 0
    &&& !s.posting[p]
    &&& t == (ShardWorld {
        items: s.items.update(p, s.items[p] + n),
        posting: s.posting.update(p, true),
        ..s
    })
}

/// Producer `p` sets its bit.
pub open spec fn marks(s: ShardWorld, t: ShardWorld, p: int) -> bool {
    &&& 0 <= p < s.items.len()
    &&& s.posting[p]
    &&& t == (ShardWorld { bits: s.bits.insert(p), posting: s.posting.update(p, false), ..s })
}

/// The consumer takes `n` items from ring `p`, whose bit is set.
pub open spec fn takes(s: ShardWorld, t: ShardWorld, p: int, n: int) -> bool {
    &&& s.consumer is Take
    &&& 0 <= p < s.items.len()
    &&& s.bits.contains(p)
    &&& 0 < n <= s.items[p]
    &&& t == (ShardWorld { items: s.items.update(p, s.items[p] - n), ..s })
}

/// The shard is told of a shutdown.
pub open spec fn ends(s: ShardWorld, t: ShardWorld) -> bool {
    t == (ShardWorld { told: true, ..s })
}

/// The consumer has seen the shutdown and clears its bit.
pub open spec fn forgets(s: ShardWorld, t: ShardWorld) -> bool {
    &&& s.consumer is Take
    &&& t == (ShardWorld { told: false, ..s })
}

/// The consumer goes on without taking anything.
pub open spec fn goes_on(s: ShardWorld, t: ShardWorld) -> bool {
    match s.consumer {
        ShardConsumerAt::Take => t == (ShardWorld { consumer: ShardConsumerAt::Clear, ..s }),
        ShardConsumerAt::Clear => t == (ShardWorld {
            bits: Set::empty(),
            consumer: ShardConsumerAt::Recheck(0, false),
            ..s
        }),
        ShardConsumerAt::Recheck(p, found) => if p >= s.items.len() {
            t == (ShardWorld {
                consumer: if found {
                    ShardConsumerAt::Take
                } else {
                    ShardConsumerAt::Park
                },
                ..s
            })
        } else if s.items[p] > 0 {
            t == (ShardWorld {
                bits: s.bits.insert(p),
                consumer: ShardConsumerAt::Recheck(p + 1, true),
                ..s
            })
        } else {
            t == (ShardWorld { consumer: ShardConsumerAt::Recheck(p + 1, found), ..s })
        },
        ShardConsumerAt::Park => (s.told || !(s.bits =~= Set::<int>::empty())) && t == (
        ShardWorld { consumer: ShardConsumerAt::Take, ..s }),
    }
}

/// One step of any of the parties.
pub open spec fn shard_step(s: ShardWorld, t: ShardWorld) -> bool {
    ||| exists|p: int, n: int| #[trigger] posts(s, t, p, n)
    ||| exists|p: int| #[trigger] marks(s, t, p)
    ||| exists|p: int, n: int| #[trigger] takes(s, t, p, n)
    ||| goes_on(s, t)
    ||| ends(s, t)
    ||| forgets(s, t)
}

/// Nobody has done anything yet.
pub open spec fn shard_init(s: ShardWorld) -> bool {
    &&& s.posting.len() == s.items.len()
    &&& s.bits =~= Set::<int>::empty()
    &&& !s.told
    &&& s.consumer is Take
    &&& forall|p: int| 0 <= p < s.items.len() ==> (#[trigger] s.items[p]) == 0 && !s.posting[p]
}

/// Step `k` of an execution.
pub open spec fn shard_step_at(trace: Seq<ShardWorld>, k: int) -> bool {
    shard_step(trace[k], trace[k + 1])
}

/// An execution from an initial state.
pub open spec fn shard_execution(trace: Seq<ShardWorld>) -> bool {
    &&& trace.len() > 0
    &&& shard_init(trace[0])
    &&& forall|k: int| 0 <= k < trace.len() - 1 ==> #[trigger] shard_step_at(trace, k)
}

/// The consumer will still look at ring `p` before it sleeps.
pub open spec fn will_look(s: ShardWorld, p: int) -> bool {
    s.consumer matches ShardConsumerAt::Recheck(q, _) && q <= p
}

spec fn shard_inv(s: ShardWorld) -> bool {
    &&& s.posting.len() == s.items.len()
    &&& s.consumer matches ShardConsumerAt::Recheck(q, _) ==> q >= 0
    &&& forall|p: int|
        0 <= p < s.items.len() && (#[trigger] s.items[p]) > 0 ==> s.bits.contains(p)
            || s.posting[p] || will_look(s, p)
}

proof fn lemma_shard_inv(trace: Seq<ShardWorld>, k: int)
    requires
        shard_execution(trace),
        0 <= k < trace.len(),
    ensures
        shard_inv(trace[k]),
    decreases k,
{
    if k > 0 {
        lemma_shard_inv(trace, k - 1);
        assert(shard_step_at(trace, k - 1));
        let s = trace[k - 1];
        let t = trace[k];
        assert forall|p: int| 0 <= p < t.items.len() && (#[trigger] t.items[p]) > 0 implies
            t.bits.contains(p) || t.posting[p] || will_look(t, p) by {
            if s.items[p] > 0 {
                assert(s.bits.contains(p) || s.posting[p] || will_look(s, p));
            }
        }
    }
}

/// No item is missed: in no state of any execution does a ring hold an item
/// while its bit is clear, unless its producer is still about to set the bit
/// or the consumer is still about to look at the ring. So a consumer sleeps on
/// a clear bitmap only while every item's producer is about to call it.
pub proof fn bitmap_misses_no_item(trace: Seq<ShardWorld>, k: int, p: int)
    requires
        shard_execution(trace),
        0 <= k < trace.len(),
        0 <= p < trace[k].items.len(),
        trace[k].items[p] > 0,
    ensures
        trace[k].bits.contains(p) || trace[k].posting[p] || will_look(trace[k], p),
        trace[k].consumer is Park && trace[k].bits =~= Set::<int>::empty() ==> trace[k].posting[p],
{
    lemma_shard_inv(trace, k);
}

} // verus!
