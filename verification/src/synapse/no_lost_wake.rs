//! What holds however the producer, the consumers and a shutdown interleave.
//!
//! Every step is one operation of one party on the shared state: a claim of an
//! item, a look at the ring, a change of a signal or of the idle bits.
use vstd::prelude::*;

verus! {

/// Where a consumer stands.
pub enum ConsumerAt {
    /// Not receiving.
    Away,
    Try,
    /// It has an item, and has not opened the producer's signal yet.
    Freed,
    Check,
    Lock,
    Advertise,
    Recheck,
    RecheckEnd,
    Withdraw,
    Reopen,
    Park,
    Clear,
}

/// Where the producer stands.
pub enum ProducerAt {
    /// Not sending.
    Away,
    Try,
    /// It has published an item and not looked for an idle consumer yet.
    Published,
    /// It is about to claim the idle bit of this consumer.
    Chosen(int),
    /// That consumer was not idle any more.
    Rescan,
    /// It is about to claim the idle bit of this consumer, the second try.
    ChosenAgain(int),
    /// It has claimed the idle bit of this consumer, and not opened the
    /// consumer's signal yet.
    Cleared(int),
    Lock,
    Recheck,
    Reopen,
    Park,
}

/// All parties with the state that they share.
#[verifier::ext_equal]
pub struct World<T> {
    /// The items in flight.
    pub items: Seq<T>,
    /// Everything that was ever published.
    pub sent: Seq<T>,
    /// Everything that was ever claimed, in the order of the claims.
    pub taken: Seq<T>,
    pub cap: int,
    /// The consumers' signals are open.
    pub open: Seq<bool>,
    /// The idle bits.
    pub idle: Set<int>,
    /// The producer's signal is open.
    pub room: bool,
    pub shutdown: bool,
    /// Signals opened by the shutdown so far.
    pub ended: int,
    pub consumers: Seq<ConsumerAt>,
    pub producer: ProducerAt,
}

/// The world with consumer `i` somewhere else.
pub open spec fn moved<T>(s: World<T>, i: int, at: ConsumerAt) -> World<T> {
    World { consumers: s.consumers.update(i, at), ..s }
}

/// One operation of consumer `i`.
pub open spec fn consumer_steps<T>(s: World<T>, t: World<T>, i: int) -> bool {
    &&& 0 <= i < s.consumers.len()
    &&& match s.consumers[i] {
        ConsumerAt::Away => t == moved(s, i, ConsumerAt::Try),
        ConsumerAt::Try => if s.items.len() > 0 {
            t == (World {
                items: s.items.drop_first(),
                taken: s.taken.push(s.items[0]),
                ..moved(s, i, ConsumerAt::Freed)
            })
        } else {
            t == moved(s, i, ConsumerAt::Check)
        },
        ConsumerAt::Freed => t == (World { room: true, ..moved(s, i, ConsumerAt::Away) }),
        ConsumerAt::Check => t == moved(
            s,
            i,
            if s.shutdown {
                ConsumerAt::Away
            } else {
                ConsumerAt::Lock
            },
        ),
        ConsumerAt::Lock => t == (World {
            open: s.open.update(i, false),
            ..moved(s, i, ConsumerAt::Advertise)
        }),
        ConsumerAt::Advertise => t == (World {
            idle: s.idle.insert(i),
            ..moved(s, i, ConsumerAt::Recheck)
        }),
        ConsumerAt::Recheck => t == moved(
            s,
            i,
            if s.items.len() > 0 {
                ConsumerAt::Withdraw
            } else {
                ConsumerAt::RecheckEnd
            },
        ),
        ConsumerAt::RecheckEnd => t == moved(
            s,
            i,
            if s.shutdown {
                ConsumerAt::Withdraw
            } else {
                ConsumerAt::Park
            },
        ),
        ConsumerAt::Withdraw => t == (World {
            idle: s.idle.remove(i),
            ..moved(s, i, ConsumerAt::Reopen)
        }),
        ConsumerAt::Reopen => t == (World {
            open: s.open.update(i, true),
            ..moved(s, i, ConsumerAt::Try)
        }),
        ConsumerAt::Park => s.open[i] && t == moved(s, i, ConsumerAt::Clear),
        ConsumerAt::Clear => t == (World {
            idle: s.idle.remove(i),
            ..moved(s, i, ConsumerAt::Try)
        }),
    }
}

/// One operation of the producer, which sends `v` and picks `pick` where it
/// has to pick an idle consumer.
pub open spec fn producer_steps<T>(s: World<T>, t: World<T>, v: T, pick: int) -> bool {
    &&& 0 <= pick < s.consumers.len()
    &&& match s.producer {
        ProducerAt::Away => t == (World { producer: ProducerAt::Try, ..s }),
        ProducerAt::Try => if s.items.len() < s.cap {
            t == (World {
                items: s.items.push(v),
                sent: s.sent.push(v),
                producer: ProducerAt::Published,
                ..s
            })
        } else {
            t == (World { producer: ProducerAt::Lock, ..s })
        },
        ProducerAt::Published => t == (World {
            producer: if s.idle =~= Set::<int>::empty() {
                ProducerAt::Away
            } else {
                ProducerAt::Chosen(pick)
            },
            ..s
        }),
        ProducerAt::Chosen(i) => if s.idle.contains(i) {
            t == (World { idle: s.idle.remove(i), producer: ProducerAt::Cleared(i), ..s })
        } else {
            t == (World { producer: ProducerAt::Rescan, ..s })
        },
        ProducerAt::Rescan => if s.idle =~= Set::<int>::empty() {
            t == (World { producer: ProducerAt::Away, ..s })
        } else {
            s.idle.contains(pick) && t == (World { producer: ProducerAt::ChosenAgain(pick), ..s })
        },
        ProducerAt::ChosenAgain(i) => if s.idle.contains(i) {
            t == (World { idle: s.idle.remove(i), producer: ProducerAt::Cleared(i), ..s })
        } else {
            t == (World { producer: ProducerAt::Away, ..s })
        },
        ProducerAt::Cleared(i) => t == (World {
            open: s.open.update(i, true),
            producer: ProducerAt::Away,
            ..s
        }),
        ProducerAt::Lock => t == (World { room: false, producer: ProducerAt::Recheck, ..s }),
        ProducerAt::Recheck => t == (World {
            producer: if s.items.len() < s.cap {
                ProducerAt::Reopen
            } else {
                ProducerAt::Park
            },
            ..s
        }),
        ProducerAt::Reopen => t == (World { room: true, producer: ProducerAt::Try, ..s }),
        ProducerAt::Park => s.room && t == (World { producer: ProducerAt::Try, ..s }),
    }
}

/// One operation of a shutdown: the flag, then the consumers' signals in turn,
/// then the producer's.
pub open spec fn shutdown_steps<T>(s: World<T>, t: World<T>) -> bool {
    if !s.shutdown {
        t == (World { shutdown: true, ..s })
    } else if s.ended < s.consumers.len() {
        t == (World { open: s.open.update(s.ended, true), ended: s.ended + 1, ..s })
    } else {
        t == (World { room: true, ended: s.consumers.len() as int + 1, ..s })
    }
}

/// A repeated shutdown opens the signal of consumer `i` once more.
pub open spec fn shutdown_repeats<T>(s: World<T>, t: World<T>, i: int) -> bool {
    &&& s.shutdown
    &&& 0 <= i < s.consumers.len()
    &&& t == (World { open: s.open.update(i, true), ..s })
}

/// One step of any of the parties.
pub open spec fn world_step<T>(s: World<T>, t: World<T>) -> bool {
    ||| exists|i: int| #[trigger] consumer_steps(s, t, i)
    ||| exists|v: T, pick: int| #[trigger] producer_steps(s, t, v, pick)
    ||| shutdown_steps(s, t)
    ||| exists|i: int| #[trigger] shutdown_repeats(s, t, i)
}

/// Nobody has done anything yet.
pub open spec fn world_init<T>(s: World<T>) -> bool {
    &&& s.cap > 0
    &&& s.consumers.len() > 0
    &&& s.open.len() == s.consumers.len()
    &&& s.items.len() == 0
    &&& s.sent.len() == 0
    &&& s.taken.len() == 0
    &&& s.idle =~= Set::<int>::empty()
    &&& s.room
    &&& !s.shutdown
    &&& s.ended == 0
    &&& s.producer is Away
    &&& forall|i: int| 0 <= i < s.consumers.len() ==> (#[trigger] s.consumers[i]) is Away
}

/// Step `k` of an execution.
pub open spec fn world_step_at<T>(trace: Seq<World<T>>, k: int) -> bool {
    world_step(trace[k], trace[k + 1])
}

/// An execution from an initial state.
pub open spec fn world_execution<T>(trace: Seq<World<T>>) -> bool {
    &&& trace.len() > 0
    &&& world_init(trace[0])
    &&& forall|k: int| 0 <= k < trace.len() - 1 ==> #[trigger] world_step_at(trace, k)
}

/// Consumer `i` sleeps or is about to, and its signal does not call it.
pub open spec fn asleep<T>(s: World<T>, i: int) -> bool {
    (s.consumers[i] is RecheckEnd || s.consumers[i] is Park) && !s.open[i]
}

/// The producer has published an item and not yet done with waking a consumer.
pub open spec fn waking<T>(s: World<T>) -> bool {
    ||| s.producer is Published
    ||| s.producer is Chosen
    ||| s.producer is Rescan
    ||| s.producer is ChosenAgain
    ||| s.producer is Cleared
}

/// Some consumer is awake or called.
pub open spec fn somebody_awake<T>(s: World<T>) -> bool {
    exists|i: int| 0 <= i < s.consumers.len() && !#[trigger] asleep(s, i)
}

/// Some consumer is about to open the producer's signal.
pub open spec fn somebody_frees<T>(s: World<T>) -> bool {
    exists|i: int| 0 <= i < s.consumers.len() && (#[trigger] s.consumers[i]) is Freed
}

/// Consumer `i` has advertised itself and not looked away since.
spec fn committed<T>(s: World<T>, i: int) -> bool {
    s.consumers[i] is Recheck || s.consumers[i] is RecheckEnd || s.consumers[i] is Park
}

spec fn world_inv<T>(s: World<T>) -> bool {
    &&& s.cap > 0
    &&& s.consumers.len() > 0
    &&& s.open.len() == s.consumers.len()
    &&& s.items.len() <= s.cap
    &&& s.sent == s.taken + s.items
    &&& 0 <= s.ended <= s.consumers.len() + 1
    &&& forall|i: int| #[trigger] s.idle.contains(i) ==> 0 <= i < s.consumers.len()
    &&& s.producer matches ProducerAt::Cleared(i) ==> 0 <= i < s.consumers.len()
    &&& s.producer matches ProducerAt::ChosenAgain(i) ==> 0 <= i < s.consumers.len()
    &&& forall|i: int|
        0 <= i < s.consumers.len() && #[trigger] committed(s, i) && !s.idle.contains(i)
            ==> s.open[i] || s.producer == ProducerAt::Cleared(i)
    &&& s.items.len() > 0 && !waking(s) ==> somebody_awake(s)
    &&& s.ended > 0 ==> s.shutdown
    &&& forall|i: int|
        0 <= i < s.consumers.len() && i < s.ended && (#[trigger] s.consumers[i]) is Park
            ==> s.open[i]
    &&& s.producer is Park && !s.room ==> s.items.len() >= s.cap || somebody_frees(s)
}

proof fn lemma_consumer_step<T>(s: World<T>, t: World<T>, i: int)
    requires
        world_inv(s),
        consumer_steps(s, t, i),
    ensures
        world_inv(t),
{
    if s.consumers[i] is Try && s.items.len() > 0 {
        assert(s.items =~= seq![s.items[0]] + t.items);
        assert(t.taken + t.items =~= s.taken + s.items);
        assert(t.consumers[i] is Freed);
    }
    assert forall|j: int|
        0 <= j < t.consumers.len() && #[trigger] committed(t, j) && !t.idle.contains(j) implies
        t.open[j] || t.producer == ProducerAt::Cleared(j) by {
        if j != i {
            assert(committed(s, j));
        } else if !(s.consumers[i] is Advertise) {
            assert(committed(s, i));
        }
    }
    if t.items.len() > 0 && !waking(t) {
        let k = choose|k: int| 0 <= k < s.consumers.len() && !#[trigger] asleep(s, k);
        assert(!asleep(t, k));
    }
    assert forall|j: int|
        0 <= j < t.consumers.len() && j < t.ended && (#[trigger] t.consumers[j]) is Park implies
        t.open[j] by {
        if j != i {
            assert(s.consumers[j] is Park);
        }
    }
    if t.producer is Park && !t.room && t.items.len() < t.cap {
        if s.items.len() < s.cap {
            let k = choose|k: int| 0 <= k < s.consumers.len() && (#[trigger] s.consumers[k]) is Freed;
            assert(t.consumers[k] is Freed);
        } else {
            assert(t.consumers[i] is Freed);
        }
    }
}

proof fn lemma_producer_step<T>(s: World<T>, t: World<T>, v: T, pick: int)
    requires
        world_inv(s),
        producer_steps(s, t, v, pick),
    ensures
        world_inv(t),
{
    if s.producer is Try {
        assert(t.sent =~= t.taken + t.items);
    }
    assert forall|j: int|
        0 <= j < t.consumers.len() && #[trigger] committed(t, j) && !t.idle.contains(j) implies
        t.open[j] || t.producer == ProducerAt::Cleared(j) by {
        assert(committed(s, j));
    }
    if t.items.len() > 0 && !waking(t) {
        match s.producer {
            ProducerAt::Published => {
                if asleep(t, 0) {
                    assert(committed(s, 0));
                }
            },
            ProducerAt::Rescan => {
                if asleep(t, 0) {
                    assert(committed(s, 0));
                }
            },
            ProducerAt::ChosenAgain(i) => {
                if asleep(t, i) {
                    assert(committed(s, i));
                }
            },
            ProducerAt::Cleared(i) => {
                assert(!asleep(t, i));
            },
            _ => {
                let k = choose|k: int| 0 <= k < s.consumers.len() && !#[trigger] asleep(s, k);
                assert(!asleep(t, k));
            },
        }
    }
    assert forall|j: int|
        0 <= j < t.consumers.len() && j < t.ended && (#[trigger] t.consumers[j]) is Park implies
        t.open[j] by {
        assert(s.consumers[j] is Park);
    }
}

proof fn lemma_shutdown_step<T>(s: World<T>, t: World<T>)
    requires
        world_inv(s),
        shutdown_steps(s, t) || exists|i: int| #[trigger] shutdown_repeats(s, t, i),
    ensures
        world_inv(t),
{
    assert forall|j: int|
        0 <= j < t.consumers.len() && #[trigger] committed(t, j) && !t.idle.contains(j) implies
        t.open[j] || t.producer == ProducerAt::Cleared(j) by {
        assert(committed(s, j));
    }
    if t.items.len() > 0 && !waking(t) {
        let k = choose|k: int| 0 <= k < s.consumers.len() && !#[trigger] asleep(s, k);
        assert(!asleep(t, k));
    }
    assert forall|j: int|
        0 <= j < t.consumers.len() && j < t.ended && (#[trigger] t.consumers[j]) is Park implies
        t.open[j] by {
        assert(s.consumers[j] is Park);
    }
    if t.producer is Park && !t.room && t.items.len() < t.cap {
        let k = choose|k: int| 0 <= k < s.consumers.len() && (#[trigger] s.consumers[k]) is Freed;
        assert(t.consumers[k] is Freed);
    }
}

proof fn lemma_world_inv<T>(trace: Seq<World<T>>, k: int)
    requires
        world_execution(trace),
        0 <= k < trace.len(),
    ensures
        world_inv(trace[k]),
    decreases k,
{
    if k > 0 {
        lemma_world_inv(trace, k - 1);
        assert(world_step_at(trace, k - 1));
        let s = trace[k - 1];
        let t = trace[k];
        if exists|i: int| #[trigger] consumer_steps(s, t, i) {
            let i = choose|i: int| #[trigger] consumer_steps(s, t, i);
            lemma_consumer_step(s, t, i);
        } else if exists|v: T, pick: int| #[trigger] producer_steps(s, t, v, pick) {
            let (v, pick) = choose|v: T, pick: int| #[trigger] producer_steps(s, t, v, pick);
            lemma_producer_step(s, t, v, pick);
        } else {
            lemma_shutdown_step(s, t);
        }
    } else {
        assert(trace[0].taken + trace[0].items =~= trace[0].sent);
    }
}

/// No item is left while everybody sleeps: in no state of any execution is
/// there an item in flight and every consumer asleep, unless the producer is
/// still about to wake one.
pub proof fn work_finds_a_consumer<T>(trace: Seq<World<T>>, k: int)
    requires
        world_execution(trace),
        0 <= k < trace.len(),
        trace[k].items.len() > 0,
        !waking(trace[k]),
    ensures
        somebody_awake(trace[k]),
{
    lemma_world_inv(trace, k);
}

/// The producer does not sleep on room: in no state of any execution does it
/// sleep uncalled while there is room, unless a consumer is still about to
/// call it.
pub proof fn room_finds_the_producer<T>(trace: Seq<World<T>>, k: int)
    requires
        world_execution(trace),
        0 <= k < trace.len(),
        trace[k].producer is Park,
        !trace[k].room,
        trace[k].items.len() < trace[k].cap,
    ensures
        somebody_frees(trace[k]),
{
    lemma_world_inv(trace, k);
}

/// A shutdown reaches every consumer: once it is through, no consumer is
/// parked uncalled.
pub proof fn shutdown_wakes_every_consumer<T>(trace: Seq<World<T>>, k: int, i: int)
    requires
        world_execution(trace),
        0 <= k < trace.len(),
        trace[k].ended >= trace[k].consumers.len(),
        0 <= i < trace[k].consumers.len(),
        trace[k].consumers[i] is Park,
    ensures
        trace[k].shutdown,
        trace[k].open[i],
{
    lemma_world_inv(trace, k);
}

/// Each item is claimed once, in order: what was claimed so far, whoever
/// claimed it, followed by what is in flight is what was published; and at
/// most as much is in flight as there are slots.
pub proof fn each_item_is_claimed_once<T>(trace: Seq<World<T>>, k: int)
    requires
        world_execution(trace),
        0 <= k < trace.len(),
    ensures
        trace[k].sent == trace[k].taken + trace[k].items,
        trace[k].items.len() <= trace[k].cap,
{
    lemma_world_inv(trace, k);
}

} // verus!
