//! What a sharded channel promises over any sequence of operations.
use super::mpmc::{free_slots, Mpmc, MpmcConsumer, MpmcProducer};
use super::queues::{all_empty, any_ready, first_nonempty, joined, lemma_all_empty_same, lemma_first_nonempty, lemma_joined_empty, lemma_joined_holds, taken_at};
use crate::gate::mpmc as signals;
use crate::round::{lemma_scan_finds, scan};
use crate::waiter::Waiter;
use vstd::prelude::*;

verus! {

/// An operation on a sharded channel.
pub enum ShardedOp<T> {
    /// Producer `.1` tries to put `.2` into shard `.0`.
    Send(int, int, T),
    /// The consumer of shard `.0` tries to take one item.
    Recv(int),
    /// The consumer of shard `.0` takes everything.
    Drain(int),
    Shutdown,
}

/// A channel together with the values that each ring has accepted and
/// delivered so far.
pub struct Sharded<T> {
    pub queues: Seq<Seq<Seq<T>>>,
    pub shutdown: bool,
    pub accepted: Seq<Seq<Seq<T>>>,
    pub delivered: Seq<Seq<Seq<T>>>,
}

/// Nothing in any ring of `n` shards with `m` producers.
pub open spec fn empty_grid<T>(m: nat, n: nat) -> Seq<Seq<Seq<T>>> {
    Seq::new(n, |s: int| Seq::new(m, |p: int| Seq::empty()))
}

/// A new channel.
pub open spec fn fresh_sharded<T>(m: nat, n: nat) -> Sharded<T> {
    Sharded {
        queues: empty_grid(m, n),
        shutdown: false,
        accepted: empty_grid(m, n),
        delivered: empty_grid(m, n),
    }
}

/// The grid with the entry of shard `s` and producer `p` replaced.
pub open spec fn set_at<T>(grid: Seq<Seq<Seq<T>>>, s: int, p: int, items: Seq<T>) -> Seq<
    Seq<Seq<T>>,
> {
    grid.update(s, grid[s].update(p, items))
}

/// The channel after one operation.
pub open spec fn apply_sharded<T>(h: Sharded<T>, cap: int, op: ShardedOp<T>) -> Sharded<T> {
    match op {
        ShardedOp::Send(s, p, v) => if 0 <= s < h.queues.len() && 0 <= p < h.queues[s].len()
            && h.queues[s][p].len() < cap {
            Sharded {
                queues: set_at(h.queues, s, p, h.queues[s][p] + seq![v]),
                accepted: set_at(h.accepted, s, p, h.accepted[s][p] + seq![v]),
                ..h
            }
        } else {
            h
        },
        ShardedOp::Recv(s) => {
            let p = first_nonempty(h.queues[s], 0);
            if 0 <= s < h.queues.len() && p < h.queues[s].len() {
                Sharded {
                    queues: h.queues.update(s, taken_at(h.queues[s], p)),
                    delivered: set_at(
                        h.delivered,
                        s,
                        p,
                        h.delivered[s][p] + seq![h.queues[s][p][0]],
                    ),
                    ..h
                }
            } else {
                h
            }
        },
        ShardedOp::Drain(s) => if 0 <= s < h.queues.len() {
            Sharded {
                queues: h.queues.update(s, Seq::new(h.queues[s].len(), |p: int| Seq::empty())),
                delivered: h.delivered.update(
                    s,
                    Seq::new(h.queues[s].len(), |p: int| h.delivered[s][p] + h.queues[s][p]),
                ),
                ..h
            }
        } else {
            h
        },
        ShardedOp::Shutdown => Sharded { shutdown: true, ..h },
    }
}

/// The channel `h` after all of `ops`, in order.
pub open spec fn sharded_after<T>(h: Sharded<T>, cap: int, ops: Seq<ShardedOp<T>>) -> Sharded<T>
    decreases ops.len(),
{
    if ops.len() == 0 {
        h
    } else {
        apply_sharded(sharded_after(h, cap, ops.drop_last()), cap, ops.last())
    }
}

/// A new channel after all of `ops`, in order.
pub open spec fn run_sharded<T>(m: nat, n: nat, cap: int, ops: Seq<ShardedOp<T>>) -> Sharded<T> {
    sharded_after(fresh_sharded(m, n), cap, ops)
}

/// The grids of a channel with `n` shards and `m` producers are of that size.
proof fn lemma_grid_size<T>(m: nat, n: nat, cap: int, ops: Seq<ShardedOp<T>>)
    ensures
        run_sharded(m, n, cap, ops).queues.len() == n,
        run_sharded(m, n, cap, ops).accepted.len() == n,
        run_sharded(m, n, cap, ops).delivered.len() == n,
        forall|s: int|
            0 <= s < n ==> (#[trigger] run_sharded(m, n, cap, ops).queues[s]).len() == m,
        forall|s: int|
            0 <= s < n ==> (#[trigger] run_sharded(m, n, cap, ops).accepted[s]).len() == m,
        forall|s: int|
            0 <= s < n ==> (#[trigger] run_sharded(m, n, cap, ops).delivered[s]).len() == m,
    decreases ops.len(),
{
    if ops.len() > 0 {
        lemma_grid_size(m, n, cap, ops.drop_last());
        let g = run_sharded(m, n, cap, ops.drop_last());
        let h = run_sharded(m, n, cap, ops);
        match ops.last() {
            ShardedOp::Recv(t) => {
                if 0 <= t < n {
                    lemma_first_nonempty(g.queues[t], 0);
                    let p = first_nonempty(g.queues[t], 0);
                    if p < m {
                        assert(taken_at(g.queues[t], p).len() == m);
                        assert(g.delivered[t].len() == m);
                    }
                }
            },
            _ => {},
        }
        assert forall|s: int| 0 <= s < n implies (#[trigger] h.queues[s]).len() == m by {
            assert(g.queues[s].len() == m);
        }
        assert forall|s: int| 0 <= s < n implies (#[trigger] h.delivered[s]).len() == m by {
            assert(g.delivered[s].len() == m);
            assert(g.queues[s].len() == m);
        }
    }
}

/// First in, first out by producer and shard, exactly once: whatever the
/// operations, what was delivered from a ring followed by what is in flight
/// there is what the ring has accepted, in that order; and at most `cap` items
/// are in flight in it.
pub proof fn each_ring_keeps_its_order<T>(
    m: nat,
    n: nat,
    cap: int,
    ops: Seq<ShardedOp<T>>,
    s: int,
    p: int,
)
    requires
        cap > 0,
        0 <= s < n,
        0 <= p < m,
    ensures
        run_sharded(m, n, cap, ops).accepted[s][p] == run_sharded(m, n, cap, ops).delivered[s][p]
            + run_sharded(m, n, cap, ops).queues[s][p],
        run_sharded(m, n, cap, ops).queues[s][p].len() <= cap,
    decreases ops.len(),
{
    let h = run_sharded(m, n, cap, ops);
    if ops.len() == 0 {
        assert(h.accepted[s][p] =~= h.delivered[s][p] + h.queues[s][p]);
    } else {
        each_ring_keeps_its_order(m, n, cap, ops.drop_last(), s, p);
        lemma_grid_size(m, n, cap, ops.drop_last());
        let g = run_sharded(m, n, cap, ops.drop_last());
        match ops.last() {
            ShardedOp::Send(t, q, v) => {
                assert(h.accepted[s][p] =~= h.delivered[s][p] + h.queues[s][p]);
            },
            ShardedOp::Recv(t) => {
                if t == s {
                    lemma_first_nonempty(g.queues[s], 0);
                    if first_nonempty(g.queues[s], 0) == p {
                        assert(g.queues[s][p] =~= seq![g.queues[s][p][0]]
                            + g.queues[s][p].drop_first());
                    }
                }
                assert(h.accepted[s][p] =~= h.delivered[s][p] + h.queues[s][p]);
            },
            ShardedOp::Drain(t) => {
                assert(h.accepted[s][p] =~= h.delivered[s][p] + h.queues[s][p]);
            },
            ShardedOp::Shutdown => {},
        }
    }
}

/// The consumer of a shard is told of the shutdown only when everything that
/// its shard has accepted so far has been delivered.
pub proof fn shutdown_comes_last<T>(
    m: nat,
    n: nat,
    cap: int,
    ops: Seq<ShardedOp<T>>,
    s: int,
    p: int,
)
    requires
        cap > 0,
        0 <= s < n,
        0 <= p < m,
        run_sharded(m, n, cap, ops).shutdown,
        all_empty(run_sharded(m, n, cap, ops).queues[s]),
    ensures
        run_sharded(m, n, cap, ops).delivered[s][p] == run_sharded(m, n, cap, ops).accepted[s][p],
{
    each_ring_keeps_its_order(m, n, cap, ops, s, p);
    lemma_grid_size(m, n, cap, ops);
    let h = run_sharded(m, n, cap, ops);
    assert(h.queues[s][p].len() == 0);
    assert(h.delivered[s][p] + h.queues[s][p] =~= h.delivered[s][p]);
}

/// Once shut down, a channel stays so.
pub proof fn shut_down_for_good<T>(m: nat, n: nat, cap: int, ops: Seq<ShardedOp<T>>, k: int)
    requires
        0 <= k <= ops.len(),
        run_sharded(m, n, cap, ops.take(k)).shutdown,
    ensures
        run_sharded(m, n, cap, ops).shutdown,
    decreases ops.len() - k,
{
    if k < ops.len() {
        assert(ops.take(k + 1).drop_last() =~= ops.take(k));
        shut_down_for_good(m, n, cap, ops, k + 1);
    } else {
        assert(ops.take(k) =~= ops);
    }
}

/// `h` tells of a channel with these items in flight that was shut down or not.
/// Both kinds of channel, [`Mpmc`] and [`signals::Mpmc`], show that much.
pub open spec fn tells_of<T>(h: Sharded<T>, grid: Seq<Seq<Seq<T>>>, shutdown: bool) -> bool {
    &&& h.queues == grid
    &&& h.shutdown == shutdown
    &&& same_size(h.accepted, grid)
    &&& same_size(h.delivered, grid)
}

/// As many shards, and in each as many producers.
pub open spec fn same_size<T>(a: Seq<Seq<Seq<T>>>, b: Seq<Seq<Seq<T>>>) -> bool {
    &&& a.len() == b.len()
    &&& forall|s: int| 0 <= s < a.len() ==> (#[trigger] a[s]).len() == b[s].len()
}

/// A channel as it is built, by either `new`, is a new one.
pub proof fn a_built_channel_is_new<T>(grid: Seq<Seq<Seq<T>>>, m: nat, n: nat)
    requires
        grid.len() == n,
        forall|s: int| 0 <= s < n ==> (#[trigger] grid[s]).len() == m,
        forall|s: int, p: int| 0 <= s < n && 0 <= p < m ==> (#[trigger] grid[s][p]).len() == 0,
    ensures
        tells_of(fresh_sharded(m, n), grid, false),
{
    let fresh = empty_grid::<T>(m, n);
    assert forall|s: int| 0 <= s < n implies fresh[s] == grid[s] by {
        assert(grid[s].len() == m);
        assert forall|p: int| 0 <= p < m implies (#[trigger] grid[s][p]).len() == 0 by {}
        lemma_all_empty_same(fresh[s], grid[s]);
    }
    assert(fresh =~= grid);
    assert forall|s: int| 0 <= s < n implies (#[trigger] fresh[s]).len() == grid[s].len() by {}
}

/// One `Send` per item, in order.
pub open spec fn sends<T>(s: int, p: int, items: Seq<T>) -> Seq<ShardedOp<T>> {
    Seq::new(items.len(), |k: int| ShardedOp::Send(s, p, items[k]))
}

/// Putting items into a ring that has room for them is one `Send` per item.
pub proof fn putting_items_is_sends<T>(
    h: Sharded<T>,
    grid: Seq<Seq<Seq<T>>>,
    shutdown: bool,
    cap: int,
    s: int,
    p: int,
    items: Seq<T>,
)
    requires
        tells_of(h, grid, shutdown),
        0 <= s < grid.len(),
        0 <= p < grid[s].len(),
        grid[s][p].len() + items.len() <= cap,
    ensures
        tells_of(
            sharded_after(h, cap, sends(s, p, items)),
            set_at(grid, s, p, grid[s][p] + items),
            shutdown,
        ),
        sharded_after(h, cap, sends(s, p, items)).accepted == set_at(
            h.accepted,
            s,
            p,
            h.accepted[s][p] + items,
        ),
        sharded_after(h, cap, sends(s, p, items)).delivered == h.delivered,
    decreases items.len(),
{
    let ops = sends(s, p, items);
    let g = sharded_after(h, cap, ops);
    assert(h.accepted[s].len() == grid[s].len());
    if items.len() == 0 {
        assert(grid[s][p] + items =~= grid[s][p]);
        assert(h.accepted[s][p] + items =~= h.accepted[s][p]);
        assert(grid[s].update(p, grid[s][p]) =~= grid[s]);
        assert(h.accepted[s].update(p, h.accepted[s][p]) =~= h.accepted[s]);
        assert(set_at(grid, s, p, grid[s][p] + items) =~= grid);
        assert(set_at(h.accepted, s, p, h.accepted[s][p] + items) =~= h.accepted);
    } else {
        let rest = items.drop_last();
        let v = items.last();
        putting_items_is_sends(h, grid, shutdown, cap, s, p, rest);
        let f = sharded_after(h, cap, sends(s, p, rest));
        assert(ops.drop_last() =~= sends(s, p, rest));
        assert(g == apply_sharded(f, cap, ShardedOp::Send(s, p, v)));
        assert(grid[s][p] + rest + seq![v] =~= grid[s][p] + items);
        assert(h.accepted[s][p] + rest + seq![v] =~= h.accepted[s][p] + items);
        assert(f.queues[s].update(p, grid[s][p] + items) =~= grid[s].update(p, grid[s][p] + items));
        assert(f.accepted[s].update(p, h.accepted[s][p] + items) =~= h.accepted[s].update(
            p,
            h.accepted[s][p] + items,
        ));
        assert(g.queues =~= set_at(grid, s, p, grid[s][p] + items));
        assert(g.accepted =~= set_at(h.accepted, s, p, h.accepted[s][p] + items));
        assert forall|t: int| 0 <= t < g.accepted.len() implies (#[trigger] g.accepted[t]).len()
            == g.queues[t].len() by {
            assert(h.accepted[t].len() == grid[t].len());
        }
        assert forall|t: int| 0 <= t < g.delivered.len() implies (#[trigger] g.delivered[t]).len()
            == g.queues[t].len() by {
            assert(h.delivered[t].len() == grid[t].len());
        }
    }
}

/// Sending one value is one `Send` to the first shard with room, or nothing at
/// all where no shard has any.
pub proof fn an_offer_is_a_send<T, const CAP: usize, W: Waiter>(
    h: Sharded<T>,
    ch: Mpmc<T, CAP, W>,
    producer: MpmcProducer<T, CAP, W>,
    value: T,
    after: MpmcProducer<T, CAP, W>,
    next: Mpmc<T, CAP, W>,
    accepted: bool,
)
    requires
        tells_of(h, ch@, ch.shutdown),
        producer.wf(ch),
        producer.sent(ch, value, after, next, accepted),
    ensures
        ({
            let k = ch.route(producer.idx(), producer.start(ch.n()));
            let s = (producer.start(ch.n()) + k) % ch.n();
            tells_of(
                if accepted {
                    apply_sharded(h, CAP as int, ShardedOp::Send(s, producer.idx(), value))
                } else {
                    h
                },
                next@,
                next.shutdown,
            )
        }),
{
    if accepted {
        let p = producer.idx();
        let start = producer.start(ch.n());
        let s = (start + ch.route(p, start)) % ch.n();
        producer.lemma_start_in_range(ch.n());
        lemma_scan_finds(ch.room(p), start, 0);
        vstd::arithmetic::div_mod::lemma_mod_pos_bound(start + ch.route(p, start), ch.n());
        assert(ch.room(p)[s]);
        assert(ch.shards@[s].wf(ch.m()));
        putting_items_is_sends(h, ch@, ch.shutdown, CAP as int, s, p, seq![value]);
        lemma_one_send(h, CAP as int, s, p, value);
    }
}

/// Sending a batch is one `Send` per item that it moves, all of them to the
/// first shard with room.
pub proof fn a_batch_is_sends<T, const CAP: usize, W: Waiter>(
    h: Sharded<T>,
    ch: Mpmc<T, CAP, W>,
    producer: MpmcProducer<T, CAP, W>,
    s: int,
    items: Seq<T>,
    next: Mpmc<T, CAP, W>,
)
    requires
        tells_of(h, ch@, ch.shutdown),
        producer.wf(ch),
        0 <= s < ch.n(),
        ch@[s][producer.idx()].len() + items.len() <= CAP,
        producer.posted(ch, next, s, items),
    ensures
        tells_of(
            sharded_after(h, CAP as int, sends(s, producer.idx(), items)),
            next@,
            next.shutdown,
        ),
{
    assert(ch.shards@[s].wf(ch.m()));
    putting_items_is_sends(h, ch@, ch.shutdown, CAP as int, s, producer.idx(), items);
}

/// One item is one `Send`.
proof fn lemma_one_send<T>(h: Sharded<T>, cap: int, s: int, p: int, value: T)
    ensures
        sharded_after(h, cap, sends(s, p, seq![value])) == apply_sharded(
            h,
            cap,
            ShardedOp::Send(s, p, value),
        ),
{
    let ops = sends(s, p, seq![value]);
    assert(ops.drop_last() =~= Seq::<ShardedOp<T>>::empty());
    assert(sharded_after(h, cap, ops.drop_last()) == h);
}

/// Taking one item, with or without waiting, is one `Recv`, and what is handed
/// out is what counts as delivered.
pub proof fn taking_an_item_is_a_receive<T>(
    h: Sharded<T>,
    grid: Seq<Seq<Seq<T>>>,
    shutdown: bool,
    cap: int,
    s: int,
    next: Seq<Seq<Seq<T>>>,
    r: Option<T>,
)
    requires
        tells_of(h, grid, shutdown),
        0 <= s < grid.len(),
        first_nonempty(grid[s], 0) < grid[s].len() ==> {
            let p = first_nonempty(grid[s], 0);
            r == Some(grid[s][p][0]) && next == grid.update(s, taken_at(grid[s], p))
        },
        first_nonempty(grid[s], 0) >= grid[s].len() ==> r is None && next == grid,
    ensures
        tells_of(apply_sharded(h, cap, ShardedOp::Recv(s)), next, shutdown),
        r matches Some(v) ==> {
            let p = first_nonempty(grid[s], 0);
            apply_sharded(h, cap, ShardedOp::Recv(s)).delivered == set_at(
                h.delivered,
                s,
                p,
                h.delivered[s][p] + seq![v],
            )
        },
        r is None ==> apply_sharded(h, cap, ShardedOp::Recv(s)) == h,
{
    lemma_first_nonempty(grid[s], 0);
    let g = apply_sharded(h, cap, ShardedOp::Recv(s));
    assert forall|t: int| 0 <= t < g.accepted.len() implies (#[trigger] g.accepted[t]).len()
        == g.queues[t].len() by {
        assert(h.accepted[t].len() == grid[t].len());
    }
    assert forall|t: int| 0 <= t < g.delivered.len() implies (#[trigger] g.delivered[t]).len()
        == g.queues[t].len() by {
        assert(h.delivered[t].len() == grid[t].len());
    }
}

/// What a consumer of an [`Mpmc`] takes is one `Recv` at its shard.
pub proof fn a_consumer_receives<T, const CAP: usize, W: Waiter>(
    h: Sharded<T>,
    ch: Mpmc<T, CAP, W>,
    consumer: MpmcConsumer<T, CAP, W>,
    next: Mpmc<T, CAP, W>,
    r: Option<T>,
)
    requires
        tells_of(h, ch@, ch.shutdown),
        consumer.wf(ch),
        consumer.took(ch, next, r),
    ensures
        tells_of(
            apply_sharded(h, CAP as int, ShardedOp::Recv(consumer.at())),
            next@,
            next.shutdown,
        ),
{
    let s = consumer.at();
    assert(next@ =~= ch@.update(s, next@[s]));
    assert(ch@.update(s, ch@[s]) =~= ch@);
    taking_an_item_is_a_receive(h, ch@, ch.shutdown, CAP as int, s, next@, r);
}

/// Taking everything in a shard, with or without waiting, is one `Drain`, and
/// what is handed out is what counts as delivered.
pub proof fn taking_everything_is_a_drain<T>(
    h: Sharded<T>,
    grid: Seq<Seq<Seq<T>>>,
    shutdown: bool,
    cap: int,
    s: int,
    next: Seq<Seq<Seq<T>>>,
)
    requires
        tells_of(h, grid, shutdown),
        0 <= s < grid.len(),
        next == grid.update(s, Seq::new(grid[s].len(), |p: int| Seq::<T>::empty())),
    ensures
        tells_of(apply_sharded(h, cap, ShardedOp::Drain(s)), next, shutdown),
        forall|p: int|
            0 <= p < grid[s].len() ==> (#[trigger] apply_sharded(
                h,
                cap,
                ShardedOp::Drain(s),
            ).delivered[s][p]) == h.delivered[s][p] + grid[s][p],
{
    let g = apply_sharded(h, cap, ShardedOp::Drain(s));
    assert(g.queues =~= next);
    assert forall|t: int| 0 <= t < g.accepted.len() implies (#[trigger] g.accepted[t]).len()
        == g.queues[t].len() by {
        assert(h.accepted[t].len() == grid[t].len());
    }
    assert forall|t: int| 0 <= t < g.delivered.len() implies (#[trigger] g.delivered[t]).len()
        == g.queues[t].len() by {
        assert(h.delivered[t].len() == grid[t].len());
    }
}

/// What a consumer of an [`Mpmc`] drains is one `Drain` of its shard.
pub proof fn a_consumer_drains<T, const CAP: usize, W: Waiter>(
    h: Sharded<T>,
    ch: Mpmc<T, CAP, W>,
    consumer: MpmcConsumer<T, CAP, W>,
    next: Mpmc<T, CAP, W>,
)
    requires
        tells_of(h, ch@, ch.shutdown),
        consumer.wf(ch),
        consumer.drained(ch, next),
    ensures
        tells_of(
            apply_sharded(h, CAP as int, ShardedOp::Drain(consumer.at())),
            next@,
            next.shutdown,
        ),
{
    let s = consumer.at();
    assert(ch@[s].len() == ch.m());
    taking_everything_is_a_drain(h, ch@, ch.shutdown, CAP as int, s, next@);
}

/// A shutdown, of either kind of channel, is one `Shutdown`.
pub proof fn a_signal_is_a_shutdown<T>(
    h: Sharded<T>,
    grid: Seq<Seq<Seq<T>>>,
    shutdown: bool,
    cap: int,
)
    requires
        tells_of(h, grid, shutdown),
    ensures
        tells_of(apply_sharded(h, cap, ShardedOp::Shutdown), grid, true),
{
}

/// Sending one value through a channel that is built on signals is one `Send`
/// to the first shard with room, or nothing at all where no shard has any.
pub proof fn a_signalled_offer_is_a_send<T, const CAP: usize>(
    h: Sharded<T>,
    ch: signals::Mpmc<T, CAP>,
    producer: signals::MpmcProducer<T, CAP>,
    value: T,
    after: signals::MpmcProducer<T, CAP>,
    next: signals::Mpmc<T, CAP>,
    accepted: bool,
)
    requires
        tells_of(h, ch@, ch.shutdown),
        producer.wf(ch),
        producer.sent(ch, value, after, next, accepted),
    ensures
        ({
            let k = ch.route(producer.idx(), producer.start(ch.n()));
            let s = (producer.start(ch.n()) + k) % ch.n();
            tells_of(
                if accepted {
                    apply_sharded(h, CAP as int, ShardedOp::Send(s, producer.idx(), value))
                } else {
                    h
                },
                next@,
                next.shutdown,
            )
        }),
{
    if accepted {
        let p = producer.idx();
        let start = producer.start(ch.n());
        let s = (start + ch.route(p, start)) % ch.n();
        producer.lemma_start_in_range(ch.n());
        lemma_scan_finds(ch.room(p), start, 0);
        vstd::arithmetic::div_mod::lemma_mod_pos_bound(start + ch.route(p, start), ch.n());
        assert(ch.room(p)[s]);
        a_signalled_batch_is_sends(h, ch, producer, s, seq![value], next);
        lemma_one_send(h, CAP as int, s, p, value);
    }
}

/// Sending a batch through a channel that is built on signals is one `Send`
/// per item that it moves.
pub proof fn a_signalled_batch_is_sends<T, const CAP: usize>(
    h: Sharded<T>,
    ch: signals::Mpmc<T, CAP>,
    producer: signals::MpmcProducer<T, CAP>,
    s: int,
    items: Seq<T>,
    next: signals::Mpmc<T, CAP>,
)
    requires
        tells_of(h, ch@, ch.shutdown),
        producer.wf(ch),
        0 <= s < ch.n(),
        ch@[s][producer.idx()].len() + items.len() <= CAP,
        producer.posted(ch, next, s, items),
    ensures
        tells_of(
            sharded_after(h, CAP as int, sends(s, producer.idx(), items)),
            next@,
            next.shutdown,
        ),
{
    let p = producer.idx();
    assert(ch.shards@[s].wf(ch.m()));
    putting_items_is_sends(h, ch@, ch.shutdown, CAP as int, s, p, items);
    assert(next@ =~= set_at(ch@, s, p, ch@[s][p] + items));
}

/// What a consumer of a channel that is built on signals takes is one `Recv` at
/// its shard.
pub proof fn a_signalled_consumer_receives<T, const CAP: usize>(
    h: Sharded<T>,
    ch: signals::Mpmc<T, CAP>,
    consumer: signals::MpmcConsumer<T, CAP>,
    next: signals::Mpmc<T, CAP>,
    r: Option<T>,
)
    requires
        tells_of(h, ch@, ch.shutdown),
        consumer.wf(ch),
        consumer.took(ch, next, r),
    ensures
        tells_of(
            apply_sharded(h, CAP as int, ShardedOp::Recv(consumer.at())),
            next@,
            next.shutdown,
        ),
{
    let s = consumer.at();
    if first_nonempty(ch@[s], 0) < ch@[s].len() {
        assert(next@ =~= ch@.update(s, next@[s]));
    }
    taking_an_item_is_a_receive(h, ch@, ch.shutdown, CAP as int, s, next@, r);
}

/// What a consumer of a channel that is built on signals drains is one `Drain`
/// of its shard.
pub proof fn a_signalled_consumer_drains<T, const CAP: usize>(
    h: Sharded<T>,
    ch: signals::Mpmc<T, CAP>,
    consumer: signals::MpmcConsumer<T, CAP>,
    next: signals::Mpmc<T, CAP>,
)
    requires
        tells_of(h, ch@, ch.shutdown),
        consumer.wf(ch),
        consumer.drained(ch, next),
    ensures
        tells_of(
            apply_sharded(h, CAP as int, ShardedOp::Drain(consumer.at())),
            next@,
            next.shutdown,
        ),
{
    let s = consumer.at();
    assert(ch.shards@[s].wf(ch.m()));
    assert(next@ =~= ch@.update(s, next@[s]));
    taking_everything_is_a_drain(h, ch@, ch.shutdown, CAP as int, s, next@);
}

/// While a producer has room in every shard its items go round: each send
/// goes to the shard whose turn it is, and the next shard is next.
pub proof fn shards_take_turns<T, const CAP: usize, W: Waiter>(
    ch: Mpmc<T, CAP, W>,
    next: Mpmc<T, CAP, W>,
    producer: MpmcProducer<T, CAP, W>,
    after: MpmcProducer<T, CAP, W>,
    value: T,
)
    requires
        producer.wf(ch),
        forall|s: int| 0 <= s < ch.n() ==> (#[trigger] ch@[s][producer.idx()]).len() < CAP,
        producer.sent(ch, value, after, next, true),
    ensures
        producer.posted(ch, next, producer.start(ch.n()), seq![value]),
        after.start(ch.n()) == (producer.start(ch.n()) + 1) % ch.n(),
{
    let start = producer.start(ch.n());
    let room = ch.room(producer.idx());
    producer.lemma_start_in_range(ch.n());
    vstd::arithmetic::div_mod::lemma_small_mod(start as nat, ch.n() as nat);
    assert(ch@[start][producer.idx()].len() < CAP);
    assert(room[(start + 0) % (room.len() as int)]);
    assert(scan(room, start, 0) == 0);
}

/// What one consumer takes changes nothing in any other shard.
pub proof fn consumers_do_not_compete<T, const CAP: usize, W: Waiter>(
    ch: Mpmc<T, CAP, W>,
    next: Mpmc<T, CAP, W>,
    consumer: MpmcConsumer<T, CAP, W>,
    s: int,
)
    requires
        consumer.wf(ch),
        consumer.read_only(ch, next),
        0 <= s < ch.n(),
        s != consumer.at(),
    ensures
        next@[s] == ch@[s],
{
}

/// Draining a shard hands out everything that was in flight there, each
/// producer's items in the order in which they were sent, and leaves nothing:
/// a second drain finds none. Every producer has its slots of this shard back,
/// and no other shard is touched.
pub proof fn a_drain_leaves_nothing<T, const CAP: usize, W: Waiter>(
    ch: Mpmc<T, CAP, W>,
    next: Mpmc<T, CAP, W>,
    consumer: MpmcConsumer<T, CAP, W>,
    p: int,
)
    requires
        consumer.wf(ch),
        consumer.drained(ch, next),
        0 <= p < ch.m(),
    ensures
        ({
            let qs = ch@[consumer.at()];
            let from = joined(qs, p).len() as int;
            joined(qs, ch.m()).subrange(from, from + qs[p].len()) == qs[p]
        }),
        joined(next@[consumer.at()], next.m()).len() == 0,
        !any_ready(next@[consumer.at()]),
        free_slots(next@, CAP as int, p, next.n()) == free_slots(ch@, CAP as int, p, ch.n())
            + ch@[consumer.at()][p].len(),
        forall|s: int|
            0 <= s < ch.n() && s != consumer.at() ==> (#[trigger] next@[s]) == ch@[s],
{
    let at = consumer.at();
    assert(ch@[at].len() == ch.m());
    lemma_joined_holds(ch@[at], ch.m(), p);
    lemma_joined_empty(next@[at], next.m());
    lemma_freed(ch@, next@, CAP as int, p, at, ch.n());
    assert(next@.len() == ch@.len());
}

proof fn lemma_freed<T>(
    a: Seq<Seq<Seq<T>>>,
    b: Seq<Seq<Seq<T>>>,
    cap: int,
    p: int,
    at: int,
    n: int,
)
    requires
        0 <= n <= a.len(),
        0 <= at < a.len(),
        b == a.update(at, b[at]),
        b[at][p].len() == 0,
    ensures
        free_slots(b, cap, p, n) == free_slots(a, cap, p, n) + if at < n {
            a[at][p].len() as int
        } else {
            0
        },
    decreases n,
{
    if n > 0 {
        lemma_freed(a, b, cap, p, at, n - 1);
    }
}

/// Items of producer `p` in flight in the first `n` shards.
pub open spec fn pending_items<T>(shards: Seq<Seq<Seq<T>>>, p: int, n: int) -> int
    decreases n,
{
    if n <= 0 {
        0
    } else {
        pending_items(shards, p, n - 1) + shards[n - 1][p].len()
    }
}

/// What a producer can still send without waiting and what it has in flight,
/// over all shards, add up to the slots that it has.
pub proof fn available_and_pending_make_the_capacity<T, const CAP: usize, W: Waiter>(
    ch: Mpmc<T, CAP, W>,
    producer: MpmcProducer<T, CAP, W>,
)
    requires
        producer.wf(ch),
    ensures
        free_slots(ch@, CAP as int, producer.idx(), ch.n()) + pending_items(
            ch@,
            producer.idx(),
            ch.n(),
        ) == ch.n() * CAP,
{
    lemma_free_and_pending(ch@, CAP as int, producer.idx(), ch.n());
}

proof fn lemma_free_and_pending<T>(shards: Seq<Seq<Seq<T>>>, cap: int, p: int, n: int)
    requires
        0 <= n,
    ensures
        free_slots(shards, cap, p, n) + pending_items(shards, p, n) == n * cap,
    decreases n,
{
    if n > 0 {
        lemma_free_and_pending(shards, cap, p, n - 1);
        assert(n * cap == (n - 1) * cap + cap) by (nonlinear_arith);
    } else {
        assert(0 * cap == 0) by (nonlinear_arith);
    }
}

} // verus!
