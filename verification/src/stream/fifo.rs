//! What a bounded ring promises over any sequence of operations.
use super::ring::{after_recv, after_send, recv_outcome, send_outcome, TryRecvError};
use vstd::prelude::*;

verus! {

/// An operation on a ring.
pub enum RingOp<T> {
    Send(T),
    Recv,
    Drain,
    Close,
}

/// A ring together with the values it has accepted and delivered so far.
pub struct RingHistory<T> {
    pub items: Seq<T>,
    pub closed: bool,
    pub accepted: Seq<T>,
    pub delivered: Seq<T>,
}

/// An open, empty ring without a past.
pub open spec fn fresh_history<T>() -> RingHistory<T> {
    RingHistory {
        items: Seq::empty(),
        closed: false,
        accepted: Seq::empty(),
        delivered: Seq::empty(),
    }
}

/// The history after one operation on a ring of `cap` slots.
pub open spec fn apply<T>(h: RingHistory<T>, cap: int, op: RingOp<T>) -> RingHistory<T> {
    match op {
        RingOp::Send(v) => RingHistory {
            items: after_send(h.items, cap, v),
            accepted: if send_outcome(h.items, cap, h.closed, v) is Ok {
                h.accepted.push(v)
            } else {
                h.accepted
            },
            ..h
        },
        RingOp::Recv => RingHistory {
            items: after_recv(h.items),
            delivered: match recv_outcome(h.items, h.closed) {
                Ok(v) => h.delivered.push(v),
                Err(_) => h.delivered,
            },
            ..h
        },
        RingOp::Drain => RingHistory {
            items: Seq::empty(),
            delivered: h.delivered + h.items,
            ..h
        },
        RingOp::Close => RingHistory { closed: true, ..h },
    }
}

/// The history `h` after all of `ops`, in order.
pub open spec fn history_after<T>(h: RingHistory<T>, cap: int, ops: Seq<RingOp<T>>) -> RingHistory<T>
    decreases ops.len(),
{
    if ops.len() == 0 {
        h
    } else {
        apply(history_after(h, cap, ops.drop_last()), cap, ops.last())
    }
}

/// The history of a new ring after all of `ops`, in order.
pub open spec fn run<T>(cap: int, ops: Seq<RingOp<T>>) -> RingHistory<T> {
    history_after(fresh_history(), cap, ops)
}

/// `h` tells of a ring with these items in flight that was closed or not. All
/// bounded rings show that much; a [`super::Ring2`] is never closed.
pub open spec fn tells_of<T>(h: RingHistory<T>, items: Seq<T>, closed: bool) -> bool {
    &&& h.items == items
    &&& h.closed == closed
}

/// Offering a value, with or without waiting, is one `Send`: the value counts
/// as accepted iff it was.
pub proof fn an_offer_is_a_send<T>(
    h: RingHistory<T>,
    items: Seq<T>,
    closed: bool,
    cap: int,
    value: T,
)
    requires
        tells_of(h, items, closed),
    ensures
        tells_of(apply(h, cap, RingOp::Send(value)), after_send(items, cap, value), closed),
        apply(h, cap, RingOp::Send(value)).accepted == (if send_outcome(
            items,
            cap,
            closed,
            value,
        ) is Ok {
            h.accepted.push(value)
        } else {
            h.accepted
        }),
{
}

/// One `Send` per value, in order.
pub open spec fn sends<T>(values: Seq<T>) -> Seq<RingOp<T>> {
    Seq::new(values.len(), |k: int| RingOp::Send(values[k]))
}

/// A bulk send is one `Send` per item that it moves, the last item first.
pub proof fn a_bulk_send_is_sends<T>(
    h: RingHistory<T>,
    items: Seq<T>,
    closed: bool,
    cap: int,
    values: Seq<T>,
)
    requires
        tells_of(h, items, closed),
        items.len() + values.len() <= cap,
    ensures
        tells_of(history_after(h, cap, sends(values)), items + values, closed),
        history_after(h, cap, sends(values)).accepted == h.accepted + values,
        history_after(h, cap, sends(values)).delivered == h.delivered,
    decreases values.len(),
{
    if values.len() == 0 {
        assert(items + values =~= items);
        assert(h.accepted + values =~= h.accepted);
    } else {
        let rest = values.drop_last();
        a_bulk_send_is_sends(h, items, closed, cap, rest);
        assert(sends(values).drop_last() =~= sends(rest));
        assert((items + rest).push(values.last()) =~= items + values);
        assert((h.accepted + rest).push(values.last()) =~= h.accepted + values);
    }
}

/// Receiving, with or without waiting, is one `Recv`, and what is handed out is
/// what counts as delivered.
pub proof fn taking_an_item_is_a_receive<T>(
    h: RingHistory<T>,
    items: Seq<T>,
    closed: bool,
    cap: int,
)
    requires
        tells_of(h, items, closed),
    ensures
        tells_of(apply(h, cap, RingOp::Recv), after_recv(items), closed),
        apply(h, cap, RingOp::Recv).delivered == (match recv_outcome(items, closed) {
            Ok(v) => h.delivered.push(v),
            Err(_) => h.delivered,
        }),
{
}

/// Taking everything is one `Drain`, and closing either handle one `Close`.
pub proof fn draining_and_closing_are_operations<T>(
    h: RingHistory<T>,
    items: Seq<T>,
    closed: bool,
    cap: int,
)
    requires
        tells_of(h, items, closed),
    ensures
        tells_of(apply(h, cap, RingOp::Drain), Seq::empty(), closed),
        apply(h, cap, RingOp::Drain).delivered == h.delivered + items,
        tells_of(apply(h, cap, RingOp::Close), items, true),
{
}

/// First in, first out, exactly once: whatever the operations, the values
/// delivered so far followed by those in flight are the values accepted, in
/// the order in which they were accepted; and at most `cap` are in flight.
pub proof fn delivers_in_order_exactly_once<T>(cap: int, ops: Seq<RingOp<T>>)
    requires
        cap > 0,
    ensures
        run(cap, ops).accepted == run(cap, ops).delivered + run(cap, ops).items,
        run(cap, ops).items.len() <= cap,
    decreases ops.len(),
{
    let h = run(cap, ops);
    if ops.len() == 0 {
        assert(h.accepted =~= h.delivered + h.items);
    } else {
        delivers_in_order_exactly_once(cap, ops.drop_last());
        let g = run(cap, ops.drop_last());
        match ops.last() {
            RingOp::Send(v) => {
                assert(h.accepted =~= h.delivered + h.items);
            },
            RingOp::Recv => {
                if g.items.len() > 0 {
                    assert(g.items =~= seq![g.items[0]] + g.items.drop_first());
                }
                assert(h.accepted =~= h.delivered + h.items);
            },
            RingOp::Drain => {
                assert(h.accepted =~= h.delivered + h.items);
            },
            RingOp::Close => {},
        }
    }
}

/// A receiver is told of the disconnect only when everything that was
/// accepted has been delivered.
pub proof fn disconnect_comes_last<T>(cap: int, ops: Seq<RingOp<T>>)
    requires
        cap > 0,
        recv_outcome(run(cap, ops).items, run(cap, ops).closed) == Err::<T, TryRecvError>(
            TryRecvError::Closed,
        ),
    ensures
        run(cap, ops).closed,
        run(cap, ops).delivered == run(cap, ops).accepted,
{
    delivers_in_order_exactly_once(cap, ops);
    let h = run(cap, ops);
    assert(h.items.len() == 0);
    assert(h.delivered + h.items =~= h.delivered);
}

/// Once closed, a ring stays closed.
pub proof fn closed_for_good<T>(cap: int, ops: Seq<RingOp<T>>, n: int)
    requires
        0 <= n <= ops.len(),
        run(cap, ops.take(n)).closed,
    ensures
        run(cap, ops).closed,
    decreases ops.len() - n,
{
    if n < ops.len() {
        assert(ops.take(n + 1).drop_last() =~= ops.take(n));
        closed_for_good(cap, ops, n + 1);
    } else {
        assert(ops.take(n) =~= ops);
    }
}

/// A blocked party has something to do exactly when its next attempt does
/// not tell it to wait.
pub proof fn waits_only_while_blocked<T>(items: Seq<T>, cap: int, closed: bool, value: T)
    ensures
        (items.len() > 0 || closed) <==> recv_outcome(items, closed) != Err::<T, TryRecvError>(
            TryRecvError::Empty,
        ),
        (items.len() < cap || closed) <==> send_outcome(items, cap, closed, value) != Err::<
            (),
            super::ring::TrySendError<T>,
        >(super::ring::TrySendError::Full(value)),
{
}

} // verus!
