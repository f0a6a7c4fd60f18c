//! What an unbounded log promises over any sequence of operations.
use super::stream::Stream;
use vstd::prelude::*;

verus! {

/// An operation on a log.
pub enum LogOp<T> {
    Send(T),
    SendIter(Seq<T>),
    Recv,
    RecvBulk(nat),
}

/// A log together with all it has been sent and all that was received.
pub struct LogHistory<T> {
    /// Messages sent and not yet received.
    pub items: Seq<T>,
    /// Number of messages sent.
    pub tail: nat,
    /// Number of messages received.
    pub head: nat,
    pub sent: Seq<T>,
    pub received: Seq<T>,
}

/// How many messages a bulk receive of at most `max` takes.
pub open spec fn bulk_count(have: nat, max: nat) -> nat {
    if have < max {
        have
    } else {
        max
    }
}

/// The history after one operation.
pub open spec fn log_apply<T>(h: LogHistory<T>, op: LogOp<T>) -> LogHistory<T> {
    match op {
        LogOp::Send(v) => LogHistory {
            items: h.items.push(v),
            tail: h.tail + 1,
            sent: h.sent.push(v),
            ..h
        },
        LogOp::SendIter(vs) => LogHistory {
            items: h.items + vs,
            tail: h.tail + vs.len(),
            sent: h.sent + vs,
            ..h
        },
        LogOp::Recv => if h.items.len() == 0 {
            h
        } else {
            LogHistory {
                items: h.items.drop_first(),
                head: h.head + 1,
                received: h.received.push(h.items[0]),
                ..h
            }
        },
        LogOp::RecvBulk(max) => {
            let n = bulk_count(h.items.len(), max);
            LogHistory {
                items: h.items.skip(n as int),
                head: h.head + n,
                received: h.received + h.items.take(n as int),
                ..h
            }
        },
    }
}

/// The history after all of `ops`, in order, from an empty log.
pub open spec fn log_run<T>(ops: Seq<LogOp<T>>) -> LogHistory<T>
    decreases ops.len(),
{
    if ops.len() == 0 {
        LogHistory {
            items: Seq::empty(),
            tail: 0,
            head: 0,
            sent: Seq::empty(),
            received: Seq::empty(),
        }
    } else {
        log_apply(log_run(ops.drop_last()), ops.last())
    }
}

/// `h` tells of `stream`: what was not yet received, and both positions.
pub open spec fn tells_of<T>(h: LogHistory<T>, stream: Stream<T>) -> bool {
    &&& h.items == stream@
    &&& h.tail == stream.tail_pos
    &&& h.head == stream.head_pos
}

/// A log as [`Stream::new`] builds it is an empty one.
pub proof fn a_built_log_is_empty<T>(stream: Stream<T>)
    requires
        stream@ == Seq::<T>::empty(),
        stream.tail_pos == 0,
        stream.head_pos == 0,
    ensures
        tells_of(log_run::<T>(Seq::empty()), stream),
{
}

/// Sending a message is one `Send`.
pub proof fn a_message_is_a_send<T>(h: LogHistory<T>, stream: Stream<T>, value: T, next: Stream<T>)
    requires
        tells_of(h, stream),
        next.grew(stream, seq![value]),
    ensures
        tells_of(log_apply(h, LogOp::Send(value)), next),
{
    assert(stream@.push(value) =~= stream@ + seq![value]);
}

/// Sending a batch, at once or out of a buffer, is one `SendIter`.
pub proof fn a_batch_is_a_send_iter<T>(
    h: LogHistory<T>,
    stream: Stream<T>,
    items: Seq<T>,
    next: Stream<T>,
)
    requires
        tells_of(h, stream),
        next.grew(stream, items),
    ensures
        tells_of(log_apply(h, LogOp::SendIter(items)), next),
{
}

/// Taking the oldest message, or finding none, with or without waiting, is one
/// `Recv`, and what is handed out is what counts as received.
pub proof fn taking_a_message_is_a_receive<T>(
    h: LogHistory<T>,
    stream: Stream<T>,
    r: Option<T>,
    next: Stream<T>,
)
    requires
        tells_of(h, stream),
        stream@.len() == 0 ==> r is None && next == stream,
        stream@.len() > 0 ==> r == Some(stream@[0]) && next.shrank(stream, 1),
    ensures
        tells_of(log_apply(h, LogOp::Recv), next),
        log_apply(h, LogOp::Recv).received == (match r {
            Some(v) => h.received.push(v),
            None => h.received,
        }),
{
    if stream@.len() > 0 {
        assert(stream@.skip(1) =~= stream@.drop_first());
    }
}

/// Taking up to `max` messages is one `RecvBulk`, and what is handed out is
/// what counts as received.
pub proof fn taking_many_is_a_bulk_receive<T>(
    h: LogHistory<T>,
    stream: Stream<T>,
    max: nat,
    next: Stream<T>,
)
    requires
        tells_of(h, stream),
        next.shrank(stream, bulk_count(stream@.len(), max) as int),
    ensures
        tells_of(log_apply(h, LogOp::RecvBulk(max)), next),
        log_apply(h, LogOp::RecvBulk(max)).received == h.received + stream@.take(
            bulk_count(stream@.len(), max) as int,
        ),
{
}

/// Messages arrive in the order in which they were sent, each exactly once,
/// and the two positions count what was sent and what was received.
pub proof fn log_keeps_order<T>(ops: Seq<LogOp<T>>)
    ensures
        log_run(ops).sent == log_run(ops).received + log_run(ops).items,
        log_run(ops).tail == log_run(ops).sent.len(),
        log_run(ops).head == log_run(ops).received.len(),
    decreases ops.len(),
{
    let h = log_run(ops);
    if ops.len() == 0 {
        assert(h.sent =~= h.received + h.items);
    } else {
        log_keeps_order(ops.drop_last());
        let g = log_run(ops.drop_last());
        match ops.last() {
            LogOp::Recv => {
                if g.items.len() > 0 {
                    assert(g.items =~= seq![g.items[0]] + g.items.drop_first());
                }
            },
            LogOp::RecvBulk(max) => {
                let n = bulk_count(g.items.len(), max) as int;
                assert(g.items =~= g.items.take(n) + g.items.skip(n));
            },
            _ => {},
        }
        assert(h.sent =~= h.received + h.items);
    }
}

/// Message `seq` has been received exactly when the read position is past it:
/// one look at that position answers whether a message was delivered.
pub proof fn position_proves_delivery<T>(ops: Seq<LogOp<T>>, seq: int)
    requires
        0 <= seq < log_run(ops).tail,
    ensures
        log_run(ops).head > seq ==> log_run(ops).received[seq] == log_run(ops).sent[seq],
        log_run(ops).head <= seq ==> log_run(ops).items[seq - log_run(ops).head]
            == log_run(ops).sent[seq],
{
    log_keeps_order(ops);
}

/// A delivered message stays delivered.
pub proof fn delivered_for_good<T>(ops: Seq<LogOp<T>>, n: int)
    requires
        0 <= n <= ops.len(),
    ensures
        log_run(ops.take(n)).head <= log_run(ops).head,
        log_run(ops.take(n)).tail <= log_run(ops).tail,
    decreases ops.len() - n,
{
    if n < ops.len() {
        assert(ops.take(n + 1).drop_last() =~= ops.take(n));
        delivered_for_good(ops, n + 1);
    } else {
        assert(ops.take(n) =~= ops);
    }
}

} // verus!
