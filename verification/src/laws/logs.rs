//! What the calls of the unbounded log, of its two-way form and of its batching sender
//! come to: messages come out in the order they went in, each once, and a receipt
//! says exactly when its message has come out.
use crate::gate::lifeline::{Cancelled, Lifeline, WaiterId};
use crate::ring_buf::RingBuf;
use crate::stream::buffered::BufferedSender;
use crate::stream::duplex::{Duplex, DuplexEnd};
use crate::stream::receipt::Receipt;
use crate::stream::segment::{Segment, SEG_SIZE};
use crate::stream::stream::Stream;
use crate::waiter::{Step, Waiter};
use vstd::prelude::*;

verus! {

/// Sending to a log puts the message behind everything else and wakes the reader;
/// its receipt is delivered exactly when that message has come out.
pub proof fn log_send_appends<T>(
    s: &mut Stream<T>,
    later: &Stream<T>,
    value: T,
    r: Receipt,
    number: u64,
    done: bool,
)
    requires
        old(s).wf(),
        call_ensures(Stream::<T>::send, (s, value), r),
        call_ensures(Receipt::seq, (&r,), number),
        call_ensures(Receipt::is_delivered::<T>, (&r, later), done),
    ensures
        final(s)@.len() == old(s)@.len() + 1,
        final(s)@.last() == value,
        forall|k: int| 0 <= k < old(s)@.len() ==> #[trigger] final(s)@[k] == old(s)@[k],
        number == old(s).head_pos + old(s)@.len(),
        done <==> later.head_pos >= old(s).head_pos + old(s)@.len() + 1,
        final(s).head_pos == old(s).head_pos,
        final(s).tail_pos == old(s).tail_pos + 1,
        final(s).not_empty.waiter == old(s).not_empty.waiter.woken(),
{
}

/// Sending many messages to a log puts them behind everything else, in their order,
/// and wakes the reader iff there are any; the receipt is that of the last one.
pub proof fn log_send_iter_appends_in_order<T>(
    s: &mut Stream<T>,
    items: Vec<T>,
    r: Option<Receipt>,
)
    requires
        old(s).wf(),
        call_ensures(Stream::<T>::send_iter, (s, items), r),
    ensures
        final(s)@.len() == old(s)@.len() + items@.len(),
        forall|k: int| 0 <= k < old(s)@.len() ==> #[trigger] final(s)@[k] == old(s)@[k],
        forall|k: int|
            0 <= k < items@.len() ==> final(s)@[old(s)@.len() + k] == #[trigger] items@[k],
        r is Some <==> items@.len() > 0,
        r matches Some(receipt) ==> receipt.number() == final(s).tail_pos - 1,
        final(s).tail_pos == old(s).tail_pos + items@.len(),
        final(s).head_pos == old(s).head_pos,
        items@.len() > 0 ==> final(s).not_empty.waiter == old(s).not_empty.waiter.woken(),
        items@.len() == 0 ==> final(s).not_empty.waiter == old(s).not_empty.waiter,
{
}

/// `try_recv` on a log hands out the oldest message iff there is one, and
/// nothing else comes out or goes in.
pub proof fn log_try_recv_takes_the_oldest<T>(
    s: &mut Stream<T>,
    r: Option<T>,
)
    requires
        call_ensures(Stream::<T>::try_recv, (s,), r),
    ensures
        r is None <==> old(s)@.len() == 0,
        r matches Some(v) ==> {
            &&& v == old(s)@[0]
            &&& final(s)@.len() == old(s)@.len() - 1
            &&& forall|k: int| 0 <= k < final(s)@.len() ==> #[trigger] final(s)@[k] == old(s)@[k + 1]
            &&& final(s).head_pos == old(s).head_pos + 1
        },
        r is None ==> *final(s) == *old(s),
        final(s).tail_pos == old(s).tail_pos,
{
}

/// `recv` on a log hands out the oldest message iff there is one, and
/// nothing else comes out or goes in.
pub proof fn log_recv_takes_the_oldest<T>(
    s: &mut Stream<T>,
    r: Step<T, ()>,
)
    requires
        call_ensures(Stream::<T>::recv, (s,), r),
    ensures
        r is Wait <==> old(s)@.len() == 0,
        r matches Step::Done(v) ==> {
            &&& v == old(s)@[0]
            &&& final(s)@.len() == old(s)@.len() - 1
            &&& forall|k: int| 0 <= k < final(s)@.len() ==> #[trigger] final(s)@[k] == old(s)@[k + 1]
            &&& final(s).head_pos == old(s).head_pos + 1
        },
        r is Wait ==> *final(s) == *old(s),
        final(s).tail_pos == old(s).tail_pos,
{
}

/// A bulk receive from a log takes as many of the oldest messages as there are or
/// as were asked for, whichever is less, in order.
pub proof fn log_recv_bulk_takes_the_oldest<T>(
    s: &mut Stream<T>,
    buf: &mut Vec<T>,
    max: usize,
    n: usize,
)
    requires
        call_ensures(Stream::<T>::recv_bulk, (s, buf, max), n),
    ensures
        n <= max,
        n <= old(s)@.len(),
        n < max ==> n == old(s)@.len(),
        final(buf)@.len() == old(buf)@.len() + n,
        forall|k: int| 0 <= k < old(buf)@.len() ==> #[trigger] final(buf)@[k] == old(buf)@[k],
        forall|k: int| 0 <= k < n ==> final(buf)@[old(buf)@.len() + k] == #[trigger] old(s)@[k],
        final(s)@.len() == old(s)@.len() - n,
        forall|k: int| 0 <= k < final(s)@.len() ==> #[trigger] final(s)@[k] == old(s)@[n + k],
        final(s).head_pos == old(s).head_pos + n,
        final(s).tail_pos == old(s).tail_pos,
{
}

/// Sending to one end of a two-way log puts the message behind everything else and wakes the reader;
/// its receipt is delivered exactly when that message has come out.
pub proof fn duplex_send_appends<T, U>(
    end: &DuplexEnd<T, U>,
    s: &mut Stream<T>,
    later: &Stream<T>,
    value: T,
    r: Receipt,
    number: u64,
    done: bool,
)
    requires
        old(s).wf(),
        call_ensures(DuplexEnd::<T, U>::send, (end, s, value), r),
        call_ensures(Receipt::seq, (&r,), number),
        call_ensures(Receipt::is_delivered::<T>, (&r, later), done),
    ensures
        final(s)@.len() == old(s)@.len() + 1,
        final(s)@.last() == value,
        forall|k: int| 0 <= k < old(s)@.len() ==> #[trigger] final(s)@[k] == old(s)@[k],
        number == old(s).head_pos + old(s)@.len(),
        done <==> later.head_pos >= old(s).head_pos + old(s)@.len() + 1,
        final(s).head_pos == old(s).head_pos,
        final(s).tail_pos == old(s).tail_pos + 1,
        final(s).not_empty.waiter == old(s).not_empty.waiter.woken(),
{
}

/// Sending many messages to one end of a two-way log puts them behind everything else, in their order,
/// and wakes the reader iff there are any; the receipt is that of the last one.
pub proof fn duplex_send_iter_appends_in_order<T, U>(
    end: &DuplexEnd<T, U>,
    s: &mut Stream<T>,
    items: Vec<T>,
    r: Option<Receipt>,
)
    requires
        old(s).wf(),
        call_ensures(DuplexEnd::<T, U>::send_iter, (end, s, items), r),
    ensures
        final(s)@.len() == old(s)@.len() + items@.len(),
        forall|k: int| 0 <= k < old(s)@.len() ==> #[trigger] final(s)@[k] == old(s)@[k],
        forall|k: int|
            0 <= k < items@.len() ==> final(s)@[old(s)@.len() + k] == #[trigger] items@[k],
        r is Some <==> items@.len() > 0,
        r matches Some(receipt) ==> receipt.number() == final(s).tail_pos - 1,
        final(s).tail_pos == old(s).tail_pos + items@.len(),
        final(s).head_pos == old(s).head_pos,
        items@.len() > 0 ==> final(s).not_empty.waiter == old(s).not_empty.waiter.woken(),
        items@.len() == 0 ==> final(s).not_empty.waiter == old(s).not_empty.waiter,
{
}

/// `try_recv` on one end of a two-way log hands out the oldest message iff there is one, and
/// nothing else comes out or goes in.
pub proof fn duplex_try_recv_takes_the_oldest<T, U>(
    end: &DuplexEnd<U, T>,
    s: &mut Stream<T>,
    r: Option<T>,
)
    requires
        call_ensures(DuplexEnd::<U, T>::try_recv, (end, s), r),
    ensures
        r is None <==> old(s)@.len() == 0,
        r matches Some(v) ==> {
            &&& v == old(s)@[0]
            &&& final(s)@.len() == old(s)@.len() - 1
            &&& forall|k: int| 0 <= k < final(s)@.len() ==> #[trigger] final(s)@[k] == old(s)@[k + 1]
            &&& final(s).head_pos == old(s).head_pos + 1
        },
        r is None ==> *final(s) == *old(s),
        final(s).tail_pos == old(s).tail_pos,
{
}

/// `recv` on one end of a two-way log hands out the oldest message iff there is one, and
/// nothing else comes out or goes in.
pub proof fn duplex_recv_takes_the_oldest<T, U>(
    end: &DuplexEnd<U, T>,
    s: &mut Stream<T>,
    r: Step<T, ()>,
)
    requires
        call_ensures(DuplexEnd::<U, T>::recv, (end, s), r),
    ensures
        r is Wait <==> old(s)@.len() == 0,
        r matches Step::Done(v) ==> {
            &&& v == old(s)@[0]
            &&& final(s)@.len() == old(s)@.len() - 1
            &&& forall|k: int| 0 <= k < final(s)@.len() ==> #[trigger] final(s)@[k] == old(s)@[k + 1]
            &&& final(s).head_pos == old(s).head_pos + 1
        },
        r is Wait ==> *final(s) == *old(s),
        final(s).tail_pos == old(s).tail_pos,
{
}

/// A bulk receive from one end of a two-way log takes as many of the oldest messages as there are or
/// as were asked for, whichever is less, in order.
pub proof fn duplex_recv_bulk_takes_the_oldest<T, U>(
    end: &DuplexEnd<U, T>,
    s: &mut Stream<T>,
    buf: &mut Vec<T>,
    max: usize,
    n: usize,
)
    requires
        call_ensures(DuplexEnd::<U, T>::recv_bulk, (end, s, buf, max), n),
    ensures
        n <= max,
        n <= old(s)@.len(),
        n < max ==> n == old(s)@.len(),
        final(buf)@.len() == old(buf)@.len() + n,
        forall|k: int| 0 <= k < old(buf)@.len() ==> #[trigger] final(buf)@[k] == old(buf)@[k],
        forall|k: int| 0 <= k < n ==> final(buf)@[old(buf)@.len() + k] == #[trigger] old(s)@[k],
        final(s)@.len() == old(s)@.len() - n,
        forall|k: int| 0 <= k < final(s)@.len() ==> #[trigger] final(s)@[k] == old(s)@[n + k],
        final(s).head_pos == old(s).head_pos + n,
        final(s).tail_pos == old(s).tail_pos,
{
}

/// A receive that can be cancelled hands out the oldest message as long as there is one,
/// cancelled or not; it says that it was cancelled iff there is none and it was, and
/// otherwise waits.
pub proof fn log_cancel_comes_after_the_messages<T>(
    s: &mut Stream<T>,
    life: &Lifeline,
    id: WaiterId,
    r: Step<Result<T, Cancelled>, ()>,
    cancelled: bool,
)
    requires
        call_ensures(Lifeline::is_cancelled, (life, id), cancelled),
        call_ensures(Stream::<T>::recv_or_cancel, (s, life, id), r),
    ensures
        old(s)@.len() > 0 ==> r is Done && r->Done_0 is Ok,
        r matches Step::Done(Ok(v)) ==> {
            &&& old(s)@.len() > 0
            &&& v == old(s)@[0]
            &&& final(s)@.len() == old(s)@.len() - 1
            &&& forall|k: int| 0 <= k < final(s)@.len() ==> #[trigger] final(s)@[k] == old(s)@[k + 1]
            &&& final(s).head_pos == old(s).head_pos + 1
        },
        r matches Step::Done(Err(_)) ==> old(s)@.len() == 0 && cancelled,
        r is Wait ==> old(s)@.len() == 0 && !cancelled,
        old(s)@.len() == 0 ==> *final(s) == *old(s),
{
}

/// What the looks at a log say fits together: what was sent and not yet received is what
/// is there.
pub proof fn log_looks_agree<T>(
    s: &Stream<T>,
    len: u64,
    empty: bool,
    tail: u64,
    cursor: u64,
    seq: u64,
    r: Step<(), ()>,
)
    requires
        s.wf(),
        call_ensures(Stream::<T>::len, (s,), len),
        call_ensures(Stream::<T>::is_empty, (s,), empty),
        call_ensures(Stream::<T>::tail, (s,), tail),
        call_ensures(Stream::<T>::cursor, (s,), cursor),
        call_ensures(Stream::<T>::wait_for, (s, seq), r),
    ensures
        len == s@.len(),
        cursor + len == tail,
        empty <==> len == 0,
        r is Done <==> cursor >= seq,
{
}

/// A receipt is delivered once the reader is past its message, and a wait for it ends
/// exactly then, whichever way it is asked for.
pub proof fn receipts_agree<T, U>(
    r: &Receipt,
    end: &DuplexEnd<T, U>,
    s: &Stream<T>,
    a: bool,
    b: Step<(), ()>,
    c: bool,
    d: Step<(), ()>,
    e: Step<(), ()>,
    number: u64,
    tail: u64,
)
    requires
        call_ensures(Receipt::seq, (r,), number),
        call_ensures(Receipt::is_delivered::<T>, (r, s), a),
        call_ensures(Receipt::wait_delivered::<T>, (r, s), b),
        call_ensures(DuplexEnd::<T, U>::is_delivered, (end, s, *r), c),
        call_ensures(DuplexEnd::<T, U>::wait_delivered, (end, s, *r), d),
        call_ensures(DuplexEnd::<T, U>::wait_for_out, (end, s, number), e),
        call_ensures(DuplexEnd::<T, U>::out_tail, (end, s), tail),
    ensures
        a <==> s.head_pos > number,
        b is Done <==> a,
        c == a,
        d is Done <==> a,
        e is Done <==> s.head_pos >= number,
        tail == s.tail_pos,
{
}

/// The ends of a two-way log see where both ways stand.
pub proof fn duplex_ends_see_both_ways<T, U>(
    end: &DuplexEnd<U, T>,
    s: &mut Stream<T>,
    t: &Stream<T>,
    cursor: u64,
    tail: u64,
)
    requires
        call_ensures(DuplexEnd::<U, T>::set_consumer, (end, s), ()),
        call_ensures(DuplexEnd::<U, T>::in_cursor, (end, t), cursor),
        call_ensures(DuplexEnd::<U, T>::peer_tail, (end, t), tail),
    ensures
        cursor == t.head_pos,
        tail == t.tail_pos,
        final(s)@ == old(s)@,
        final(s).not_empty.waiter == old(s).not_empty.waiter.bound(),
        final(s).head_pos == old(s).head_pos,
        final(s).tail_pos == old(s).tail_pos,
{
}

/// A new log is empty, and so is each way of a new two-way log.
pub proof fn log_starts_empty<T, U>(
    a: Stream<T>,
    b: Stream<T>,
    d: (Duplex<T, U>, DuplexEnd<T, U>, DuplexEnd<U, T>),
)
    requires
        call_ensures(Stream::<T>::new, (), a),
        call_ensures(Stream::<T>::new_strict, (), b),
        call_ensures(Duplex::<T, U>::pair, (), d),
    ensures
        a@.len() == 0,
        b@.len() == 0,
        a.wf(),
        b.wf(),
        !a.strict_wake,
        b.strict_wake,
        d.0.a_to_b@.len() == 0,
        d.0.b_to_a@.len() == 0,
        d.0.a_to_b.head_pos == 0,
        d.0.b_to_a.head_pos == 0,
{
}

/// Registering the reader of a log leaves everything there.
pub proof fn log_set_consumer_registers<T>(
    s: &mut Stream<T>,
)
    requires
        call_ensures(Stream::<T>::set_consumer, (s,), ()),
    ensures
        final(s)@ == old(s)@,
        final(s).not_empty.waiter == old(s).not_empty.waiter.bound(),
        final(s).head_pos == old(s).head_pos,
        final(s).tail_pos == old(s).tail_pos,
{
}

/// A batching sender keeps the order: what is in the log followed by what it holds back
/// grows by the message, at the end. It holds back fewer messages than its threshold,
/// and passes everything on, and wakes the reader, when it would reach it.
pub proof fn buffered_send_keeps_the_order<T>(
    b: &mut BufferedSender<T>,
    s: &mut Stream<T>,
    value: T,
    n: usize,
    limit: usize,
)
    requires
        old(b).wf(),
        call_ensures(BufferedSender::<T>::send, (b, s, value), ()),
        call_ensures(BufferedSender::<T>::pending, (&*final(b),), n),
        call_ensures(BufferedSender::<T>::threshold, (&*final(b),), limit),
    ensures
        final(s)@ + final(b).buf@ == (old(s)@ + old(b).buf@).push(value),
        n == final(b).buf@.len(),
        n < limit,
        limit == old(b).threshold,
        n == 0 || n == old(b).buf@.len() + 1,
        n == 0 <==> old(b).buf@.len() + 1 == limit,
        n == 0 ==> final(s).not_empty.waiter == old(s).not_empty.waiter.woken() && final(s)@.len()
            == old(s)@.len() + limit,
        n > 0 ==> *final(s) == *old(s),
{
}

/// A flush passes on everything that was held back, in order, and hands out the receipt
/// of the last message; a sender that goes does the same.
pub proof fn buffered_flush_passes_everything_on<T>(
    b: &mut BufferedSender<T>,
    gone: BufferedSender<T>,
    s: &mut Stream<T>,
    t: &mut Stream<T>,
    r: Option<Receipt>,
    last: Option<Receipt>,
)
    requires
        call_ensures(BufferedSender::<T>::flush, (b, s), r),
        call_ensures(BufferedSender::<T>::last_receipt, (&*final(b),), last),
        call_ensures(BufferedSender::<T>::close, (gone, t), ()),
    ensures
        final(b).buf@.len() == 0,
        final(s)@ == old(s)@ + old(b).buf@,
        last == r,
        old(b).buf@.len() > 0 ==> (r matches Some(receipt) && receipt.number() == final(s).tail_pos - 1),
        old(b).buf@.len() > 0 ==> final(s).not_empty.waiter == old(s).not_empty.waiter.woken(),
        old(b).buf@.len() == 0 ==> r == old(b).last_receipt && *final(s) == *old(s),
        final(t)@ == old(t)@ + gone.buf@,
        gone.buf@.len() > 0 ==> final(t).not_empty.waiter == old(t).not_empty.waiter.woken(),
{
}

/// A new batching sender holds nothing back.
pub proof fn buffered_starts_empty<T>(
    s: &Stream<T>,
    a: BufferedSender<T>,
    b: BufferedSender<T>,
    limit: usize,
)
    requires
        call_ensures(BufferedSender::<T>::new, (limit,), a),
        call_ensures(Stream::<T>::buffered, (s, limit), b),
    ensures
        a.buf@.len() == 0,
        b.buf@.len() == 0,
        a.threshold == limit,
        b.threshold == limit,
        a.last_receipt is None,
        b.last_receipt is None,
{
}

/// A segment covers a fixed number of positions from its first one on, each with a slot
/// of its own.
pub proof fn segment_covers_its_positions<T>(
    base: u64,
    s: Segment<T>,
    p: u64,
    q: u64,
    covered: bool,
    i: usize,
    j: usize,
)
    requires
        call_ensures(Segment::<T>::new, (base,), s),
        call_ensures(Segment::<T>::contains, (&s, p), covered),
        call_ensures(Segment::<T>::idx, (&s, p), i),
        call_ensures(Segment::<T>::idx, (&s, q), j),
    ensures
        covered <==> base <= p < base + SEG_SIZE,
        covered ==> i < SEG_SIZE && i == p - base,
        p != q ==> i != j,
        s.slots@.len() == SEG_SIZE,
{
}

/// Ring storage is first in, first out: what is pushed goes to the end, what is popped
/// comes from the front, and nothing else moves.
pub proof fn storage_is_first_in_first_out<T, const CAP: usize>(
    a: &mut RingBuf<T, CAP>,
    b: &mut RingBuf<T, CAP>,
    value: T,
    out: T,
)
    requires
        call_ensures(RingBuf::<T, CAP>::push, (a, value), ()),
        call_ensures(RingBuf::<T, CAP>::pop, (b,), out),
        old(b)@.len() > 0,
    ensures
        final(a)@.len() == old(a)@.len() + 1,
        final(a)@.last() == value,
        forall|k: int| 0 <= k < old(a)@.len() ==> #[trigger] final(a)@[k] == old(a)@[k],
        out == old(b)@[0],
        final(b)@.len() == old(b)@.len() - 1,
        forall|k: int| 0 <= k < final(b)@.len() ==> #[trigger] final(b)@[k] == old(b)@[k + 1],
{
}

/// Draining ring storage takes everything, oldest first.
pub proof fn storage_drains_in_order<T, const CAP: usize>(
    a: &mut RingBuf<T, CAP>,
    out: &mut Vec<T>,
    n: usize,
)
    requires
        call_ensures(RingBuf::<T, CAP>::drain, (a, out), n),
    ensures
        n == old(a)@.len(),
        final(a)@.len() == 0,
        final(out)@.len() == old(out)@.len() + n,
        forall|k: int| 0 <= k < old(out)@.len() ==> #[trigger] final(out)@[k] == old(out)@[k],
        forall|k: int| 0 <= k < n ==> final(out)@[old(out)@.len() + k] == #[trigger] old(a)@[k],
{
}

/// What the looks at ring storage say fits together.
pub proof fn storage_looks_agree<T, const CAP: usize>(
    fresh: RingBuf<T, CAP>,
    a: &RingBuf<T, CAP>,
    n: usize,
    empty: bool,
    full: bool,
)
    requires
        a.wf(),
        call_ensures(RingBuf::<T, CAP>::new, (), fresh),
        call_ensures(RingBuf::<T, CAP>::len, (a,), n),
        call_ensures(RingBuf::<T, CAP>::is_empty, (a,), empty),
        call_ensures(RingBuf::<T, CAP>::is_full, (a,), full),
    ensures
        fresh@.len() == 0,
        n == a@.len(),
        n <= CAP,
        empty <==> n == 0,
        full <==> n == CAP,
{
}

} // verus!
