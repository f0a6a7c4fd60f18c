//! What the calls of the request/response channels come to: a request is served
//! once, its answer goes to whoever asked, and nobody waits for what is already
//! there.
use crate::gate::channel as signals;
use crate::slot::channel as slots;
use crate::waiter::{AsyncWaiter, Step, Waiter};
use vstd::prelude::*;

verus! {

/// A round trip through a single-slot channel: a request that is submitted, then
/// served, then awaited gives the client exactly what the handler made of it, and
/// leaves nothing in flight.
pub proof fn slot_call_is_answered_by_the_handler<Req, Resp, W: Waiter, F: FnOnce(Req) -> Resp>(
    a: &mut slots::Channel<Req, Resp, W>,
    b: &mut slots::Channel<Req, Resp, W>,
    c: &mut slots::Channel<Req, Resp, W>,
    req: Req,
    f: F,
    submitted: Step<Result<Resp, slots::Poisoned>, slots::CallPhase<Req>>,
    served: Step<(), F>,
    r: Step<Result<Resp, slots::Poisoned>, slots::CallPhase<Req>>,
)
    requires
        !old(a).poisoned,
        call_ensures(slots::Channel::<Req, Resp, W>::call, (a, slots::CallPhase::Submit(req)), submitted),
        *old(b) == *final(a),
        call_ensures(slots::Channel::<Req, Resp, W>::serve_one::<F>, (b, f), served),
        *old(c) == *final(b),
        call_ensures(slots::Channel::<Req, Resp, W>::call, (c, slots::CallPhase::Await), r),
    ensures
        submitted is Wait,
        submitted->Wait_0 is Await,
        served is Done,
        r matches Step::Done(Ok(v)) && call_ensures(f, (req,), v),
        final(c).req_slot is None,
        final(c).resp_slot is None,
        !final(c).poisoned,
{
}

/// A round trip through a single-slot channel that starts with a `try_call`: it
/// picks up the old answer and submits the new request in one step, and the new
/// request is then served and answered like any other.
pub proof fn slot_try_call_is_answered_by_the_handler<Req, Resp, W: Waiter, F: FnOnce(Req) -> Resp>(
    a: &mut slots::Channel<Req, Resp, W>,
    b: &mut slots::Channel<Req, Resp, W>,
    c: &mut slots::Channel<Req, Resp, W>,
    req: Req,
    f: F,
    picked: Result<Resp, Req>,
    served: Step<(), F>,
    r: Step<Result<Resp, slots::Poisoned>, slots::CallPhase<Req>>,
)
    requires
        !old(a).poisoned,
        old(a).resp_slot is Some,
        call_ensures(slots::Channel::<Req, Resp, W>::try_call, (a, req), picked),
        *old(b) == *final(a),
        call_ensures(slots::Channel::<Req, Resp, W>::serve_one::<F>, (b, f), served),
        *old(c) == *final(b),
        call_ensures(slots::Channel::<Req, Resp, W>::call, (c, slots::CallPhase::Await), r),
    ensures
        picked matches Ok(v) && Some(v) == old(a).resp_slot,
        served is Done,
        r matches Step::Done(Ok(v)) && call_ensures(f, (req,), v),
        final(c).req_slot is None,
        final(c).resp_slot is None,
{
}

/// Submitting to a single-slot channel leaves the request for the server, wakes the
/// server, and does not touch an answer that is still there.
pub proof fn slot_call_submits_the_request<Req, Resp, W: Waiter>(
    ch: &mut slots::Channel<Req, Resp, W>,
    req: Req,
    r: Step<Result<Resp, slots::Poisoned>, slots::CallPhase<Req>>,
    seen: bool,
)
    requires
        call_ensures(slots::Channel::<Req, Resp, W>::call, (ch, slots::CallPhase::Submit(req)), r),
        call_ensures(slots::Channel::<Req, Resp, W>::has_request, (&*final(ch),), seen),
    ensures
        r matches Step::Wait(at) && at is Await,
        seen,
        final(ch).req_slot == Some(req),
        final(ch).req_waiter == old(ch).req_waiter.woken(),
        final(ch).resp_slot == old(ch).resp_slot,
        final(ch).poisoned == old(ch).poisoned,
{
}

/// Awaiting on a single-slot channel: the pass ends iff there is an answer or the
/// handler has failed, exactly when `is_answered` says so; the answer is handed out
/// once, and the request side is not touched.
pub proof fn slot_call_waits_only_for_an_answer<Req, Resp, W: Waiter>(
    ch: &mut slots::Channel<Req, Resp, W>,
    r: Step<Result<Resp, slots::Poisoned>, slots::CallPhase<Req>>,
    ready: bool,
    left: bool,
)
    requires
        old(ch).wf(),
        call_ensures(slots::Channel::<Req, Resp, W>::is_answered, (&*old(ch),), ready),
        call_ensures(slots::Channel::<Req, Resp, W>::call, (ch, slots::CallPhase::Await), r),
        call_ensures(slots::Channel::<Req, Resp, W>::has_response, (&*final(ch),), left),
    ensures
        r is Wait <==> old(ch).resp_slot is None && !old(ch).poisoned,
        r is Done <==> ready,
        r matches Step::Wait(at) ==> at is Await,
        r matches Step::Done(Err(_)) ==> old(ch).poisoned,
        r matches Step::Done(Ok(v)) ==> !old(ch).poisoned && old(ch).resp_slot == Some(v),
        !left,
        final(ch).resp_slot is None,
        final(ch).req_slot == old(ch).req_slot,
        final(ch).req_waiter == old(ch).req_waiter,
        final(ch).poisoned == old(ch).poisoned,
{
}

/// Serving on a single-slot channel: the pass ends iff there is a request; the
/// handler's answer is then there for the client, who is woken, and the request is
/// gone. Without a request nothing changes.
pub proof fn slot_serve_one_answers_one_request<Req, Resp, W: Waiter, F: FnOnce(Req) -> Resp>(
    ch: &mut slots::Channel<Req, Resp, W>,
    f: F,
    r: Step<(), F>,
)
    requires
        call_ensures(slots::Channel::<Req, Resp, W>::serve_one::<F>, (ch, f), r),
    ensures
        r is Done <==> old(ch).req_slot is Some,
        r matches Step::Wait(g) ==> g == f && *final(ch) == *old(ch),
        r is Done ==> {
            &&& final(ch).req_slot is None
            &&& final(ch).resp_slot matches Some(v) && call_ensures(f, (old(ch).req_slot->0,), v)
            &&& final(ch).resp_waiter == old(ch).resp_waiter.woken()
            &&& final(ch).req_waiter == old(ch).req_waiter
        },
        final(ch).poisoned == old(ch).poisoned,
{
}

/// A round trip through a single-slot channel: a request that is submitted, then
/// served, then awaited gives the client exactly what the handler made of it, and
/// leaves nothing in flight.
pub proof fn slot_call_by_handle_is_answered_by_the_handler<Req, Resp, W: Waiter, F: FnOnce(Req) -> Resp>(
    client: &slots::Client<Req, Resp, W>,
    server: &slots::Server<Req, Resp, W>,
    a: &mut slots::Channel<Req, Resp, W>,
    b: &mut slots::Channel<Req, Resp, W>,
    c: &mut slots::Channel<Req, Resp, W>,
    req: Req,
    f: F,
    submitted: Step<Result<Resp, slots::Poisoned>, slots::CallPhase<Req>>,
    served: Step<(), F>,
    r: Step<Result<Resp, slots::Poisoned>, slots::CallPhase<Req>>,
)
    requires
        !old(a).poisoned,
        call_ensures(slots::Client::<Req, Resp, W>::call, (client, a, slots::CallPhase::Submit(req)), submitted),
        *old(b) == *final(a),
        call_ensures(slots::Server::<Req, Resp, W>::serve_one::<F>, (server, b, f), served),
        *old(c) == *final(b),
        call_ensures(slots::Client::<Req, Resp, W>::call, (client, c, slots::CallPhase::Await), r),
    ensures
        submitted is Wait,
        submitted->Wait_0 is Await,
        served is Done,
        r matches Step::Done(Ok(v)) && call_ensures(f, (req,), v),
        final(c).req_slot is None,
        final(c).resp_slot is None,
        !final(c).poisoned,
{
}

/// A round trip through a single-slot channel that starts with a `try_call`: it
/// picks up the old answer and submits the new request in one step, and the new
/// request is then served and answered like any other.
pub proof fn slot_try_call_by_handle_is_answered_by_the_handler<Req, Resp, W: Waiter, F: FnOnce(Req) -> Resp>(
    client: &slots::Client<Req, Resp, W>,
    server: &slots::Server<Req, Resp, W>,
    a: &mut slots::Channel<Req, Resp, W>,
    b: &mut slots::Channel<Req, Resp, W>,
    c: &mut slots::Channel<Req, Resp, W>,
    req: Req,
    f: F,
    picked: Result<Resp, Req>,
    served: Step<(), F>,
    r: Step<Result<Resp, slots::Poisoned>, slots::CallPhase<Req>>,
)
    requires
        !old(a).poisoned,
        old(a).resp_slot is Some,
        call_ensures(slots::Client::<Req, Resp, W>::try_call, (client, a, req), picked),
        *old(b) == *final(a),
        call_ensures(slots::Server::<Req, Resp, W>::serve_one::<F>, (server, b, f), served),
        *old(c) == *final(b),
        call_ensures(slots::Client::<Req, Resp, W>::call, (client, c, slots::CallPhase::Await), r),
    ensures
        picked matches Ok(v) && Some(v) == old(a).resp_slot,
        served is Done,
        r matches Step::Done(Ok(v)) && call_ensures(f, (req,), v),
        final(c).req_slot is None,
        final(c).resp_slot is None,
{
}

/// Submitting to a single-slot channel leaves the request for the server, wakes the
/// server, and does not touch an answer that is still there.
pub proof fn slot_call_by_handle_submits_the_request<Req, Resp, W: Waiter>(
    client: &slots::Client<Req, Resp, W>,
    ch: &mut slots::Channel<Req, Resp, W>,
    req: Req,
    r: Step<Result<Resp, slots::Poisoned>, slots::CallPhase<Req>>,
    seen: bool,
)
    requires
        call_ensures(slots::Client::<Req, Resp, W>::call, (client, ch, slots::CallPhase::Submit(req)), r),
        call_ensures(slots::Channel::<Req, Resp, W>::has_request, (&*final(ch),), seen),
    ensures
        r matches Step::Wait(at) && at is Await,
        seen,
        final(ch).req_slot == Some(req),
        final(ch).req_waiter == old(ch).req_waiter.woken(),
        final(ch).resp_slot == old(ch).resp_slot,
        final(ch).poisoned == old(ch).poisoned,
{
}

/// Awaiting on a single-slot channel: the pass ends iff there is an answer or the
/// handler has failed, exactly when `is_answered` says so; the answer is handed out
/// once, and the request side is not touched.
pub proof fn slot_call_by_handle_waits_only_for_an_answer<Req, Resp, W: Waiter>(
    client: &slots::Client<Req, Resp, W>,
    ch: &mut slots::Channel<Req, Resp, W>,
    r: Step<Result<Resp, slots::Poisoned>, slots::CallPhase<Req>>,
    ready: bool,
    left: bool,
)
    requires
        old(ch).wf(),
        call_ensures(slots::Channel::<Req, Resp, W>::is_answered, (&*old(ch),), ready),
        call_ensures(slots::Client::<Req, Resp, W>::call, (client, ch, slots::CallPhase::Await), r),
        call_ensures(slots::Channel::<Req, Resp, W>::has_response, (&*final(ch),), left),
    ensures
        r is Wait <==> old(ch).resp_slot is None && !old(ch).poisoned,
        r is Done <==> ready,
        r matches Step::Wait(at) ==> at is Await,
        r matches Step::Done(Err(_)) ==> old(ch).poisoned,
        r matches Step::Done(Ok(v)) ==> !old(ch).poisoned && old(ch).resp_slot == Some(v),
        !left,
        final(ch).resp_slot is None,
        final(ch).req_slot == old(ch).req_slot,
        final(ch).req_waiter == old(ch).req_waiter,
        final(ch).poisoned == old(ch).poisoned,
{
}

/// Serving on a single-slot channel: the pass ends iff there is a request; the
/// handler's answer is then there for the client, who is woken, and the request is
/// gone. Without a request nothing changes.
pub proof fn slot_serve_one_by_handle_answers_one_request<Req, Resp, W: Waiter, F: FnOnce(Req) -> Resp>(
    server: &slots::Server<Req, Resp, W>,
    ch: &mut slots::Channel<Req, Resp, W>,
    f: F,
    r: Step<(), F>,
)
    requires
        call_ensures(slots::Server::<Req, Resp, W>::serve_one::<F>, (server, ch, f), r),
    ensures
        r is Done <==> old(ch).req_slot is Some,
        r matches Step::Wait(g) ==> g == f && *final(ch) == *old(ch),
        r is Done ==> {
            &&& final(ch).req_slot is None
            &&& final(ch).resp_slot matches Some(v) && call_ensures(f, (old(ch).req_slot->0,), v)
            &&& final(ch).resp_waiter == old(ch).resp_waiter.woken()
            &&& final(ch).req_waiter == old(ch).req_waiter
        },
        final(ch).poisoned == old(ch).poisoned,
{
}

/// A round trip through a single-slot channel: a request that is submitted, then
/// served, then awaited gives the client exactly what the handler made of it, and
/// leaves nothing in flight.
pub proof fn slot_call_async_is_answered_by_the_handler<Req, Resp, W: AsyncWaiter, F: FnOnce(Req) -> Resp>(
    a: &mut slots::Channel<Req, Resp, W>,
    b: &mut slots::Channel<Req, Resp, W>,
    c: &mut slots::Channel<Req, Resp, W>,
    req: Req,
    f: F,
    submitted: Step<Result<Resp, slots::Poisoned>, slots::CallPhase<Req>>,
    served: Step<(), F>,
    r: Step<Result<Resp, slots::Poisoned>, slots::CallPhase<Req>>,
)
    requires
        !old(a).poisoned,
        call_ensures(slots::Channel::<Req, Resp, W>::call_async, (a, slots::CallPhase::Submit(req)), submitted),
        *old(b) == *final(a),
        call_ensures(slots::Channel::<Req, Resp, W>::serve_one_async::<F>, (b, f), served),
        *old(c) == *final(b),
        call_ensures(slots::Channel::<Req, Resp, W>::call_async, (c, slots::CallPhase::Await), r),
    ensures
        submitted is Wait,
        submitted->Wait_0 is Await,
        served is Done,
        r matches Step::Done(Ok(v)) && call_ensures(f, (req,), v),
        final(c).req_slot is None,
        final(c).resp_slot is None,
        !final(c).poisoned,
{
}

/// A round trip through a single-slot channel that starts with a `try_call`: it
/// picks up the old answer and submits the new request in one step, and the new
/// request is then served and answered like any other.
pub proof fn slot_try_call_async_is_answered_by_the_handler<Req, Resp, W: AsyncWaiter, F: FnOnce(Req) -> Resp>(
    a: &mut slots::Channel<Req, Resp, W>,
    b: &mut slots::Channel<Req, Resp, W>,
    c: &mut slots::Channel<Req, Resp, W>,
    req: Req,
    f: F,
    picked: Result<Resp, Req>,
    served: Step<(), F>,
    r: Step<Result<Resp, slots::Poisoned>, slots::CallPhase<Req>>,
)
    requires
        !old(a).poisoned,
        old(a).resp_slot is Some,
        call_ensures(slots::Channel::<Req, Resp, W>::try_call, (a, req), picked),
        *old(b) == *final(a),
        call_ensures(slots::Channel::<Req, Resp, W>::serve_one_async::<F>, (b, f), served),
        *old(c) == *final(b),
        call_ensures(slots::Channel::<Req, Resp, W>::call_async, (c, slots::CallPhase::Await), r),
    ensures
        picked matches Ok(v) && Some(v) == old(a).resp_slot,
        served is Done,
        r matches Step::Done(Ok(v)) && call_ensures(f, (req,), v),
        final(c).req_slot is None,
        final(c).resp_slot is None,
{
}

/// Submitting to a single-slot channel leaves the request for the server, wakes the
/// server, and does not touch an answer that is still there.
pub proof fn slot_call_async_submits_the_request<Req, Resp, W: AsyncWaiter>(
    ch: &mut slots::Channel<Req, Resp, W>,
    req: Req,
    r: Step<Result<Resp, slots::Poisoned>, slots::CallPhase<Req>>,
    seen: bool,
)
    requires
        call_ensures(slots::Channel::<Req, Resp, W>::call_async, (ch, slots::CallPhase::Submit(req)), r),
        call_ensures(slots::Channel::<Req, Resp, W>::has_request, (&*final(ch),), seen),
    ensures
        r matches Step::Wait(at) && at is Await,
        seen,
        final(ch).req_slot == Some(req),
        final(ch).req_waiter == old(ch).req_waiter.woken(),
        final(ch).resp_slot == old(ch).resp_slot,
        final(ch).poisoned == old(ch).poisoned,
{
}

/// Awaiting on a single-slot channel: the pass ends iff there is an answer or the
/// handler has failed, exactly when `is_answered` says so; the answer is handed out
/// once, and the request side is not touched.
pub proof fn slot_call_async_waits_only_for_an_answer<Req, Resp, W: AsyncWaiter>(
    ch: &mut slots::Channel<Req, Resp, W>,
    r: Step<Result<Resp, slots::Poisoned>, slots::CallPhase<Req>>,
    ready: bool,
    left: bool,
)
    requires
        old(ch).wf(),
        call_ensures(slots::Channel::<Req, Resp, W>::is_answered, (&*old(ch),), ready),
        call_ensures(slots::Channel::<Req, Resp, W>::call_async, (ch, slots::CallPhase::Await), r),
        call_ensures(slots::Channel::<Req, Resp, W>::has_response, (&*final(ch),), left),
    ensures
        r is Wait <==> old(ch).resp_slot is None && !old(ch).poisoned,
        r is Done <==> ready,
        r matches Step::Wait(at) ==> at is Await,
        r matches Step::Done(Err(_)) ==> old(ch).poisoned,
        r matches Step::Done(Ok(v)) ==> !old(ch).poisoned && old(ch).resp_slot == Some(v),
        !left,
        final(ch).resp_slot is None,
        final(ch).req_slot == old(ch).req_slot,
        final(ch).req_waiter == old(ch).req_waiter,
        final(ch).poisoned == old(ch).poisoned,
{
}

/// Serving on a single-slot channel: the pass ends iff there is a request; the
/// handler's answer is then there for the client, who is woken, and the request is
/// gone. Without a request nothing changes.
pub proof fn slot_serve_one_async_answers_one_request<Req, Resp, W: AsyncWaiter, F: FnOnce(Req) -> Resp>(
    ch: &mut slots::Channel<Req, Resp, W>,
    f: F,
    r: Step<(), F>,
)
    requires
        call_ensures(slots::Channel::<Req, Resp, W>::serve_one_async::<F>, (ch, f), r),
    ensures
        r is Done <==> old(ch).req_slot is Some,
        r matches Step::Wait(g) ==> g == f && *final(ch) == *old(ch),
        r is Done ==> {
            &&& final(ch).req_slot is None
            &&& final(ch).resp_slot matches Some(v) && call_ensures(f, (old(ch).req_slot->0,), v)
            &&& final(ch).resp_waiter == old(ch).resp_waiter.woken()
            &&& final(ch).req_waiter == old(ch).req_waiter
        },
        final(ch).poisoned == old(ch).poisoned,
{
}

/// A round trip through a single-slot channel: a request that is submitted, then
/// served, then awaited gives the client exactly what the handler made of it, and
/// leaves nothing in flight.
pub proof fn slot_call_async_by_handle_is_answered_by_the_handler<Req, Resp, W: AsyncWaiter, F: FnOnce(Req) -> Resp>(
    client: &slots::Client<Req, Resp, W>,
    server: &slots::Server<Req, Resp, W>,
    a: &mut slots::Channel<Req, Resp, W>,
    b: &mut slots::Channel<Req, Resp, W>,
    c: &mut slots::Channel<Req, Resp, W>,
    req: Req,
    f: F,
    submitted: Step<Result<Resp, slots::Poisoned>, slots::CallPhase<Req>>,
    served: Step<(), F>,
    r: Step<Result<Resp, slots::Poisoned>, slots::CallPhase<Req>>,
)
    requires
        !old(a).poisoned,
        call_ensures(slots::Client::<Req, Resp, W>::call_async, (client, a, slots::CallPhase::Submit(req)), submitted),
        *old(b) == *final(a),
        call_ensures(slots::Server::<Req, Resp, W>::serve_one_async::<F>, (server, b, f), served),
        *old(c) == *final(b),
        call_ensures(slots::Client::<Req, Resp, W>::call_async, (client, c, slots::CallPhase::Await), r),
    ensures
        submitted is Wait,
        submitted->Wait_0 is Await,
        served is Done,
        r matches Step::Done(Ok(v)) && call_ensures(f, (req,), v),
        final(c).req_slot is None,
        final(c).resp_slot is None,
        !final(c).poisoned,
{
}

/// A round trip through a single-slot channel that starts with a `try_call`: it
/// picks up the old answer and submits the new request in one step, and the new
/// request is then served and answered like any other.
pub proof fn slot_try_call_async_by_handle_is_answered_by_the_handler<Req, Resp, W: AsyncWaiter, F: FnOnce(Req) -> Resp>(
    client: &slots::Client<Req, Resp, W>,
    server: &slots::Server<Req, Resp, W>,
    a: &mut slots::Channel<Req, Resp, W>,
    b: &mut slots::Channel<Req, Resp, W>,
    c: &mut slots::Channel<Req, Resp, W>,
    req: Req,
    f: F,
    picked: Result<Resp, Req>,
    served: Step<(), F>,
    r: Step<Result<Resp, slots::Poisoned>, slots::CallPhase<Req>>,
)
    requires
        !old(a).poisoned,
        old(a).resp_slot is Some,
        call_ensures(slots::Client::<Req, Resp, W>::try_call, (client, a, req), picked),
        *old(b) == *final(a),
        call_ensures(slots::Server::<Req, Resp, W>::serve_one_async::<F>, (server, b, f), served),
        *old(c) == *final(b),
        call_ensures(slots::Client::<Req, Resp, W>::call_async, (client, c, slots::CallPhase::Await), r),
    ensures
        picked matches Ok(v) && Some(v) == old(a).resp_slot,
        served is Done,
        r matches Step::Done(Ok(v)) && call_ensures(f, (req,), v),
        final(c).req_slot is None,
        final(c).resp_slot is None,
{
}

/// Submitting to a single-slot channel leaves the request for the server, wakes the
/// server, and does not touch an answer that is still there.
pub proof fn slot_call_async_by_handle_submits_the_request<Req, Resp, W: AsyncWaiter>(
    client: &slots::Client<Req, Resp, W>,
    ch: &mut slots::Channel<Req, Resp, W>,
    req: Req,
    r: Step<Result<Resp, slots::Poisoned>, slots::CallPhase<Req>>,
    seen: bool,
)
    requires
        call_ensures(slots::Client::<Req, Resp, W>::call_async, (client, ch, slots::CallPhase::Submit(req)), r),
        call_ensures(slots::Channel::<Req, Resp, W>::has_request, (&*final(ch),), seen),
    ensures
        r matches Step::Wait(at) && at is Await,
        seen,
        final(ch).req_slot == Some(req),
        final(ch).req_waiter == old(ch).req_waiter.woken(),
        final(ch).resp_slot == old(ch).resp_slot,
        final(ch).poisoned == old(ch).poisoned,
{
}

/// Awaiting on a single-slot channel: the pass ends iff there is an answer or the
/// handler has failed, exactly when `is_answered` says so; the answer is handed out
/// once, and the request side is not touched.
pub proof fn slot_call_async_by_handle_waits_only_for_an_answer<Req, Resp, W: AsyncWaiter>(
    client: &slots::Client<Req, Resp, W>,
    ch: &mut slots::Channel<Req, Resp, W>,
    r: Step<Result<Resp, slots::Poisoned>, slots::CallPhase<Req>>,
    ready: bool,
    left: bool,
)
    requires
        old(ch).wf(),
        call_ensures(slots::Channel::<Req, Resp, W>::is_answered, (&*old(ch),), ready),
        call_ensures(slots::Client::<Req, Resp, W>::call_async, (client, ch, slots::CallPhase::Await), r),
        call_ensures(slots::Channel::<Req, Resp, W>::has_response, (&*final(ch),), left),
    ensures
        r is Wait <==> old(ch).resp_slot is None && !old(ch).poisoned,
        r is Done <==> ready,
        r matches Step::Wait(at) ==> at is Await,
        r matches Step::Done(Err(_)) ==> old(ch).poisoned,
        r matches Step::Done(Ok(v)) ==> !old(ch).poisoned && old(ch).resp_slot == Some(v),
        !left,
        final(ch).resp_slot is None,
        final(ch).req_slot == old(ch).req_slot,
        final(ch).req_waiter == old(ch).req_waiter,
        final(ch).poisoned == old(ch).poisoned,
{
}

/// Serving on a single-slot channel: the pass ends iff there is a request; the
/// handler's answer is then there for the client, who is woken, and the request is
/// gone. Without a request nothing changes.
pub proof fn slot_serve_one_async_by_handle_answers_one_request<Req, Resp, W: AsyncWaiter, F: FnOnce(Req) -> Resp>(
    server: &slots::Server<Req, Resp, W>,
    ch: &mut slots::Channel<Req, Resp, W>,
    f: F,
    r: Step<(), F>,
)
    requires
        call_ensures(slots::Server::<Req, Resp, W>::serve_one_async::<F>, (server, ch, f), r),
    ensures
        r is Done <==> old(ch).req_slot is Some,
        r matches Step::Wait(g) ==> g == f && *final(ch) == *old(ch),
        r is Done ==> {
            &&& final(ch).req_slot is None
            &&& final(ch).resp_slot matches Some(v) && call_ensures(f, (old(ch).req_slot->0,), v)
            &&& final(ch).resp_waiter == old(ch).resp_waiter.woken()
            &&& final(ch).req_waiter == old(ch).req_waiter
        },
        final(ch).poisoned == old(ch).poisoned,
{
}

/// `try_call` on a single-slot channel goes ahead iff an answer is pending: that
/// answer comes out, the new request is there for the server, who is woken, and no
/// answer is left. Otherwise the request comes back and nothing changes.
pub proof fn slot_try_call_picks_up_and_submits<Req, Resp, W: Waiter>(
    ch: &mut slots::Channel<Req, Resp, W>,
    next: &mut slots::Channel<Req, Resp, W>,
    req: Req,
    r: Result<Resp, Req>,
    seen: bool,
    taken: Option<Req>,
)
    requires
        old(ch).wf(),
        !old(ch).poisoned,
        call_ensures(slots::Channel::<Req, Resp, W>::try_call, (ch, req), r),
        call_ensures(slots::Channel::<Req, Resp, W>::has_request, (&*final(ch),), seen),
        *old(next) == *final(ch),
        call_ensures(slots::Channel::<Req, Resp, W>::take_request, (next,), taken),
    ensures
        r is Ok <==> old(ch).resp_slot is Some,
        r matches Ok(v) ==> {
            &&& old(ch).resp_slot == Some(v)
            &&& seen
            &&& taken == Some(req)
            &&& final(ch).req_waiter == old(ch).req_waiter.woken()
            &&& final(ch).resp_slot is None
        },
        r matches Err(v) ==> v == req && *final(ch) == *old(ch),
{
}

/// `try_call` on a single-slot channel goes ahead iff an answer is pending: that
/// answer comes out, the new request is there for the server, who is woken, and no
/// answer is left. Otherwise the request comes back and nothing changes.
pub proof fn slot_try_call_by_handle_picks_up_and_submits<Req, Resp, W: Waiter>(
    client: &slots::Client<Req, Resp, W>,
    ch: &mut slots::Channel<Req, Resp, W>,
    next: &mut slots::Channel<Req, Resp, W>,
    req: Req,
    r: Result<Resp, Req>,
    seen: bool,
    taken: Option<Req>,
)
    requires
        old(ch).wf(),
        !old(ch).poisoned,
        call_ensures(slots::Client::<Req, Resp, W>::try_call, (client, ch, req), r),
        call_ensures(slots::Channel::<Req, Resp, W>::has_request, (&*final(ch),), seen),
        *old(next) == *final(ch),
        call_ensures(slots::Channel::<Req, Resp, W>::take_request, (next,), taken),
    ensures
        r is Ok <==> old(ch).resp_slot is Some,
        r matches Ok(v) ==> {
            &&& old(ch).resp_slot == Some(v)
            &&& seen
            &&& taken == Some(req)
            &&& final(ch).req_waiter == old(ch).req_waiter.woken()
            &&& final(ch).resp_slot is None
        },
        r matches Err(v) ==> v == req && *final(ch) == *old(ch),
{
}

/// What a server replies on a single-slot channel is what the waiting client gets.
pub proof fn slot_reply_reaches_the_client<Req, Resp, W: Waiter>(
    a: &mut slots::Channel<Req, Resp, W>,
    b: &mut slots::Channel<Req, Resp, W>,
    resp: Resp,
    r: Step<Result<Resp, slots::Poisoned>, slots::CallPhase<Req>>,
)
    requires
        !old(a).poisoned,
        call_ensures(slots::Channel::<Req, Resp, W>::reply, (a, resp), ()),
        *old(b) == *final(a),
        call_ensures(slots::Channel::<Req, Resp, W>::call, (b, slots::CallPhase::Await), r),
    ensures
        r matches Step::Done(Ok(v)) && v == resp,
        final(a).resp_waiter == old(a).resp_waiter.woken(),
        final(a).req_slot == old(a).req_slot,
{
}

/// A request on a single-slot channel is taken once: what was there comes out, and
/// nothing is there any more.
pub proof fn slot_request_is_taken_once<Req, Resp, W: Waiter>(
    a: &mut slots::Channel<Req, Resp, W>,
    b: &mut slots::Channel<Req, Resp, W>,
    first: Option<Req>,
    second: Option<Req>,
    seen: bool,
)
    requires
        call_ensures(slots::Channel::<Req, Resp, W>::take_request, (a,), first),
        *old(b) == *final(a),
        call_ensures(slots::Channel::<Req, Resp, W>::take_request, (b,), second),
        call_ensures(slots::Channel::<Req, Resp, W>::has_request, (&*final(a),), seen),
    ensures
        first == old(a).req_slot,
        second is None,
        !seen,
        final(a).resp_slot == old(a).resp_slot,
        final(a).poisoned == old(a).poisoned,
{
}

/// Poison on a single-slot channel ends a call that waits, and every call after it.
pub proof fn slot_poison_ends_every_call<Req, Resp, W: Waiter>(
    a: &mut slots::Channel<Req, Resp, W>,
    b: &mut slots::Channel<Req, Resp, W>,
    c: &mut slots::Channel<Req, Resp, W>,
    d: &mut slots::Channel<Req, Resp, W>,
    req: Req,
    first: Step<Result<Resp, slots::Poisoned>, slots::CallPhase<Req>>,
    submitted: Step<Result<Resp, slots::Poisoned>, slots::CallPhase<Req>>,
    second: Step<Result<Resp, slots::Poisoned>, slots::CallPhase<Req>>,
)
    requires
        call_ensures(slots::Channel::<Req, Resp, W>::poison, (a,), ()),
        *old(b) == *final(a),
        call_ensures(slots::Channel::<Req, Resp, W>::call, (b, slots::CallPhase::Await), first),
        *old(c) == *final(b),
        call_ensures(slots::Channel::<Req, Resp, W>::call, (c, slots::CallPhase::Submit(req)), submitted),
        *old(d) == *final(c),
        call_ensures(slots::Channel::<Req, Resp, W>::call, (d, slots::CallPhase::Await), second),
    ensures
        first matches Step::Done(Err(_)),
        second matches Step::Done(Err(_)),
        final(a).resp_waiter == old(a).resp_waiter.woken(),
{
}

/// Nothing is in flight on a single-slot channel that is new.
pub proof fn slot_channel_starts_idle<Req, Resp, W: Waiter>(
    ch: slots::Channel<Req, Resp, W>,
    request: bool,
    response: bool,
    answered: bool,
)
    requires
        call_ensures(slots::Channel::<Req, Resp, W>::new, (), ch),
        call_ensures(slots::Channel::<Req, Resp, W>::has_request, (&ch,), request),
        call_ensures(slots::Channel::<Req, Resp, W>::has_response, (&ch,), response),
        call_ensures(slots::Channel::<Req, Resp, W>::is_answered, (&ch,), answered),
    ensures
        !request,
        !response,
        !answered,
        ch.req_slot is None,
        ch.resp_slot is None,
        !ch.poisoned,
{
}

/// The handles of a single-slot channel see what the channel sees.
pub proof fn slot_handles_see_the_channel<Req, Resp, W: Waiter>(
    client: &slots::Client<Req, Resp, W>,
    server: &slots::Server<Req, Resp, W>,
    ch: &slots::Channel<Req, Resp, W>,
    request: bool,
    response: bool,
)
    requires
        ch.wf(),
        call_ensures(slots::Server::<Req, Resp, W>::has_request, (server, ch), request),
        call_ensures(slots::Client::<Req, Resp, W>::has_response, (client, ch), response),
    ensures
        request <==> ch.req_slot is Some,
        ch.resp_slot is Some ==> response,
        response && !ch.poisoned ==> ch.resp_slot is Some,
{
}

/// A round trip through a channel on signals: a request that is submitted, then
/// served, then awaited gives the client exactly what the handler made of it, and
/// leaves nothing in flight.
pub proof fn gate_call_is_answered_by_the_handler<Req, Resp, F: FnOnce(Req) -> Resp>(
    a: &mut signals::Channel<Req, Resp>,
    b: &mut signals::Channel<Req, Resp>,
    c: &mut signals::Channel<Req, Resp>,
    req: Req,
    f: F,
    submitted: Step<Result<Resp, signals::Poisoned>, signals::CallPhase<Req>>,
    served: Step<(), F>,
    r: Step<Result<Resp, signals::Poisoned>, signals::CallPhase<Req>>,
)
    requires
        !old(a).poisoned,
        call_ensures(signals::Channel::<Req, Resp>::call, (a, signals::CallPhase::Submit(req)), submitted),
        *old(b) == *final(a),
        call_ensures(signals::Channel::<Req, Resp>::serve_one::<F>, (b, f), served),
        *old(c) == *final(b),
        call_ensures(signals::Channel::<Req, Resp>::call, (c, signals::CallPhase::Await), r),
    ensures
        submitted is Wait,
        submitted->Wait_0 is Await,
        served is Done,
        r matches Step::Done(Ok(v)) && call_ensures(f, (req,), v),
        final(c).req_slot is None,
        final(c).resp_slot is None,
        !final(c).poisoned,
{
}

/// A round trip through a channel on signals that starts with a `try_call`: it
/// picks up the old answer and submits the new request in one step, and the new
/// request is then served and answered like any other.
pub proof fn gate_try_call_is_answered_by_the_handler<Req, Resp, F: FnOnce(Req) -> Resp>(
    a: &mut signals::Channel<Req, Resp>,
    b: &mut signals::Channel<Req, Resp>,
    c: &mut signals::Channel<Req, Resp>,
    req: Req,
    f: F,
    picked: Result<Resp, Req>,
    served: Step<(), F>,
    r: Step<Result<Resp, signals::Poisoned>, signals::CallPhase<Req>>,
)
    requires
        !old(a).poisoned,
        old(a).resp_slot is Some,
        call_ensures(signals::Channel::<Req, Resp>::try_call, (a, req), picked),
        *old(b) == *final(a),
        call_ensures(signals::Channel::<Req, Resp>::serve_one::<F>, (b, f), served),
        *old(c) == *final(b),
        call_ensures(signals::Channel::<Req, Resp>::call, (c, signals::CallPhase::Await), r),
    ensures
        picked matches Ok(v) && Some(v) == old(a).resp_slot,
        served is Done,
        r matches Step::Done(Ok(v)) && call_ensures(f, (req,), v),
        final(c).req_slot is None,
        final(c).resp_slot is None,
{
}

/// Submitting to a channel on signals leaves the request for the server, wakes the
/// server, and does not touch an answer that is still there.
pub proof fn gate_call_submits_the_request<Req, Resp>(
    ch: &mut signals::Channel<Req, Resp>,
    req: Req,
    r: Step<Result<Resp, signals::Poisoned>, signals::CallPhase<Req>>,
    seen: bool,
)
    requires
        call_ensures(signals::Channel::<Req, Resp>::call, (ch, signals::CallPhase::Submit(req)), r),
        call_ensures(signals::Channel::<Req, Resp>::has_request, (&*final(ch),), seen),
    ensures
        r matches Step::Wait(at) && at is Await,
        seen,
        final(ch).req_slot == Some(req),
        final(ch).req_gate.parker == old(ch).req_gate.parker.woken(),
        final(ch).resp_slot == old(ch).resp_slot,
        final(ch).poisoned == old(ch).poisoned,
{
}

/// Awaiting on a channel on signals: the pass ends iff there is an answer or the
/// handler has failed, exactly when `is_answered` says so; the answer is handed out
/// once, and the request side is not touched.
pub proof fn gate_call_waits_only_for_an_answer<Req, Resp>(
    ch: &mut signals::Channel<Req, Resp>,
    r: Step<Result<Resp, signals::Poisoned>, signals::CallPhase<Req>>,
    ready: bool,
    left: bool,
)
    requires
        old(ch).wf(),
        call_ensures(signals::Channel::<Req, Resp>::is_answered, (&*old(ch),), ready),
        call_ensures(signals::Channel::<Req, Resp>::call, (ch, signals::CallPhase::Await), r),
        call_ensures(signals::Channel::<Req, Resp>::has_response, (&*final(ch),), left),
    ensures
        r is Wait <==> old(ch).resp_slot is None && !old(ch).poisoned,
        r is Done <==> ready,
        r matches Step::Wait(at) ==> at is Await,
        r matches Step::Done(Err(_)) ==> old(ch).poisoned,
        r matches Step::Done(Ok(v)) ==> !old(ch).poisoned && old(ch).resp_slot == Some(v),
        !left,
        final(ch).resp_slot is None,
        final(ch).req_slot == old(ch).req_slot,
        final(ch).req_gate.parker == old(ch).req_gate.parker,
        final(ch).poisoned == old(ch).poisoned,
{
}

/// Serving on a channel on signals: the pass ends iff there is a request; the
/// handler's answer is then there for the client, who is woken, and the request is
/// gone. Without a request nothing changes.
pub proof fn gate_serve_one_answers_one_request<Req, Resp, F: FnOnce(Req) -> Resp>(
    ch: &mut signals::Channel<Req, Resp>,
    f: F,
    r: Step<(), F>,
)
    requires
        call_ensures(signals::Channel::<Req, Resp>::serve_one::<F>, (ch, f), r),
    ensures
        r is Done <==> old(ch).req_slot is Some,
        r matches Step::Wait(g) ==> g == f && *final(ch) == *old(ch),
        r is Done ==> {
            &&& final(ch).req_slot is None
            &&& final(ch).resp_slot matches Some(v) && call_ensures(f, (old(ch).req_slot->0,), v)
            &&& final(ch).resp_gate.parker == old(ch).resp_gate.parker.woken()
            &&& final(ch).req_gate.parker == old(ch).req_gate.parker
        },
        final(ch).poisoned == old(ch).poisoned,
{
}

/// A round trip through a channel on signals: a request that is submitted, then
/// served, then awaited gives the client exactly what the handler made of it, and
/// leaves nothing in flight.
pub proof fn gate_call_by_handle_is_answered_by_the_handler<Req, Resp, F: FnOnce(Req) -> Resp>(
    client: &signals::Client<Req, Resp>,
    server: &signals::Server<Req, Resp>,
    a: &mut signals::Channel<Req, Resp>,
    b: &mut signals::Channel<Req, Resp>,
    c: &mut signals::Channel<Req, Resp>,
    req: Req,
    f: F,
    submitted: Step<Result<Resp, signals::Poisoned>, signals::CallPhase<Req>>,
    served: Step<(), F>,
    r: Step<Result<Resp, signals::Poisoned>, signals::CallPhase<Req>>,
)
    requires
        !old(a).poisoned,
        call_ensures(signals::Client::<Req, Resp>::call, (client, a, signals::CallPhase::Submit(req)), submitted),
        *old(b) == *final(a),
        call_ensures(signals::Server::<Req, Resp>::serve_one::<F>, (server, b, f), served),
        *old(c) == *final(b),
        call_ensures(signals::Client::<Req, Resp>::call, (client, c, signals::CallPhase::Await), r),
    ensures
        submitted is Wait,
        submitted->Wait_0 is Await,
        served is Done,
        r matches Step::Done(Ok(v)) && call_ensures(f, (req,), v),
        final(c).req_slot is None,
        final(c).resp_slot is None,
        !final(c).poisoned,
{
}

/// A round trip through a channel on signals that starts with a `try_call`: it
/// picks up the old answer and submits the new request in one step, and the new
/// request is then served and answered like any other.
pub proof fn gate_try_call_by_handle_is_answered_by_the_handler<Req, Resp, F: FnOnce(Req) -> Resp>(
    client: &signals::Client<Req, Resp>,
    server: &signals::Server<Req, Resp>,
    a: &mut signals::Channel<Req, Resp>,
    b: &mut signals::Channel<Req, Resp>,
    c: &mut signals::Channel<Req, Resp>,
    req: Req,
    f: F,
    picked: Result<Resp, Req>,
    served: Step<(), F>,
    r: Step<Result<Resp, signals::Poisoned>, signals::CallPhase<Req>>,
)
    requires
        !old(a).poisoned,
        old(a).resp_slot is Some,
        call_ensures(signals::Client::<Req, Resp>::try_call, (client, a, req), picked),
        *old(b) == *final(a),
        call_ensures(signals::Server::<Req, Resp>::serve_one::<F>, (server, b, f), served),
        *old(c) == *final(b),
        call_ensures(signals::Client::<Req, Resp>::call, (client, c, signals::CallPhase::Await), r),
    ensures
        picked matches Ok(v) && Some(v) == old(a).resp_slot,
        served is Done,
        r matches Step::Done(Ok(v)) && call_ensures(f, (req,), v),
        final(c).req_slot is None,
        final(c).resp_slot is None,
{
}

/// Submitting to a channel on signals leaves the request for the server, wakes the
/// server, and does not touch an answer that is still there.
pub proof fn gate_call_by_handle_submits_the_request<Req, Resp>(
    client: &signals::Client<Req, Resp>,
    ch: &mut signals::Channel<Req, Resp>,
    req: Req,
    r: Step<Result<Resp, signals::Poisoned>, signals::CallPhase<Req>>,
    seen: bool,
)
    requires
        call_ensures(signals::Client::<Req, Resp>::call, (client, ch, signals::CallPhase::Submit(req)), r),
        call_ensures(signals::Channel::<Req, Resp>::has_request, (&*final(ch),), seen),
    ensures
        r matches Step::Wait(at) && at is Await,
        seen,
        final(ch).req_slot == Some(req),
        final(ch).req_gate.parker == old(ch).req_gate.parker.woken(),
        final(ch).resp_slot == old(ch).resp_slot,
        final(ch).poisoned == old(ch).poisoned,
{
}

/// Awaiting on a channel on signals: the pass ends iff there is an answer or the
/// handler has failed, exactly when `is_answered` says so; the answer is handed out
/// once, and the request side is not touched.
pub proof fn gate_call_by_handle_waits_only_for_an_answer<Req, Resp>(
    client: &signals::Client<Req, Resp>,
    ch: &mut signals::Channel<Req, Resp>,
    r: Step<Result<Resp, signals::Poisoned>, signals::CallPhase<Req>>,
    ready: bool,
    left: bool,
)
    requires
        old(ch).wf(),
        call_ensures(signals::Channel::<Req, Resp>::is_answered, (&*old(ch),), ready),
        call_ensures(signals::Client::<Req, Resp>::call, (client, ch, signals::CallPhase::Await), r),
        call_ensures(signals::Channel::<Req, Resp>::has_response, (&*final(ch),), left),
    ensures
        r is Wait <==> old(ch).resp_slot is None && !old(ch).poisoned,
        r is Done <==> ready,
        r matches Step::Wait(at) ==> at is Await,
        r matches Step::Done(Err(_)) ==> old(ch).poisoned,
        r matches Step::Done(Ok(v)) ==> !old(ch).poisoned && old(ch).resp_slot == Some(v),
        !left,
        final(ch).resp_slot is None,
        final(ch).req_slot == old(ch).req_slot,
        final(ch).req_gate.parker == old(ch).req_gate.parker,
        final(ch).poisoned == old(ch).poisoned,
{
}

/// Serving on a channel on signals: the pass ends iff there is a request; the
/// handler's answer is then there for the client, who is woken, and the request is
/// gone. Without a request nothing changes.
pub proof fn gate_serve_one_by_handle_answers_one_request<Req, Resp, F: FnOnce(Req) -> Resp>(
    server: &signals::Server<Req, Resp>,
    ch: &mut signals::Channel<Req, Resp>,
    f: F,
    r: Step<(), F>,
)
    requires
        call_ensures(signals::Server::<Req, Resp>::serve_one::<F>, (server, ch, f), r),
    ensures
        r is Done <==> old(ch).req_slot is Some,
        r matches Step::Wait(g) ==> g == f && *final(ch) == *old(ch),
        r is Done ==> {
            &&& final(ch).req_slot is None
            &&& final(ch).resp_slot matches Some(v) && call_ensures(f, (old(ch).req_slot->0,), v)
            &&& final(ch).resp_gate.parker == old(ch).resp_gate.parker.woken()
            &&& final(ch).req_gate.parker == old(ch).req_gate.parker
        },
        final(ch).poisoned == old(ch).poisoned,
{
}

/// `try_call` on a channel on signals goes ahead iff an answer is pending: that
/// answer comes out, the new request is there for the server, who is woken, and no
/// answer is left. Otherwise the request comes back and nothing changes.
pub proof fn gate_try_call_picks_up_and_submits<Req, Resp>(
    ch: &mut signals::Channel<Req, Resp>,
    next: &mut signals::Channel<Req, Resp>,
    req: Req,
    r: Result<Resp, Req>,
    seen: bool,
    taken: Option<Req>,
)
    requires
        old(ch).wf(),
        !old(ch).poisoned,
        call_ensures(signals::Channel::<Req, Resp>::try_call, (ch, req), r),
        call_ensures(signals::Channel::<Req, Resp>::has_request, (&*final(ch),), seen),
        *old(next) == *final(ch),
        call_ensures(signals::Channel::<Req, Resp>::take_request, (next,), taken),
    ensures
        r is Ok <==> old(ch).resp_slot is Some,
        r matches Ok(v) ==> {
            &&& old(ch).resp_slot == Some(v)
            &&& seen
            &&& taken == Some(req)
            &&& final(ch).req_gate.parker == old(ch).req_gate.parker.woken()
            &&& final(ch).resp_slot is None
        },
        r matches Err(v) ==> v == req && *final(ch) == *old(ch),
{
}

/// `try_call` on a channel on signals goes ahead iff an answer is pending: that
/// answer comes out, the new request is there for the server, who is woken, and no
/// answer is left. Otherwise the request comes back and nothing changes.
pub proof fn gate_try_call_by_handle_picks_up_and_submits<Req, Resp>(
    client: &signals::Client<Req, Resp>,
    ch: &mut signals::Channel<Req, Resp>,
    next: &mut signals::Channel<Req, Resp>,
    req: Req,
    r: Result<Resp, Req>,
    seen: bool,
    taken: Option<Req>,
)
    requires
        old(ch).wf(),
        !old(ch).poisoned,
        call_ensures(signals::Client::<Req, Resp>::try_call, (client, ch, req), r),
        call_ensures(signals::Channel::<Req, Resp>::has_request, (&*final(ch),), seen),
        *old(next) == *final(ch),
        call_ensures(signals::Channel::<Req, Resp>::take_request, (next,), taken),
    ensures
        r is Ok <==> old(ch).resp_slot is Some,
        r matches Ok(v) ==> {
            &&& old(ch).resp_slot == Some(v)
            &&& seen
            &&& taken == Some(req)
            &&& final(ch).req_gate.parker == old(ch).req_gate.parker.woken()
            &&& final(ch).resp_slot is None
        },
        r matches Err(v) ==> v == req && *final(ch) == *old(ch),
{
}

/// What a server replies on a channel on signals is what the waiting client gets.
pub proof fn gate_reply_reaches_the_client<Req, Resp>(
    a: &mut signals::Channel<Req, Resp>,
    b: &mut signals::Channel<Req, Resp>,
    resp: Resp,
    r: Step<Result<Resp, signals::Poisoned>, signals::CallPhase<Req>>,
)
    requires
        !old(a).poisoned,
        call_ensures(signals::Channel::<Req, Resp>::reply, (a, resp), ()),
        *old(b) == *final(a),
        call_ensures(signals::Channel::<Req, Resp>::call, (b, signals::CallPhase::Await), r),
    ensures
        r matches Step::Done(Ok(v)) && v == resp,
        final(a).resp_gate.parker == old(a).resp_gate.parker.woken(),
        final(a).req_slot == old(a).req_slot,
{
}

/// A request on a channel on signals is taken once: what was there comes out, and
/// nothing is there any more.
pub proof fn gate_request_is_taken_once<Req, Resp>(
    a: &mut signals::Channel<Req, Resp>,
    b: &mut signals::Channel<Req, Resp>,
    first: Option<Req>,
    second: Option<Req>,
    seen: bool,
)
    requires
        call_ensures(signals::Channel::<Req, Resp>::take_request, (a,), first),
        *old(b) == *final(a),
        call_ensures(signals::Channel::<Req, Resp>::take_request, (b,), second),
        call_ensures(signals::Channel::<Req, Resp>::has_request, (&*final(a),), seen),
    ensures
        first == old(a).req_slot,
        second is None,
        !seen,
        final(a).resp_slot == old(a).resp_slot,
        final(a).poisoned == old(a).poisoned,
{
}

/// Poison on a channel on signals ends a call that waits, and every call after it.
pub proof fn gate_poison_ends_every_call<Req, Resp>(
    a: &mut signals::Channel<Req, Resp>,
    b: &mut signals::Channel<Req, Resp>,
    c: &mut signals::Channel<Req, Resp>,
    d: &mut signals::Channel<Req, Resp>,
    req: Req,
    first: Step<Result<Resp, signals::Poisoned>, signals::CallPhase<Req>>,
    submitted: Step<Result<Resp, signals::Poisoned>, signals::CallPhase<Req>>,
    second: Step<Result<Resp, signals::Poisoned>, signals::CallPhase<Req>>,
)
    requires
        call_ensures(signals::Channel::<Req, Resp>::poison, (a,), ()),
        *old(b) == *final(a),
        call_ensures(signals::Channel::<Req, Resp>::call, (b, signals::CallPhase::Await), first),
        *old(c) == *final(b),
        call_ensures(signals::Channel::<Req, Resp>::call, (c, signals::CallPhase::Submit(req)), submitted),
        *old(d) == *final(c),
        call_ensures(signals::Channel::<Req, Resp>::call, (d, signals::CallPhase::Await), second),
    ensures
        first matches Step::Done(Err(_)),
        second matches Step::Done(Err(_)),
        final(a).resp_gate.parker == old(a).resp_gate.parker.woken(),
{
}

/// Nothing is in flight on a channel on signals that is new.
pub proof fn gate_channel_starts_idle<Req, Resp>(
    ch: signals::Channel<Req, Resp>,
    request: bool,
    response: bool,
    answered: bool,
)
    requires
        call_ensures(signals::Channel::<Req, Resp>::new, (), ch),
        call_ensures(signals::Channel::<Req, Resp>::has_request, (&ch,), request),
        call_ensures(signals::Channel::<Req, Resp>::has_response, (&ch,), response),
        call_ensures(signals::Channel::<Req, Resp>::is_answered, (&ch,), answered),
    ensures
        !request,
        !response,
        !answered,
        ch.req_slot is None,
        ch.resp_slot is None,
        !ch.poisoned,
{
}

/// The handles of a channel on signals see what the channel sees.
pub proof fn gate_handles_see_the_channel<Req, Resp>(
    client: &signals::Client<Req, Resp>,
    server: &signals::Server<Req, Resp>,
    ch: &signals::Channel<Req, Resp>,
    request: bool,
    response: bool,
)
    requires
        ch.wf(),
        call_ensures(signals::Server::<Req, Resp>::has_request, (server, ch), request),
        call_ensures(signals::Client::<Req, Resp>::has_response, (client, ch), response),
    ensures
        request <==> ch.req_slot is Some,
        ch.resp_slot is Some ==> response,
        response && !ch.poisoned ==> ch.resp_slot is Some,
{
}

} // verus!
