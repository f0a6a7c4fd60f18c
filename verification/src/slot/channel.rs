//! Request/response channel between one client and one server.
//!
//! The client writes a request and wakes the server; the server takes it, runs
//! its handler, writes the response and wakes the client. A server whose
//! handler fails *poisons* the channel, which ends the client's wait without a
//! response. The waiters decide whether the two sides are threads or tasks.
use crate::waiter::{AsyncWaiter, ParkWaiter, Step, Waiter};
use core::marker::PhantomData;
use vstd::prelude::*;

verus! {

/// The server's handler failed; there will be no response.
#[derive(Debug, Clone, Copy, PartialEq, Eq, Structural)]
pub struct Poisoned;

/// Where a call stands.
#[derive(Debug, PartialEq, Eq)]
pub enum CallPhase<Req> {
    /// The request has not been submitted yet.
    Submit(Req),
    /// The response is awaited.
    Await,
}

/// Both directions of a channel.
pub struct Channel<Req, Resp, W: Waiter = ParkWaiter> {
    /// The request in flight.
    pub req_slot: Option<Req>,
    /// Where the server waits for a request.
    pub req_waiter: W,
    /// The client has been answered.
    pub resp_open: bool,
    /// The response in flight.
    pub resp_slot: Option<Resp>,
    /// Where the client waits for its answer.
    pub resp_waiter: W,
    /// The server's handler has failed.
    pub poisoned: bool,
}

impl<Req, Resp, W: Waiter> Default for Channel<Req, Resp, W> {
    fn default() -> (c: Self)
        ensures
            c.wf(),
            c.idle(),
    {
        Self::new()
    }
}

impl<Req, Resp, W: Waiter> Channel<Req, Resp, W> {
    /// A request is pending.
    pub open spec fn requested(&self) -> bool {
        self.req_slot is Some
    }

    /// The client has been answered, with a response or by poison.
    pub open spec fn answered(&self) -> bool {
        self.resp_open
    }

    /// Validity: the client is answered by a response or by poison.
    pub open spec fn wf(&self) -> bool {
        &&& self.resp_slot is Some ==> self.answered()
        &&& self.answered() && !self.poisoned ==> self.resp_slot is Some
    }

    /// Nothing is in flight and nothing has failed.
    pub open spec fn idle(&self) -> bool {
        &&& self.req_slot is None
        &&& self.resp_slot is None
        &&& !self.answered()
        &&& !self.poisoned
        &&& self.req_waiter == W::initial()
        &&& self.resp_waiter == W::initial()
    }

    /// How one pass of a call at `at` ends, and the channel `next` after it.
    pub open spec fn called(
        &self,
        at: CallPhase<Req>,
        next: Self,
        r: Step<Result<Resp, Poisoned>, CallPhase<Req>>,
    ) -> bool {
        &&& next.poisoned == self.poisoned
        &&& match at {
            CallPhase::Submit(req) => {
                &&& r == Step::<Result<Resp, Poisoned>, CallPhase<Req>>::Wait(CallPhase::Await)
                &&& next.req_slot == Some(req)
                &&& next.req_waiter == self.req_waiter.woken()
                &&& next.resp_waiter == self.resp_waiter && next.resp_open == self.resp_open
                &&& next.resp_slot == self.resp_slot
            },
            CallPhase::Await => {
                &&& r == (if self.poisoned {
                    Step::Done(Err(Poisoned))
                } else if self.resp_slot is Some {
                    Step::Done(Ok(self.resp_slot->0))
                } else {
                    Step::Wait(CallPhase::<Req>::Await)
                })
                &&& next.req_slot == self.req_slot
                &&& next.req_waiter == self.req_waiter
                &&& !next.answered()
                &&& next.resp_slot is None
                &&& next.resp_waiter == self.resp_waiter
            },
        }
    }

    /// How a [`Channel::try_call`] ends, and the channel `next` after it.
    pub open spec fn try_called(&self, req: Req, next: Self, r: Result<Resp, Req>) -> bool {
        &&& next.poisoned == self.poisoned
        &&& match self.resp_slot {
            Some(resp) => {
                &&& r == Ok::<Resp, Req>(resp)
                &&& next.req_slot == Some(req)
                &&& next.req_waiter == self.req_waiter.woken()
                &&& next.resp_slot is None
                &&& next.resp_waiter == self.resp_waiter
            },
            None => {
                &&& r == Err::<Resp, Req>(req)
                &&& next == *self
            },
        }
    }

    /// How a [`Channel::serve_one`] ends, and the channel `next` after it.
    pub open spec fn served<F: FnOnce(Req) -> Resp>(&self, f: F, next: Self, r: Step<(), F>) -> bool {
        &&& next.poisoned == self.poisoned
        &&& match self.req_slot {
            Some(req) => {
                &&& r is Done
                &&& next.req_slot is None
                &&& next.req_waiter == self.req_waiter
                &&& next.resp_slot is Some
                &&& call_ensures(f, (req,), next.resp_slot->0)
                &&& next.resp_waiter == self.resp_waiter.woken()
            },
            None => {
                &&& r == Step::<(), F>::Wait(f)
                &&& next == *self
            },
        }
    }

    /// A fresh channel.
    pub fn new() -> (c: Self)
        ensures
            c.wf(),
            c.idle(),
    {
        Channel {
            req_slot: None,
            req_waiter: W::fresh(),
            resp_open: false,
            resp_slot: None,
            resp_waiter: W::fresh(),
            poisoned: false,
        }
    }

    /// A fresh channel with its unique client and server.
    pub fn spsc() -> (r: (Self, Client<Req, Resp, W>, Server<Req, Resp, W>))
        ensures
            r.0.wf(),
            r.0.idle(),
    {
        (Self::new(), Client { shared: PhantomData }, Server { shared: PhantomData })
    }

    /// Register the client.
    pub fn set_client(&mut self)
        ensures
            *final(self) == (Channel {
                resp_waiter: old(self).resp_waiter.bound(),
                ..*old(self)
            }),
    {
        self.resp_waiter.set_worker();
    }

    /// Register the server.
    pub fn set_server(&mut self)
        ensures
            *final(self) == (Channel {
                req_waiter: old(self).req_waiter.bound(),
                ..*old(self)
            }),
    {
        self.req_waiter.set_worker();
    }

    /// Write a request and wake the server.
    fn submit(&mut self, req: Req)
        requires
            old(self).wf(),
        ensures
            final(self).wf(),
            final(self).req_slot == Some(req),
            final(self).req_waiter == old(self).req_waiter.woken(),
            final(self).resp_waiter == old(self).resp_waiter && final(self).resp_open == old(self).resp_open,
            final(self).resp_slot == old(self).resp_slot,
            final(self).poisoned == old(self).poisoned,
    {
        self.req_slot = Some(req);
        self.req_waiter.wake();
    }

    /// One pass of a call. The first pass submits the request; a later pass is
    /// done with the response, or with [`Poisoned`] on a poisoned channel,
    /// and otherwise waits until [`Channel::is_answered`] holds.
    pub fn call(&mut self, at: CallPhase<Req>) -> (r: Step<Result<Resp, Poisoned>, CallPhase<Req>>)
        requires
            old(self).wf(),
        ensures
            final(self).wf(),
            old(self).called(at, *final(self), r),
    {
        match at {
            CallPhase::Submit(req) => {
                self.submit(req);
                Step::Wait(CallPhase::Await)
            },
            CallPhase::Await => {
                if self.poisoned {
                    self.resp_slot = None;
                    self.resp_open = false;
                    return Step::Done(Err(Poisoned));
                }
                if !self.resp_open {
                    return Step::Wait(CallPhase::Await);
                }
                let r: Resp = self.resp_slot.take().unwrap();
                self.resp_open = false;
                Step::Done(Ok(r))
            },
        }
    }

    /// Take a pending response and submit the next request in its place; if
    /// there is no response, the request comes back and nothing changes.
    pub fn try_call(&mut self, req: Req) -> (r: Result<Resp, Req>)
        requires
            old(self).wf(),
            !(old(self).answered() && old(self).poisoned),
        ensures
            final(self).wf(),
            old(self).try_called(req, *final(self), r),
    {
        if !self.resp_open {
            return Err(req);
        }
        let r: Resp = self.resp_slot.take().unwrap();
        self.resp_open = false;
        self.submit(req);
        Ok(r)
    }

    /// Take the pending request, if there is one.
    pub fn take_request(&mut self) -> (r: Option<Req>)
        requires
            old(self).wf(),
        ensures
            final(self).wf(),
            r == old(self).req_slot,
            final(self).req_slot is None,
            final(self).req_waiter == old(self).req_waiter,
            final(self).resp_waiter == old(self).resp_waiter && final(self).resp_open == old(self).resp_open,
            final(self).resp_slot == old(self).resp_slot,
            final(self).poisoned == old(self).poisoned,
    {
        self.req_slot.take()
    }

    /// Write a response and wake the client.
    pub fn reply(&mut self, resp: Resp)
        requires
            old(self).wf(),
        ensures
            final(self).wf(),
            final(self).resp_slot == Some(resp),
            final(self).answered(),
            final(self).resp_waiter == old(self).resp_waiter.woken(),
            final(self).req_waiter == old(self).req_waiter,
            final(self).req_slot == old(self).req_slot,
            final(self).poisoned == old(self).poisoned,
    {
        self.resp_slot = Some(resp);
        self.resp_open = true;
        self.resp_waiter.wake();
    }

    /// The handler failed: poison the channel and wake the client.
    pub fn poison(&mut self)
        requires
            old(self).wf(),
        ensures
            final(self).wf(),
            final(self).poisoned,
            final(self).answered(),
            final(self).resp_slot == old(self).resp_slot,
            final(self).resp_waiter == old(self).resp_waiter.woken(),
            final(self).req_waiter == old(self).req_waiter,
            final(self).req_slot == old(self).req_slot,
    {
        self.poisoned = true;
        self.resp_open = true;
        self.resp_waiter.wake();
    }

    /// One pass of serving a request: done once a pending request has been
    /// answered with what `f` makes of it, otherwise the next pass is due when
    /// there is a request, and `f` comes back.
    pub fn serve_one<F: FnOnce(Req) -> Resp>(&mut self, f: F) -> (r: Step<(), F>)
        requires
            old(self).wf(),
            old(self).req_slot matches Some(req) ==> call_requires(f, (req,)),
        ensures
            final(self).wf(),
            old(self).served(f, *final(self), r),
    {
        match self.take_request() {
            Some(req) => {
                let resp: Resp = f(req);
                self.reply(resp);
                Step::Done(())
            },
            None => Step::Wait(f),
        }
    }

    /// True iff a request is pending.
    pub fn has_request(&self) -> (b: bool)
        ensures
            b == self.requested(),
    {
        self.req_slot.is_some()
    }

    /// True iff the client has been answered.
    pub fn has_response(&self) -> (b: bool)
        ensures
            b == self.answered(),
    {
        self.resp_open
    }

    /// What a waiting client waits for: a response, or poison.
    pub fn is_answered(&self) -> (b: bool)
        ensures
            b == (self.answered() || self.poisoned),
    {
        self.resp_open || self.poisoned
    }
}

impl<Req, Resp, W: AsyncWaiter> Channel<Req, Resp, W> {
    /// One pass of an awaited call; see [`Channel::call`].
    pub fn call_async(&mut self, at: CallPhase<Req>) -> (r: Step<
        Result<Resp, Poisoned>,
        CallPhase<Req>,
    >)
        requires
            old(self).wf(),
        ensures
            final(self).wf(),
            old(self).called(at, *final(self), r),
    {
        self.call(at)
    }

    /// One pass of an awaited service; see [`Channel::serve_one`].
    pub fn serve_one_async<F: FnOnce(Req) -> Resp>(&mut self, f: F) -> (r: Step<(), F>)
        requires
            old(self).wf(),
            old(self).req_slot matches Some(req) ==> call_requires(f, (req,)),
        ensures
            final(self).wf(),
            old(self).served(f, *final(self), r),
    {
        self.serve_one(f)
    }
}

/// A round trip: a request that is submitted, then served by `f`, then awaited
/// gives the client exactly what `f` made of it, and leaves nothing in flight.
pub proof fn round_trip<Req, Resp, W: Waiter, F: FnOnce(Req) -> Resp>(
    c0: Channel<Req, Resp, W>,
    c1: Channel<Req, Resp, W>,
    c2: Channel<Req, Resp, W>,
    c3: Channel<Req, Resp, W>,
    req: Req,
    f: F,
    submitted: Step<Result<Resp, Poisoned>, CallPhase<Req>>,
    served: Step<(), F>,
    r: Step<Result<Resp, Poisoned>, CallPhase<Req>>,
)
    requires
        !c0.poisoned,
        c0.called(CallPhase::Submit(req), c1, submitted),
        c1.served(f, c2, served),
        c2.called(CallPhase::Await, c3, r),
    ensures
        r is Done,
        r->Done_0 is Ok,
        call_ensures(f, (req,), r->Done_0->Ok_0),
        c3.req_slot is None,
        c3.resp_slot is None,
        !c3.poisoned,
{
}

/// Poison ends every call: on a poisoned channel a call that waits is done at
/// once, and so is every call after it.
pub proof fn poison_ends_every_call<Req, Resp, W: Waiter>(
    c0: Channel<Req, Resp, W>,
    c1: Channel<Req, Resp, W>,
    c2: Channel<Req, Resp, W>,
    c3: Channel<Req, Resp, W>,
    req: Req,
    first: Step<Result<Resp, Poisoned>, CallPhase<Req>>,
    submitted: Step<Result<Resp, Poisoned>, CallPhase<Req>>,
    second: Step<Result<Resp, Poisoned>, CallPhase<Req>>,
)
    requires
        c0.poisoned,
        c0.called(CallPhase::Await, c1, first),
        c1.called(CallPhase::Submit(req), c2, submitted),
        c2.called(CallPhase::Await, c3, second),
    ensures
        first == Step::<Result<Resp, Poisoned>, CallPhase<Req>>::Done(Err(Poisoned)),
        second == Step::<Result<Resp, Poisoned>, CallPhase<Req>>::Done(Err(Poisoned)),
{
}

/// Client side of a [`Channel`].
pub struct Client<Req, Resp, W: Waiter = ParkWaiter> {
    shared: PhantomData<(Req, Resp, W)>,
}

impl<Req, Resp, W: Waiter> Client<Req, Resp, W> {
    /// Register the client.
    pub fn bind(&self, channel: &mut Channel<Req, Resp, W>)
        ensures
            *final(channel) == (Channel {
                resp_waiter: old(channel).resp_waiter.bound(),
                ..*old(channel)
            }),
    {
        channel.set_client();
    }

    /// One pass of a call; see [`Channel::call`].
    pub fn call(&self, channel: &mut Channel<Req, Resp, W>, at: CallPhase<Req>) -> (r: Step<
        Result<Resp, Poisoned>,
        CallPhase<Req>,
    >)
        requires
            old(channel).wf(),
        ensures
            final(channel).wf(),
            old(channel).called(at, *final(channel), r),
    {
        channel.call(at)
    }

    /// Take a pending response and submit the next request; see
    /// [`Channel::try_call`].
    pub fn try_call(&self, channel: &mut Channel<Req, Resp, W>, req: Req) -> (r: Result<Resp, Req>)
        requires
            old(channel).wf(),
            !(old(channel).answered() && old(channel).poisoned),
        ensures
            final(channel).wf(),
            old(channel).try_called(req, *final(channel), r),
    {
        channel.try_call(req)
    }

    /// True iff the client has been answered.
    pub fn has_response(&self, channel: &Channel<Req, Resp, W>) -> (b: bool)
        ensures
            b == channel.answered(),
    {
        channel.has_response()
    }
}

/// Server side of a [`Channel`].
pub struct Server<Req, Resp, W: Waiter = ParkWaiter> {
    shared: PhantomData<(Req, Resp, W)>,
}

impl<Req, Resp, W: Waiter> Server<Req, Resp, W> {
    /// Register the server.
    pub fn bind(&self, channel: &mut Channel<Req, Resp, W>)
        ensures
            *final(channel) == (Channel {
                req_waiter: old(channel).req_waiter.bound(),
                ..*old(channel)
            }),
    {
        channel.set_server();
    }

    /// One pass of serving a request; see [`Channel::serve_one`].
    pub fn serve_one<F: FnOnce(Req) -> Resp>(&self, channel: &mut Channel<Req, Resp, W>, f: F) -> (r:
        Step<(), F>)
        requires
            old(channel).wf(),
            old(channel).req_slot matches Some(req) ==> call_requires(f, (req,)),
        ensures
            final(channel).wf(),
            old(channel).served(f, *final(channel), r),
    {
        channel.serve_one(f)
    }

    /// True iff a request is pending.
    pub fn has_request(&self, channel: &Channel<Req, Resp, W>) -> (b: bool)
        ensures
            b == channel.requested(),
    {
        channel.has_request()
    }
}

impl<Req, Resp, W: AsyncWaiter> Client<Req, Resp, W> {
    /// One pass of an awaited call; see [`Channel::call`].
    pub fn call_async(&self, channel: &mut Channel<Req, Resp, W>, at: CallPhase<Req>) -> (r: Step<
        Result<Resp, Poisoned>,
        CallPhase<Req>,
    >)
        requires
            old(channel).wf(),
        ensures
            final(channel).wf(),
            old(channel).called(at, *final(channel), r),
    {
        channel.call_async(at)
    }
}

impl<Req, Resp, W: AsyncWaiter> Server<Req, Resp, W> {
    /// One pass of an awaited service; see [`Channel::serve_one`].
    pub fn serve_one_async<F: FnOnce(Req) -> Resp>(
        &self,
        channel: &mut Channel<Req, Resp, W>,
        f: F,
    ) -> (r: Step<(), F>)
        requires
            old(channel).wf(),
            old(channel).req_slot matches Some(req) ==> call_requires(f, (req,)),
        ensures
            final(channel).wf(),
            old(channel).served(f, *final(channel), r),
    {
        channel.serve_one_async(f)
    }
}

} // verus!
