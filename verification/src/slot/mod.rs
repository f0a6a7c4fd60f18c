//! Transports with a single slot: one value in flight at a time.
use crate::waiter::NotifyWaiter;
use vstd::prelude::*;

pub mod channel;
pub mod pipe;
pub mod pipe_async;

pub use channel::{CallPhase, Channel, Client, Poisoned, Server};
pub use pipe::{NoHook, Pipe, PipeHook};
pub use pipe_async::PipeAsync;

verus! {

/// A channel whose parties are tasks.
pub type ChannelAsync<Req, Resp> = Channel<Req, Resp, NotifyWaiter>;

pub type ClientAsync<Req, Resp> = Client<Req, Resp, NotifyWaiter>;

pub type ServerAsync<Req, Resp> = Server<Req, Resp, NotifyWaiter>;

} // verus!
