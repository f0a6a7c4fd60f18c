//! Transports between many parties.
//!
//! - [`hub`]: many ports, one drain, a reply per port.
//! - [`mpsc`] and [`mpsc2`]: many producers, one consumer.
//! - [`pool`]: producers on lease.
//! - [`mpmc`]: many producers, many consumers.
//! - [`oneshot`] and [`oneshot_async`]: a slot for a single reply.
//! - [`fanin`] and [`sharded`]: what such channels promise over time.
//! - [`eliding`]: why a wake that is left out is not missed.
//! - [`queues`]: several queues read by one consumer.
use crate::waiter::NotifyWaiter;
use vstd::prelude::*;

pub mod eliding;
pub mod fanin;
pub mod hub;
pub mod mpmc;
pub mod mpsc;
pub mod mpsc2;
pub mod oneshot;
pub mod oneshot_async;
pub mod pool;
pub mod queues;
pub mod sharded;

pub use hub::{Hub, HubDrain, HubPort, HubReply, HubShutdown, Shutdown, MAX_HUB_PORTS};
pub use mpmc::{Mpmc, MpmcConsumer, MpmcProducer, MpmcShutdown, MAX_MPMC_PRODUCERS};
pub use mpsc::{Mpsc, MpscConsumer, MpscProducer, MpscShutdown, MAX_MPSC_PRODUCERS};
pub use oneshot::{
    Closed as OneShotClosed, OneShot, Receiver as OneShotReceiver, Sender as OneShotSender,
};
pub use pool::{MpscProducerLease, MpscProducerPool};

verus! {

/// A one-shot slot whose receiver is a task.
pub type OneShotAsync<T> = OneShot<T, NotifyWaiter>;

pub type OneShotAsyncSender<T> = OneShotSender<T, NotifyWaiter>;

pub type OneShotAsyncReceiver<T> = OneShotReceiver<T, NotifyWaiter>;

/// A hub whose parties are tasks.
pub type HubAsync<In, Out> = Hub<In, Out, NotifyWaiter>;

/// A sharded channel whose parties are tasks.
pub type MpmcAsync<T, const CAP: usize> = Mpmc<T, CAP, NotifyWaiter>;

/// A fan-in channel whose parties are tasks.
pub type MpscAsync<T, const CAP: usize> = Mpsc<T, CAP, NotifyWaiter>;

pub type MpscAsyncProducer<T, const CAP: usize> = MpscProducer<T, CAP, NotifyWaiter>;

pub type MpscAsyncConsumer<T, const CAP: usize> = MpscConsumer<T, CAP, NotifyWaiter>;

pub type MpscAsyncShutdown = MpscShutdown<NotifyWaiter>;

} // verus!
