//! Synchronization primitives: how producers tell a consumer to go, and how a
//! consumer waits for it.
pub mod bitmap_wake;
pub mod channel;
pub mod gate;
pub mod lifeline;
pub mod mpmc;
pub mod names;
pub mod one_signal;
pub mod park;
pub mod pipe;
pub mod shard_history;
pub mod signal;
pub mod signal_packed;
pub mod signal_set;
pub mod signal_states;

pub use lifeline::{Cancelled, Lifeline, WaiterId, MAX_WAITERS};
pub use one_signal::{
    AcquireError as OneSignalError, OneSignal, Receiver as OneSignalReceiver,
    Sender as OneSignalSender,
};
pub use signal_set::{SignalId, SignalSet, MAX_GATES};
