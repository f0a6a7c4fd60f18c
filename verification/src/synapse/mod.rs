//! One producer, many consumers that share the work.
//!
//! All consumers take from one ring; whoever claims an item first has it. A
//! consumer that finds nothing advertises itself as idle before it sleeps, and
//! the producer wakes one idle consumer per item.
//!
//! - [`state`]: the shared state.
//! - [`producer`]: sending.
//! - [`consumer`]: receiving.
//! - [`wake`]: which consumer is woken, and shutdown.
//! - [`no_lost_wake`]: what holds however the parties interleave.
//! - [`history`]: how the operations of the transport are steps of the parties.
pub mod consumer;
pub mod history;
pub mod no_lost_wake;
pub mod producer;
pub mod state;
pub mod wake;

pub use state::{Shutdown, Synapse};
