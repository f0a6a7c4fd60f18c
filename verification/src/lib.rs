//! Synchronization and transport primitives with machine-checked contracts.
//!
//! - [`waiter`]: how a party waits and is woken, as an OS thread or a task.
//! - [`gate`]: signals without a payload, and transports built on them.
//! - [`slot`]: transports with one value in flight.
//! - [`stream`]: FIFO transports between one sender and one receiver.
//! - [`route`]: transports between many parties.
//! - [`synapse`]: one producer, many consumers that share the work.
//! - [`laws`]: what calls of these come to, one by one and one after another.
//!
//! The state that the parties of a transport share is a value, and every
//! operation is a function on it: a handle such as a producer holds only what
//! its party keeps to itself, and takes the shared state as an argument. A
//! blocking or awaited operation is a sequence of passes; a pass either
//! finishes or says what it waits for, and the runtime around the library does
//! the sleeping. What holds however the parties interleave is stated over
//! sequences of single operations.
pub mod arith;
pub mod bits;
pub mod gate;
pub mod laws;
pub mod ring_buf;
pub mod round;
pub mod route;
pub mod slot;
pub mod stream;
pub mod synapse;
pub mod waiter;

pub use waiter::{AsyncWaiter, BlockingWaiter, NotifyWaiter, ParkWaiter, Waiter};
