//! What the calls of the library come to, whoever makes them.
//!
//! Each law speaks of the outcome of one or several calls: for every input, and
//! for everything that the called functions can do, what came back and what was
//! left behind relate as the law says.
pub mod calls;
pub mod fan_in;
pub mod hubs;
pub mod logs;
pub mod registration;
pub mod rings;
pub mod sets;
pub mod shards;
pub mod signals;
pub mod slots;
pub mod waits;
pub mod work_sharing;
