//! FIFO transports between one sender and one receiver.
pub mod buffered;
pub mod duplex;
pub mod fifo;
pub mod interleave;
pub mod log;
pub mod ring;
pub mod receipt;
pub mod ring2;
pub mod segment;
pub mod spsc2;
pub mod stream;

pub use ring::{Consumer, Producer, Ring, TryRecvError, TrySendError};
pub use buffered::BufferedSender;
pub use duplex::{Duplex, DuplexEnd};
pub use receipt::Receipt;
pub use ring2::Ring2;
pub use spsc2::{ConsumerSpsc2, ProducerSpsc2, Spsc2, TryRecvErrorSpsc2, TrySendErrorSpsc2};
pub use stream::Stream;
