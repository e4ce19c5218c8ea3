//! A small packet multiplexer: a generator that synthesises batches of
//! packets, and a round-based scheduler that drains one packet per port and
//! reports the latency of each one it serves.

pub mod fifo;
pub mod packet;
mod random;
pub mod scheduler;

pub use fifo::{FifoScheduler, LatencyRecord};
pub use scheduler::PacketScheduler;
pub use packet::{Packet, PacketError, PacketGenerator};

