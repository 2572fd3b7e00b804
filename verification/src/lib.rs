//! A bounded FIFO queue with backpressure: a fixed-capacity ring buffer, and a
//! blocking queue that shares one ring buffer between threads behind a mutex
//! and two condition variables.

pub mod blocking;
pub mod error;
pub mod history;
pub mod queue;
pub mod ring;
pub mod sync;
pub mod window;

pub use crate::blocking::BlockingQueue;
pub use crate::error::QueueError;
pub use crate::queue::Queue;
pub use crate::ring::CyclicBuffer;
