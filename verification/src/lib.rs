//! A single-reader, single-writer counting semaphore without blocking.
//!
//! One side adds to a count of events; the other side drains the count that has
//! built up since it last looked. Both counters wrap around, and the drained
//! amount is their wraparound difference.
//!
//! - [`counters`] holds the arithmetic and the two counters as a plain value,
//!   with exact contracts.
//! - [`laws`] proves what holds of every run of writes and reads.
//! - [`semaphore`] holds the shared state and the two handles over it.

pub mod counters;
pub mod laws;
pub mod semaphore;

pub use counters::Counters;
pub use semaphore::{Semaphore, SemaphoreReader, SemaphoreWriter};
