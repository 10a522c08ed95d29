//! The shared state and its two handles.
//!
//! The counters live in atomics, so that a writer in one context and a reader
//! in another can work on them through shared references. What a load returns
//! depends on what the other side has stored, so the contracts here do not
//! speak of values: each handle loads, hands the values to the arithmetic of
//! [`crate::counters`], whose contracts are exact, and stores what comes back.

use vstd::prelude::*;
use core::sync::atomic::AtomicUsize;
use core::sync::atomic::Ordering;
use crate::counters::{advance, Counters};

verus! {

/// A single-reader, single-writer counting semaphore. Access it through a
/// [`SemaphoreReader`] and a [`SemaphoreWriter`].
pub struct Semaphore {
    consumed: AtomicUsize,
    written: AtomicUsize,
}

/// The capability to drain a [`Semaphore`].
pub struct SemaphoreReader<'a> {
    semaphore: &'a Semaphore,
}

/// The capability to add to a [`Semaphore`].
pub struct SemaphoreWriter<'a> {
    semaphore: &'a Semaphore,
}

impl Semaphore {
    /// Creates a semaphore with both counters at zero, the state
    /// [`Counters::fresh`].
    pub fn new() -> Semaphore {
        let start = Counters::new();
        Semaphore {
            consumed: AtomicUsize::new(start.consumed),
            written: AtomicUsize::new(start.written),
        }
    }

    /// Creates a reader and a writer that both refer to this semaphore.
    ///
    /// Every pair made from one semaphore works on the same two counters. Hand
    /// out one reader and one writer only: two readers would each mark the
    /// other's events as consumed.
    pub fn pair<'a>(&'a self) -> (handles: (SemaphoreReader<'a>, SemaphoreWriter<'a>))
        ensures
            handles.0.semaphore() == self,
            handles.1.semaphore() == self,
    {
        let r = SemaphoreReader { semaphore: self };
        let w = SemaphoreWriter { semaphore: self };
        (r, w)
    }
}

impl<'a> SemaphoreReader<'a> {
    /// The semaphore that this reader drains.
    pub closed spec fn semaphore(&self) -> &'a Semaphore {
        self.semaphore
    }

    /// Reads and clears the semaphore: returns the amount written since the
    /// last read, counted modulo the counter's range, and marks it as consumed.
    ///
    /// With `written` and `consumed` the two values loaded, the result and the
    /// value stored are those of [`Counters::read`] on that state.
    pub fn read(&self) -> usize {
        let sem = self.semaphore;
        let written = sem.written.load(Ordering::Acquire);
        let consumed = sem.consumed.load(Ordering::Acquire);
        let mut counters = Counters { written, consumed };
        let delta = counters.read();
        sem.consumed.store(counters.consumed, Ordering::Release);
        delta
    }
}

impl<'a> SemaphoreWriter<'a> {
    /// The semaphore that this writer adds to.
    pub closed spec fn semaphore(&self) -> &'a Semaphore {
        self.semaphore
    }

    /// Adds `value` to the semaphore. The count wraps around on overflow.
    ///
    /// With `written` the value loaded, the value stored is
    /// [`advance`]`(written, value)`.
    pub fn write(&self, value: usize) {
        let sem = self.semaphore;
        let written = advance(sem.written.load(Ordering::Acquire), value);
        sem.written.store(written, Ordering::Release)
    }
}

} // verus!
