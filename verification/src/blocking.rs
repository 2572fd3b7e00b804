//! The blocking queue: one ring buffer behind a lock and two wait
//! conditions.

use vstd::prelude::*;
use std::ops::DerefMut;
use std::sync::{Condvar, Mutex};
use crate::error::QueueError;
use crate::ring::CyclicBuffer;

verus! {

/// A bounded queue that threads share: `push` blocks while the queue is
/// full, `pop` blocks while it is empty.
///
/// One ring buffer lies behind one lock. A thread reads or changes the buffer
/// only while it holds the lock, and waits on `not_full` or `not_empty` with
/// the lock released.
#[verifier::reject_recursive_types(E)]
pub struct BlockingQueue<E> {
    mutex: Mutex<CyclicBuffer<E>>,
    not_full: Condvar,
    not_empty: Condvar,
}

impl<E: Default> BlockingQueue<E> {
    /// An empty queue of `capacity` slots. A capacity of zero is refused: on
    /// such a queue every `push` and every `pop` would wait for ever.
    pub fn new(capacity: usize) -> (r: Result<BlockingQueue<E>, QueueError>)
        ensures
            r is Err <==> capacity == 0,
            r matches Err(e) ==> e == QueueError::ZeroCapacity,
    {
        match CyclicBuffer::new(capacity) {
            Ok(buffer) => Ok(
                BlockingQueue {
                    mutex: Mutex::new(buffer),
                    not_full: Condvar::new(),
                    not_empty: Condvar::new(),
                },
            ),
            Err(e) => Err(e),
        }
    }

    /// Waits until the buffer has room, appends `v`, and wakes one thread
    /// that waits for an element.
    ///
    /// The wait tests the buffer each time the thread wakes, and the buffer
    /// is tested once more before it is written, so a buffer that is full is
    /// never written to: `Full` reports a wait that ended too early.
    pub fn push(&self, v: E) -> (r: Result<(), QueueError>)
        ensures
            r matches Err(e) ==> e == QueueError::Poisoned || e == QueueError::Full,
    {
        let guard = match self.mutex.lock() {
            Ok(guard) => guard,
            Err(_) => {
                return Err(QueueError::Poisoned);
            },
        };
        let waited = self.not_full.wait_while(
            guard,
            |buffer: &mut CyclicBuffer<E>| -> (wait: bool) { buffer.is_full() },
        );
        let mut guard = match waited {
            Ok(guard) => guard,
            Err(_) => {
                return Err(QueueError::Poisoned);
            },
        };
        let r = guard.deref_mut().try_push(v);
        if r.is_ok() {
            self.not_empty.notify_one();
        }
        r
    }

    /// Waits until the buffer holds an element, removes the oldest, and wakes
    /// one thread that waits for room.
    ///
    /// As in `push`, the buffer is tested once more before it is read:
    /// `Empty` reports a wait that ended too early.
    pub fn pop(&self) -> (r: Result<E, QueueError>)
        ensures
            r matches Err(e) ==> e == QueueError::Poisoned || e == QueueError::Empty,
    {
        let guard = match self.mutex.lock() {
            Ok(guard) => guard,
            Err(_) => {
                return Err(QueueError::Poisoned);
            },
        };
        let waited = self.not_empty.wait_while(
            guard,
            |buffer: &mut CyclicBuffer<E>| -> (wait: bool) { buffer.is_empty() },
        );
        let mut guard = match waited {
            Ok(guard) => guard,
            Err(_) => {
                return Err(QueueError::Poisoned);
            },
        };
        let r = guard.deref_mut().try_pop();
        if r.is_ok() {
            self.not_full.notify_one();
        }
        r
    }

    /// The number of elements held at the moment the lock was taken.
    pub fn len(&self) -> (r: Result<usize, QueueError>)
        ensures
            r matches Err(e) ==> e == QueueError::Poisoned,
    {
        let mut guard = match self.mutex.lock() {
            Ok(guard) => guard,
            Err(_) => {
                return Err(QueueError::Poisoned);
            },
        };
        // The guard is opened the way `push` and `pop` open it.
        Ok(guard.deref_mut().len())
    }
}

} // verus!
