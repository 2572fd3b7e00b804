//! The errors that making and using a queue can end in.

use vstd::prelude::*;

verus! {

/// Why a queue could not be made, or why an operation on it was given up.
#[derive(Clone, Copy, Debug, PartialEq, Eq, Structural)]
pub enum QueueError {
    /// A queue needs room for at least one element.
    ZeroCapacity,
    /// The buffer holds as many elements as it has slots.
    Full,
    /// The buffer holds no element.
    Empty,
    /// A thread panicked while it held the queue's lock.
    Poisoned,
}

} // verus!
