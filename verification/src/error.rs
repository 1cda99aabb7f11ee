//! The failures that the queue reports, each by value.
use vstd::prelude::*;

verus! {

/// Why a pop took nothing.
#[derive(Debug, Copy, Clone, PartialEq, Eq, Structural)]
pub enum PopError {
    /// The queue was empty.
    Empty,
}

/// Why a peek showed nothing.
#[derive(Debug, Copy, Clone, PartialEq, Eq, Structural)]
pub enum PeekError {
    /// The queue was empty.
    Empty,
}

/// Why a push stored nothing.
#[derive(Debug, PartialEq, Eq)]
pub enum PushError<T> {
    /// The queue was full. Holds the value that was to be pushed.
    Full(T),
}

impl<T: Clone> Clone for PushError<T> {
    fn clone(&self) -> (copy: Self) {
        match self {
            PushError::Full(value) => PushError::Full(value.clone()),
        }
    }
}

impl<T: Copy> Copy for PushError<T> {}

/// Why a request for a chunk of slots was turned down.
#[derive(Debug, Copy, Clone, PartialEq, Eq, Structural)]
pub enum ChunkError {
    /// Fewer than the requested number of slots were available.
    ///
    /// Holds the number of slots that were available.
    TooFewSlots(usize),
}

} // verus!
