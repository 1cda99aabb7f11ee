//! The queue that both endpoints own.
//!
//! The two indices are atomics. An endpoint publishes its own index with a
//! release store after it is done with the slots that the index passes, and
//! reads the other index with an acquire load before it touches the slots
//! that the index hands over.
use crate::consumer::Consumer;
use crate::indices::Indices;
use crate::producer::Producer;
use crate::shared::{index_cell, share};
use crate::slot::Slot;
use cache_padded::CachePadded;
use std::sync::atomic::{AtomicUsize, Ordering};
use std::sync::Arc;
use vstd::prelude::*;

verus! {

/// A bounded single-producer single-consumer queue.
///
/// It owns the slots and the two shared indices. `head` is written by the
/// consumer alone and `tail` by the producer alone; each is a position in
/// `0 .. 2 * capacity`.
#[verifier::reject_recursive_types(T)]
#[derive(Debug)]
pub struct RingBuffer<T> {
    head: CachePadded<AtomicUsize>,
    tail: CachePadded<AtomicUsize>,
    slots: Vec<Slot<T>>,
    capacity: usize,
}

impl<T> RingBuffer<T> {
    #[verifier::type_invariant]
    spec fn inv(&self) -> bool {
        &&& self.slots@.len() == self.capacity
        &&& 2 * self.capacity <= usize::MAX
    }

    /// The number of slots.
    pub closed spec fn spec_capacity(&self) -> nat {
        self.capacity as nat
    }

    /// Creates a queue with the given capacity, all of its slots vacant and
    /// both indices at position `0`.
    ///
    /// Twice the capacity has to fit into `usize`: the positions of the
    /// queue run up to there.
    pub fn new(capacity: usize) -> (ring: RingBuffer<T>)
        requires
            2 * capacity <= usize::MAX,
        ensures
            ring.spec_capacity() == capacity,
    {
        let mut slots: Vec<Slot<T>> = Vec::with_capacity(capacity);
        let mut i: usize = 0;
        while i < capacity
            invariant
                i <= capacity,
                slots@.len() == i,
            decreases capacity - i,
        {
            slots.push(Slot::new());
            i += 1;
        }
        RingBuffer {
            head: CachePadded::new(AtomicUsize::new(0)),
            tail: CachePadded::new(AtomicUsize::new(0)),
            slots,
            capacity,
        }
    }

    /// Splits the queue into its two endpoints, which own it together. Both
    /// start with their indices at position `0`.
    pub fn split(self) -> (ends: (Producer<T>, Consumer<T>))
        ensures
            ends.0.ring() == self,
            ends.1.ring() == self,
            ends.0@ == (Indices { capacity: self.spec_capacity(), head: 0, tail: 0 }),
            ends.1@ == ends.0@,
            ends.1.staged() == Seq::<T>::empty(),
    {
        let buffer = Arc::new(self);
        let producer = Producer::attach(share(&buffer));
        let consumer = Consumer::attach(buffer);
        (producer, consumer)
    }

    /// Returns the capacity of the queue.
    pub fn capacity(&self) -> (capacity: usize)
        ensures
            capacity == self.spec_capacity(),
            2 * capacity <= usize::MAX,
    {
        proof {
            use_type_invariant(self);
        }
        self.capacity
    }

    /// Reads the shared `head`. Another thread writes it: nothing holds of
    /// the value read.
    pub(crate) fn load_head(&self) -> usize {
        index_cell(&self.head).load(Ordering::Acquire)
    }

    /// Reads the shared `tail`. Another thread writes it: nothing holds of
    /// the value read.
    pub(crate) fn load_tail(&self) -> usize {
        index_cell(&self.tail).load(Ordering::Acquire)
    }

    /// Publishes a new `head`.
    pub(crate) fn store_head(&self, pos: usize) {
        index_cell(&self.head).store(pos, Ordering::Release)
    }

    /// Publishes a new `tail`.
    pub(crate) fn store_tail(&self, pos: usize) {
        index_cell(&self.tail).store(pos, Ordering::Release)
    }

    /// Stores `value` in a slot and hands back what the slot held before.
    pub(crate) fn fill(&self, slot: usize, value: T) -> Option<T>
        requires
            slot < self.spec_capacity(),
    {
        proof {
            use_type_invariant(self);
        }
        self.slots[slot].put(value)
    }

    /// Vacates a slot and hands back what it held.
    pub(crate) fn vacate(&self, slot: usize) -> Option<T>
        requires
            slot < self.spec_capacity(),
    {
        proof {
            use_type_invariant(self);
        }
        self.slots[slot].take()
    }
}

} // verus!
