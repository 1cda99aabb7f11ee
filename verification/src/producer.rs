//! The writing endpoint.
use crate::error::{ChunkError, PushError};
use crate::indices::Indices;
use crate::position::{
    collapse_position, distance, first_stretch, increment, increment1, split_lengths,
};
use crate::ring::RingBuffer;
use crate::write_chunk::{WriteChunk, WriteChunkMaybeUninit};
use std::sync::Arc;
use vstd::prelude::*;

verus! {

/// The producer's hold on the queue: the queue itself, the index that the
/// producer owns and its copy of the index that it does not.
#[verifier::reject_recursive_types(T)]
#[derive(Debug)]
struct Hold<T> {
    buffer: Arc<RingBuffer<T>>,
    head: usize,
    tail: usize,
}

impl<T> Hold<T> {
    /// The indices are well formed at all times.
    #[verifier::type_invariant]
    spec fn inv(&self) -> bool {
        self.indices().wf()
    }

    /// The indices that the producer works with.
    spec fn indices(&self) -> Indices {
        Indices {
            capacity: self.buffer.spec_capacity(),
            head: self.head as nat,
            tail: self.tail as nat,
        }
    }
}

/// The producer side of a [`RingBuffer`].
///
/// It owns `tail`, which it alone writes, and keeps a copy of `head` that
/// it brings up to date only when the copy shows too little room.
///
/// It also owns the memory that its write chunks work in, room for as many
/// elements as the queue has slots. A chunk borrows it and asks for none of
/// its own.
#[verifier::reject_recursive_types(T)]
#[derive(Debug)]
pub struct Producer<T> {
    hold: Hold<T>,
    vacant: Vec<Option<T>>,
    filled: Vec<T>,
}

impl<T> Producer<T> {
    /// The queue that this endpoint writes to.
    pub closed spec fn ring(&self) -> RingBuffer<T> {
        *self.hold.buffer
    }

    /// The indices that this endpoint works with.
    pub closed spec fn view(&self) -> Indices {
        self.hold.indices()
    }

    /// What the memory for chunks of vacant slots holds: a slot each for
    /// the chunk that has borrowed it, or that borrowed it last.
    pub closed spec fn vacant_memory(&self) -> Seq<Option<T>> {
        self.vacant@
    }

    /// What the memory for chunks of filled slots holds.
    pub closed spec fn filled_memory(&self) -> Seq<T> {
        self.filled@
    }

    /// The writing endpoint of `buffer`, with both indices at position `0`.
    pub(crate) fn attach(buffer: Arc<RingBuffer<T>>) -> (producer: Producer<T>)
        ensures
            producer.ring() == *buffer,
            producer@ == (Indices { capacity: buffer.spec_capacity(), head: 0, tail: 0 }),
    {
        let vacant: Vec<Option<T>> = Vec::with_capacity(buffer.capacity());
        let filled: Vec<T> = Vec::with_capacity(buffer.capacity());
        Producer { hold: Hold { buffer, head: 0, tail: 0 }, vacant, filled }
    }

    /// The queue that this endpoint writes to.
    pub fn buffer(&self) -> (buffer: &RingBuffer<T>)
        ensures
            *buffer == self.ring(),
            buffer.spec_capacity() == self@.capacity,
    {
        &self.hold.buffer
    }

    /// Takes `observed`, a value read from the shared `head`, for the copy
    /// of `head` if the indices admit it, and leaves the copy as it is
    /// otherwise.
    pub fn refresh_head(&mut self, observed: usize)
        ensures
            final(self).ring() == old(self).ring(),
            final(self)@ == old(self)@.observe_head(observed as nat),
            final(self)@.wf(),
    {
        proof {
            use_type_invariant(&self.hold);
        }
        let capacity = self.hold.buffer.capacity();
        if observed == 0 || observed < 2 * capacity {
            let seen = distance(capacity, observed, self.hold.tail);
            if seen <= distance(capacity, self.hold.head, self.hold.tail) {
                self.hold.head = observed;
            }
        }
    }

    /// Get the tail position for writing the next slot, if available.
    fn next_tail(&mut self) -> (next: Option<usize>)
        ensures
            final(self).ring() == old(self).ring(),
            old(self)@.head_caught_up(final(self)@),
            !old(self)@.is_full() ==> final(self)@ == old(self)@,
            next is Some <==> !final(self)@.is_full(),
            next is Some ==> next->0 == old(self)@.tail,
    {
        proof {
            use_type_invariant(&self.hold);
        }
        let capacity = self.hold.buffer.capacity();
        let tail = self.hold.tail;
        if distance(capacity, self.hold.head, tail) == capacity {
            let observed = self.hold.buffer.load_head();
            self.refresh_head(observed);
            if distance(capacity, self.hold.head, tail) == capacity {
                return None;
            }
        }
        Some(tail)
    }

    /// Attempts to push an element into the queue.
    ///
    /// The element is moved into the slot at `tail`, and `tail` moves one
    /// slot forward, which hands the element to the consumer. If the queue
    /// is full, the element comes back in the error.
    ///
    /// The copy of `head` is brought up to date only if it shows no room.
    /// The push succeeds exactly if the copy shows room afterwards.
    pub fn push(&mut self, value: T) -> (pushed: Result<(), PushError<T>>)
        ensures
            final(self).ring() == old(self).ring(),
            ({
                let seen = final(self)@.with_tail(old(self)@.tail);
                &&& old(self)@.head_caught_up(seen)
                &&& !old(self)@.is_full() ==> seen == old(self)@
                &&& pushed is Ok <==> !seen.is_full()
                &&& pushed is Ok ==> final(self)@ == seen.produce(1)
                &&& pushed is Err ==> final(self)@ == seen
            }),
            pushed matches Err(PushError::Full(v)) ==> v == value,
            old(self)@.capacity == 0 ==> pushed is Err,
            final(self)@.wf(),
    {
        if let Some(tail) = self.next_tail() {
            proof {
                use_type_invariant(&self.hold);
            }
            let capacity = self.hold.buffer.capacity();
            let _ = self.hold.buffer.fill(collapse_position(capacity, tail), value);
            let tail = increment1(capacity, tail);
            self.hold.buffer.store_tail(tail);
            self.hold.tail = tail;
            Ok(())
        } else {
            proof {
                use_type_invariant(&self.hold);
            }
            Err(PushError::Full(value))
        }
    }

    /// Returns `n` slots, each holding the default value, for writing.
    ///
    /// If not enough slots are available, an error (containing the number
    /// of available slots) is returned. The copy of `head` is brought up to
    /// date only if it shows fewer than `n` free slots.
    ///
    /// The slots are not made available to the consumer before one of the
    /// chunk's commits is called.
    pub fn write_chunk(&mut self, n: usize) -> (reserved: Result<WriteChunk<'_, T>, ChunkError>)
        where T: Copy + Default
        ensures
            n <= old(self)@.free() ==> reserved is Ok,
            match reserved {
                Ok(chunk) => {
                    &&& chunk.wf()
                    &&& chunk.producer().ring() == old(self).ring()
                    &&& *final(chunk.producer()) == *final(self)
                    &&& old(self)@.head_caught_up(chunk.producer()@)
                    &&& n <= old(self)@.free() ==> chunk.producer()@ == old(self)@
                    &&& n <= chunk.producer()@.free()
                    &&& chunk.slots().len() == n
                    &&& forall|i: int|
                        0 <= i < n ==> call_ensures(T::default, (), #[trigger] chunk.slots()[i])
                    &&& chunk.first_len() == first_stretch(
                        old(self)@.capacity,
                        old(self)@.tail,
                        n as nat,
                    )
                    &&& chunk.iterated() == 0
                },
                Err(ChunkError::TooFewSlots(available)) => {
                    &&& final(self).ring() == old(self).ring()
                    &&& old(self)@.head_caught_up(final(self)@)
                    &&& available == final(self)@.free()
                    &&& available < n
                },
            },
    {
        match self.write_chunk_maybe_uninit(n) {
            Ok(chunk) => Ok(WriteChunk::from(chunk)),
            Err(e) => Err(e),
        }
    }

    /// Returns `n` vacant slots for writing.
    ///
    /// If not enough slots are available, an error (containing the number
    /// of available slots) is returned. The copy of `head` is brought up to
    /// date only if it shows fewer than `n` free slots.
    ///
    /// The slots are not made available to the consumer before one of the
    /// chunk's commits is called.
    pub fn write_chunk_maybe_uninit(&mut self, n: usize) -> (reserved: Result<
        WriteChunkMaybeUninit<'_, T>,
        ChunkError,
    >)
        ensures
            n <= old(self)@.free() ==> reserved is Ok,
            match reserved {
                Ok(chunk) => {
                    &&& chunk.wf()
                    &&& chunk.producer().ring() == old(self).ring()
                    &&& *final(chunk.producer()) == *final(self)
                    &&& old(self)@.head_caught_up(chunk.producer()@)
                    &&& n <= old(self)@.free() ==> chunk.producer()@ == old(self)@
                    &&& n <= chunk.producer()@.free()
                    &&& chunk.slots() == Seq::new(n as nat, |i: int| None::<T>)
                    &&& chunk.first_len() == first_stretch(
                        old(self)@.capacity,
                        old(self)@.tail,
                        n as nat,
                    )
                    &&& chunk.iterated() == 0
                },
                Err(ChunkError::TooFewSlots(available)) => {
                    &&& final(self).ring() == old(self).ring()
                    &&& old(self)@.head_caught_up(final(self)@)
                    &&& available == final(self)@.free()
                    &&& available < n
                },
            },
    {
        proof {
            use_type_invariant(&self.hold);
        }
        let capacity = self.hold.buffer.capacity();
        let tail = self.hold.tail;
        if capacity - distance(capacity, self.hold.head, tail) < n {
            let observed = self.hold.buffer.load_head();
            self.refresh_head(observed);
            let slots = capacity - distance(capacity, self.hold.head, tail);
            if slots < n {
                return Err(ChunkError::TooFewSlots(slots));
            }
        }
        Ok(WriteChunkMaybeUninit::reserve(self, n))
    }

    /// Makes the memory for chunks of vacant slots hold `n` vacant slots.
    /// What it held before is dropped.
    pub(crate) fn reset_vacant(&mut self, n: usize)
        ensures
            final(self).ring() == old(self).ring(),
            final(self)@ == old(self)@,
            final(self).vacant_memory() == Seq::new(n as nat, |i: int| None::<T>),
    {
        self.vacant.clear();
        let mut i: usize = 0;
        while i < n
            invariant
                i <= n,
                self.hold == old(self).hold,
                self.vacant@ == Seq::new(i as nat, |k: int| None::<T>),
            decreases n - i,
        {
            self.vacant.push(None);
            i += 1;
            assert(self.vacant@ =~= Seq::new(i as nat, |k: int| None::<T>));
        }
    }

    /// Lends the memory for chunks of vacant slots, split after the first
    /// `mid` slots.
    pub(crate) fn vacant_parts(&mut self, mid: usize) -> (parts: (
        &mut [Option<T>],
        &mut [Option<T>],
    ))
        requires
            mid <= old(self).vacant_memory().len(),
        ensures
            parts.0@ == old(self).vacant_memory().subrange(0, mid as int),
            parts.1@ == old(self).vacant_memory().subrange(
                mid as int,
                old(self).vacant_memory().len() as int,
            ),
            final(self).vacant_memory() == final(parts.0)@ + final(parts.1)@,
            final(self).ring() == old(self).ring(),
            final(self)@ == old(self)@,
    {
        self.vacant.as_mut_slice().split_at_mut(mid)
    }

    /// Lends one slot of the memory for chunks of vacant slots.
    pub(crate) fn vacant_slot(&mut self, i: usize) -> (slot: &mut Option<T>)
        requires
            i < old(self).vacant_memory().len(),
        ensures
            *slot == old(self).vacant_memory()[i as int],
            final(self).vacant_memory() == old(self).vacant_memory().update(
                i as int,
                *final(slot),
            ),
            final(self).ring() == old(self).ring(),
            final(self)@ == old(self)@,
    {
        &mut self.vacant[i]
    }

    /// Takes what one slot of the memory for chunks of vacant slots holds
    /// and leaves the slot vacant.
    pub(crate) fn take_vacant(&mut self, i: usize) -> (taken: Option<T>)
        requires
            i < old(self).vacant_memory().len(),
        ensures
            taken == old(self).vacant_memory()[i as int],
            final(self).vacant_memory() == old(self).vacant_memory().update(i as int, None),
            final(self).ring() == old(self).ring(),
            final(self)@ == old(self)@,
    {
        self.vacant[i].take()
    }

    /// Makes the memory for chunks of filled slots hold `n` slots with the
    /// default value.
    pub(crate) fn reset_filled(&mut self, n: usize) where T: Copy + Default
        ensures
            final(self).ring() == old(self).ring(),
            final(self)@ == old(self)@,
            final(self).filled_memory().len() == n,
            forall|i: int|
                0 <= i < n ==> call_ensures(
                    T::default,
                    (),
                    #[trigger] final(self).filled_memory()[i],
                ),
    {
        self.filled.clear();
        let mut i: usize = 0;
        while i < n
            invariant
                i <= n,
                self.hold == old(self).hold,
                self.filled@.len() == i,
                forall|k: int|
                    0 <= k < i ==> call_ensures(T::default, (), #[trigger] self.filled@[k]),
            decreases n - i,
        {
            self.filled.push(T::default());
            i += 1;
        }
    }

    /// Lends the memory for chunks of filled slots, split after the first
    /// `mid` slots.
    pub(crate) fn filled_parts(&mut self, mid: usize) -> (parts: (&mut [T], &mut [T]))
        requires
            mid <= old(self).filled_memory().len(),
        ensures
            parts.0@ == old(self).filled_memory().subrange(0, mid as int),
            parts.1@ == old(self).filled_memory().subrange(
                mid as int,
                old(self).filled_memory().len() as int,
            ),
            final(self).filled_memory() == final(parts.0)@ + final(parts.1)@,
            final(self).ring() == old(self).ring(),
            final(self)@ == old(self)@,
    {
        self.filled.as_mut_slice().split_at_mut(mid)
    }

    /// Lends one slot of the memory for chunks of filled slots.
    pub(crate) fn filled_slot(&mut self, i: usize) -> (slot: &mut T)
        requires
            i < old(self).filled_memory().len(),
        ensures
            *slot == old(self).filled_memory()[i as int],
            final(self).filled_memory() == old(self).filled_memory().update(
                i as int,
                *final(slot),
            ),
            final(self).ring() == old(self).ring(),
            final(self)@ == old(self)@,
    {
        &mut self.filled[i]
    }

    /// Copies what one slot of the memory for chunks of filled slots holds.
    pub(crate) fn filled_at(&self, i: usize) -> (value: T) where T: Copy
        requires
            i < self.filled_memory().len(),
        ensures
            value == self.filled_memory()[i as int],
    {
        self.filled[i]
    }

    /// Splits a chunk of `n` slots that starts at `tail` where the storage
    /// ends.
    pub(crate) fn split_at_tail(&self, n: usize) -> (lengths: (usize, usize))
        requires
            n <= self@.free(),
        ensures
            self@.wf(),
            lengths.0 == first_stretch(self@.capacity, self@.tail, n as nat),
            lengths.0 + lengths.1 == n,
            n > 0 ==> lengths.0 > 0,
    {
        proof {
            use_type_invariant(&self.hold);
        }
        split_lengths(self.hold.buffer.capacity(), self.hold.tail, n)
    }

    /// Stores `value` in the free slot that lies `offset` slots after
    /// `tail`. The consumer does not see it before `tail` has passed it.
    pub(crate) fn store_at(&self, offset: usize, value: T)
        requires
            offset < self@.free(),
    {
        proof {
            use_type_invariant(&self.hold);
        }
        let capacity = self.hold.buffer.capacity();
        let pos = increment(capacity, self.hold.tail, offset);
        let _ = self.hold.buffer.fill(collapse_position(capacity, pos), value);
    }

    /// Moves `tail` forward by `n` slots and publishes it, which hands the
    /// slots that it passes to the consumer.
    pub(crate) fn publish(&mut self, n: usize)
        requires
            n <= old(self)@.free(),
        ensures
            final(self).ring() == old(self).ring(),
            final(self)@ == old(self)@.produce(n as nat),
            final(self)@.wf(),
    {
        proof {
            use_type_invariant(&self.hold);
        }
        let tail = increment(self.hold.buffer.capacity(), self.hold.tail, n);
        self.hold.buffer.store_tail(tail);
        self.hold.tail = tail;
    }

    /// Returns the number of slots available for writing, after bringing
    /// the copy of `head` up to date.
    pub fn slots(&mut self) -> (free: usize)
        ensures
            final(self).ring() == old(self).ring(),
            old(self)@.head_caught_up(final(self)@),
            free == final(self)@.free(),
    {
        let observed = self.hold.buffer.load_head();
        self.refresh_head(observed);
        let capacity = self.hold.buffer.capacity();
        capacity - distance(capacity, self.hold.head, self.hold.tail)
    }

    /// Returns `true` if there are no slots available for writing.
    ///
    /// The copy of `head` is brought up to date only if it shows no room.
    pub fn is_full(&mut self) -> (full: bool)
        ensures
            final(self).ring() == old(self).ring(),
            old(self)@.head_caught_up(final(self)@),
            !old(self)@.is_full() ==> final(self)@ == old(self)@,
            full == final(self)@.is_full(),
    {
        self.next_tail().is_none()
    }
}

} // verus!
