//! The reading endpoint.
use crate::error::{ChunkError, PeekError, PopError};
use crate::indices::Indices;
use crate::position::{
    collapse_position, distance, first_stretch, increment, increment1, split_lengths,
};
use crate::read_chunk::ReadChunk;
use crate::ring::RingBuffer;
use std::sync::Arc;
use vstd::prelude::*;

verus! {

/// The consumer side of a [`RingBuffer`].
///
/// It owns `head`, which it alone writes, and keeps a copy of `tail` that
/// it brings up to date only when the copy shows too few elements.
///
/// Elements that a caller wants to look at before they leave the queue are
/// moved from their slots to a staging area of this endpoint, in queue
/// order. A staged element is still in the queue: `head` has not passed it.
#[verifier::reject_recursive_types(T)]
#[derive(Debug)]
pub struct Consumer<T> {
    buffer: Arc<RingBuffer<T>>,
    head: usize,
    tail: usize,
    staged: Vec<T>,
}

impl<T> Consumer<T> {
    /// What holds of every consumer: its indices are well formed, they are
    /// indices of its queue, and the staged elements are among those that
    /// the indices show.
    #[verifier::type_invariant]
    pub open spec fn inv(&self) -> bool {
        &&& self@.wf()
        &&& self@.capacity == self.ring().spec_capacity()
        &&& self.staged().len() <= self@.filled()
    }

    /// The queue that this endpoint reads from.
    pub closed spec fn ring(&self) -> RingBuffer<T> {
        *self.buffer
    }

    /// The indices that this endpoint works with.
    pub closed spec fn view(&self) -> Indices {
        Indices {
            capacity: self.buffer.spec_capacity(),
            head: self.head as nat,
            tail: self.tail as nat,
        }
    }

    /// The elements at the front of the queue that were moved out of their
    /// slots, oldest first.
    pub closed spec fn staged(&self) -> Seq<T> {
        self.staged@
    }

    /// The reading endpoint of `buffer`, with both indices at position `0`.
    pub(crate) fn attach(buffer: Arc<RingBuffer<T>>) -> (consumer: Consumer<T>)
        ensures
            consumer.ring() == *buffer,
            consumer@ == (Indices { capacity: buffer.spec_capacity(), head: 0, tail: 0 }),
            consumer.staged() == Seq::<T>::empty(),
    {
        let staged: Vec<T> = Vec::with_capacity(buffer.capacity());
        Consumer { buffer, head: 0, tail: 0, staged }
    }

    /// The queue that this endpoint reads from.
    pub fn buffer(&self) -> (buffer: &RingBuffer<T>)
        ensures
            *buffer == self.ring(),
            buffer.spec_capacity() == self@.capacity,
    {
        &self.buffer
    }

    /// Takes `observed`, a value read from the shared `tail`, for the copy
    /// of `tail` if the indices admit it, and leaves the copy as it is
    /// otherwise.
    pub fn refresh_tail(&mut self, observed: usize)
        ensures
            final(self).ring() == old(self).ring(),
            final(self)@ == old(self)@.observe_tail(observed as nat),
            final(self)@.wf(),
            final(self).staged() == old(self).staged(),
            final(self).staged().len() <= final(self)@.filled(),
    {
        proof {
            use_type_invariant(&*self);
        }
        let capacity = self.buffer.capacity();
        if observed == 0 || observed < 2 * capacity {
            let seen = distance(capacity, self.head, observed);
            if seen <= capacity && distance(capacity, self.head, self.tail) <= seen {
                self.tail = observed;
            }
        }
    }

    /// Adds `taken`, the content found in the slot that follows the staged
    /// elements, to the staging area. Nothing is staged if the slot was
    /// vacant or if the indices show no element behind the staged ones.
    pub fn receive(&mut self, taken: Option<T>) -> (added: bool)
        ensures
            final(self).ring() == old(self).ring(),
            final(self)@ == old(self)@,
            added <==> taken is Some && old(self).staged().len() < old(self)@.filled(),
            added ==> final(self).staged() == old(self).staged().push(taken->0),
            !added ==> final(self).staged() == old(self).staged(),
            final(self)@.wf(),
            final(self).staged().len() <= final(self)@.filled(),
    {
        proof {
            use_type_invariant(&*self);
        }
        let capacity = self.buffer.capacity();
        match taken {
            Some(value) => {
                if self.staged.len() < distance(capacity, self.head, self.tail) {
                    self.stage(value);
                    true
                } else {
                    false
                }
            },
            None => false,
        }
    }

    /// Puts `value` behind the staged elements.
    ///
    /// The staging area is taken out of the endpoint while it changes and
    /// put back afterwards: what holds of every consumer has to hold
    /// whenever the endpoint can be seen.
    fn stage(&mut self, value: T)
        requires
            old(self).staged().len() < old(self)@.filled(),
        ensures
            final(self).ring() == old(self).ring(),
            final(self)@ == old(self)@,
            final(self).staged() == old(self).staged().push(value),
    {
        proof {
            use_type_invariant(&*self);
        }
        let mut staged: Vec<T> = Vec::new();
        std::mem::swap(&mut self.staged, &mut staged);
        staged.push(value);
        std::mem::swap(&mut self.staged, &mut staged);
    }

    /// Takes the first of the staged elements.
    fn unstage(&mut self) -> (value: T)
        requires
            old(self).staged().len() > 0,
        ensures
            final(self).ring() == old(self).ring(),
            final(self)@ == old(self)@,
            value == old(self).staged()[0],
            final(self).staged() == old(self).staged().drop_first(),
    {
        proof {
            use_type_invariant(&*self);
        }
        let mut staged: Vec<T> = Vec::new();
        std::mem::swap(&mut self.staged, &mut staged);
        let value = staged.remove(0);
        std::mem::swap(&mut self.staged, &mut staged);
        proof {
            assert(final(self).staged() =~= old(self).staged().drop_first());
        }
        value
    }

    /// Moves the element behind the staged ones from its slot to the
    /// staging area, if the indices show one and its slot holds it.
    fn stage_next(&mut self) -> (added: bool)
        ensures
            final(self).ring() == old(self).ring(),
            final(self)@ == old(self)@,
            added ==> old(self).staged().len() < old(self)@.filled()
                && final(self).staged().len() == old(self).staged().len() + 1
                && final(self).staged().drop_last() == old(self).staged(),
            !added ==> final(self).staged() == old(self).staged(),
    {
        proof {
            use_type_invariant(&*self);
        }
        let capacity = self.buffer.capacity();
        let staged = self.staged.len();
        if staged < distance(capacity, self.head, self.tail) {
            let pos = increment(capacity, self.head, staged);
            let taken = self.buffer.vacate(collapse_position(capacity, pos));
            let added = self.receive(taken);
            proof {
                if added {
                    assert(final(self).staged().drop_last() =~= old(self).staged());
                }
            }
            added
        } else {
            false
        }
    }

    /// Get the head position for reading the next slot, if available.
    fn next_head(&mut self) -> (next: Option<usize>)
        ensures
            final(self).ring() == old(self).ring(),
            old(self)@.tail_caught_up(final(self)@),
            !old(self)@.is_empty() ==> final(self)@ == old(self)@,
            next is Some <==> !final(self)@.is_empty(),
            next is Some ==> next->0 == old(self)@.head,
            final(self).staged() == old(self).staged(),
    {
        proof {
            use_type_invariant(&*self);
        }
        let head = self.head;
        if head == self.tail {
            let observed = self.buffer.load_tail();
            self.refresh_tail(observed);
            if head == self.tail {
                return None;
            }
        }
        Some(head)
    }

    /// Attempts to pop an element from the queue.
    ///
    /// The element at `head` is moved out of the queue, and `head` moves one
    /// slot forward, which hands the slot back to the producer. If the
    /// queue is empty, an error is returned.
    ///
    /// The copy of `tail` is brought up to date only if it shows no element.
    /// The element at `head` is staged, if it is not yet, and taken from
    /// there: the pop fails if the slot at `head` is vacant.
    pub fn pop(&mut self) -> (popped: Result<T, PopError>)
        ensures
            final(self).ring() == old(self).ring(),
            ({
                let seen = final(self)@.with_head(old(self)@.head);
                &&& old(self)@.tail_caught_up(seen)
                &&& !old(self)@.is_empty() ==> seen == old(self)@
                &&& seen.is_empty() ==> popped is Err
                &&& popped is Ok ==> !seen.is_empty() && final(self)@ == seen.consume(1)
                &&& popped is Err ==> final(self)@ == seen
            }),
            old(self)@.capacity == 0 ==> popped is Err,
            old(self).staged().len() > 0 ==> popped == Ok::<T, PopError>(old(self).staged()[0])
                && final(self).staged() == old(self).staged().drop_first(),
            old(self).staged().len() == 0 ==> final(self).staged().len() == 0,
            final(self)@.wf(),
    {
        if let Some(head) = self.next_head() {
            if self.staged.len() == 0 && !self.stage_next() {
                return Err(PopError::Empty);
            }
            proof {
                use_type_invariant(&*self);
            }
            let value = self.unstage();
            let head = increment1(self.buffer.capacity(), head);
            self.buffer.store_head(head);
            self.head = head;
            Ok(value)
        } else {
            proof {
                use_type_invariant(&*self);
            }
            Err(PopError::Empty)
        }
    }

    /// Attempts to read an element from the queue without removing it.
    ///
    /// The element at `head` is staged, if it is not yet, and lent to the
    /// caller. It stays in the queue: `head` does not move. If the queue is
    /// empty, an error is returned.
    ///
    /// The copy of `tail` is brought up to date only if it shows no element.
    /// With nothing staged, the peek takes what the slot at `head` holds,
    /// and fails if that slot is vacant.
    pub fn peek(&mut self) -> (peeked: Result<&T, PeekError>)
        ensures
            final(self).ring() == old(self).ring(),
            old(self)@.tail_caught_up(final(self)@),
            !old(self)@.is_empty() ==> final(self)@ == old(self)@,
            final(self)@.is_empty() ==> peeked is Err,
            old(self)@.capacity == 0 ==> peeked is Err,
            old(self).staged().len() > 0 ==> peeked is Ok
                && final(self).staged() == old(self).staged(),
            old(self).staged().len() == 0 ==> final(self).staged().len() <= 1,
            peeked matches Ok(front) ==> final(self).staged().len() > 0
                && *front == final(self).staged()[0],
            peeked is Err ==> final(self).staged().len() == 0,
    {
        if self.next_head().is_some() {
            if self.staged.len() == 0 {
                self.stage_next();
            }
        }
        proof {
            use_type_invariant(&*self);
        }
        if self.staged.len() == 0 {
            Err(PeekError::Empty)
        } else {
            Ok(&self.staged[0])
        }
    }

    /// Returns `n` slots for reading.
    ///
    /// If not enough slots are available, an error (containing the number
    /// of available slots) is returned. The copy of `tail` is brought up to
    /// date only if it shows fewer than `n` elements.
    ///
    /// The first `n` elements of the queue are staged, as far as they are
    /// not yet, and the chunk lends them to the caller. They stay in the
    /// queue until one of the chunk's commits is called. Should one of
    /// their slots be vacant, the elements before it stay staged and their
    /// number is returned as the number of available slots.
    pub fn read_chunk(&mut self, n: usize) -> (lent: Result<ReadChunk<'_, T>, ChunkError>)
        ensures
            n <= old(self).staged().len() ==> lent is Ok,
            match lent {
                Ok(chunk) => {
                    &&& chunk.wf()
                    &&& chunk.consumer().ring() == old(self).ring()
                    &&& *final(chunk.consumer()) == *final(self)
                    &&& old(self)@.tail_caught_up(chunk.consumer()@)
                    &&& n <= old(self)@.filled() ==> chunk.consumer()@ == old(self)@
                    &&& old(self).staged().is_prefix_of(chunk.consumer().staged())
                    &&& n <= old(self).staged().len()
                        ==> chunk.consumer().staged() == old(self).staged()
                    &&& chunk.spec_len() == n
                    &&& n <= chunk.consumer().staged().len() <= chunk.consumer()@.filled()
                    &&& chunk.first_len() == first_stretch(
                        old(self)@.capacity,
                        old(self)@.head,
                        n as nat,
                    )
                    &&& chunk.iterated() == 0
                },
                Err(ChunkError::TooFewSlots(available)) => {
                    &&& final(self).ring() == old(self).ring()
                    &&& old(self)@.tail_caught_up(final(self)@)
                    &&& n <= old(self)@.filled() ==> final(self)@ == old(self)@
                    &&& old(self).staged().is_prefix_of(final(self).staged())
                    &&& final(self).staged().len() <= final(self)@.filled()
                    &&& available < n
                    &&& available == if final(self)@.filled() < n {
                        final(self)@.filled()
                    } else {
                        final(self).staged().len()
                    }
                },
            },
    {
        proof {
            use_type_invariant(&*self);
        }
        let capacity = self.buffer.capacity();
        let head = self.head;
        if distance(capacity, head, self.tail) < n {
            let observed = self.buffer.load_tail();
            self.refresh_tail(observed);
            let slots = distance(capacity, head, self.tail);
            if slots < n {
                return Err(ChunkError::TooFewSlots(slots));
            }
        }
        let mut more = true;
        while more && self.staged.len() < n
            invariant
                capacity == self@.capacity,
                head == self@.head,
                self.ring() == old(self).ring(),
                old(self)@.tail_caught_up(self@),
                n <= old(self)@.filled() ==> self@ == old(self)@,
                n <= self@.filled(),
                old(self).staged().is_prefix_of(self.staged()),
                n <= old(self).staged().len() ==> self.staged() == old(self).staged(),
            decreases n - self.staged.len() + if more { 1int } else { 0int },
        {
            more = self.stage_next();
        }
        proof {
            use_type_invariant(&*self);
        }
        let staged = self.staged.len();
        if staged < n {
            return Err(ChunkError::TooFewSlots(staged));
        }
        let (first_len, second_len) = split_lengths(capacity, head, n);
        Ok(ReadChunk::lend(self, first_len, second_len))
    }

    /// The first `end` staged elements, split after the first `mid`.
    pub(crate) fn staged_parts(&self, mid: usize, end: usize) -> (parts: (&[T], &[T]))
        requires
            mid <= end <= self.staged().len(),
        ensures
            parts.0@ == self.staged().subrange(0, mid as int),
            parts.1@ == self.staged().subrange(mid as int, end as int),
    {
        let (front, _) = self.staged.as_slice().split_at(end);
        let parts = front.split_at(mid);
        proof {
            assert(parts.0@ =~= self.staged().subrange(0, mid as int));
            assert(parts.1@ =~= self.staged().subrange(mid as int, end as int));
        }
        parts
    }

    /// The staged element of index `i`.
    pub(crate) fn staged_at(&self, i: usize) -> (element: &T)
        requires
            i < self.staged().len(),
        ensures
            *element == self.staged()[i as int],
    {
        &self.staged[i]
    }

    /// Drops the first `n` staged elements and moves `head` forward by `n`
    /// slots, which hands their slots back to the producer.
    pub(crate) fn release(&mut self, n: usize)
        requires
            n <= old(self).staged().len(),
        ensures
            final(self).ring() == old(self).ring(),
            final(self)@ == old(self)@.consume(n as nat),
            final(self)@.wf(),
            final(self).staged() == old(self).staged().skip(n as int),
    {
        proof {
            use_type_invariant(&*self);
        }
        let mut staged: Vec<T> = Vec::new();
        std::mem::swap(&mut self.staged, &mut staged);
        if n == staged.len() {
            staged.clear();
        } else {
            let mut i: usize = 0;
            while i < n
                invariant
                    i <= n <= old(self).staged().len(),
                    staged@ == old(self).staged().skip(i as int),
                decreases n - i,
            {
                let _ = staged.remove(0);
                i += 1;
                assert(staged@ =~= old(self).staged().skip(i as int));
            }
        }
        assert(staged@ =~= old(self).staged().skip(n as int));
        let head = increment(self.buffer.capacity(), self.head, n);
        self.buffer.store_head(head);
        self.head = head;
        std::mem::swap(&mut self.staged, &mut staged);
    }

    /// Returns the number of slots available for reading, after bringing
    /// the copy of `tail` up to date.
    pub fn slots(&mut self) -> (filled: usize)
        ensures
            final(self).ring() == old(self).ring(),
            old(self)@.tail_caught_up(final(self)@),
            filled == final(self)@.filled(),
            final(self).staged() == old(self).staged(),
    {
        let observed = self.buffer.load_tail();
        self.refresh_tail(observed);
        let capacity = self.buffer.capacity();
        distance(capacity, self.head, self.tail)
    }

    /// Returns `true` if there are no slots available for reading.
    ///
    /// The copy of `tail` is brought up to date only if it shows no element.
    pub fn is_empty(&mut self) -> (empty: bool)
        ensures
            final(self).ring() == old(self).ring(),
            old(self)@.tail_caught_up(final(self)@),
            !old(self)@.is_empty() ==> final(self)@ == old(self)@,
            empty == final(self)@.is_empty(),
            final(self).staged() == old(self).staged(),
    {
        self.next_head().is_none()
    }
}

} // verus!
