//! Reading several slots in one go.
//!
//! A read chunk lends the first elements of the queue to the caller. They
//! stay in the queue until a commit drops them and gives their slots back
//! with a single store of `head`. A chunk that is dropped without a commit
//! gives nothing back: the consumer can ask for the same elements again.
use crate::consumer::Consumer;
use crate::position::first_stretch;
use vstd::prelude::*;

verus! {

/// Structure for reading from multiple slots in one go.
///
/// This is returned from [`Consumer::read_chunk`].
#[verifier::reject_recursive_types(T)]
#[derive(Debug)]
pub struct ReadChunk<'a, T> {
    consumer: &'a mut Consumer<T>,
    first_len: usize,
    second_len: usize,
    iterated: usize,
}

impl<'a, T> ReadChunk<'a, T> {
    /// The endpoint that the chunk reads through.
    pub closed spec fn consumer(self) -> &'a mut Consumer<T> {
        self.consumer
    }

    /// The number of slots in the chunk.
    pub closed spec fn spec_len(&self) -> nat {
        (self.first_len + self.second_len) as nat
    }

    /// The number of slots in the first of the two slices.
    pub closed spec fn first_len(&self) -> nat {
        self.first_len as nat
    }

    /// The number of slots that were handed out one by one.
    pub closed spec fn iterated(&self) -> nat {
        self.iterated as nat
    }

    /// The elements of the chunk, in queue order: the first of the staged
    /// elements of its endpoint.
    pub open spec fn elements(&self) -> Seq<T> {
        self.consumer().staged().subrange(0, self.spec_len() as int)
    }

    /// The chunk covers staged elements of its endpoint only, it is split
    /// where the storage ends, and no more slots were handed out than it
    /// has.
    pub closed spec fn wf(&self) -> bool {
        &&& self.consumer@.wf()
        &&& self.consumer.staged().len() <= self.consumer@.filled()
        &&& self.first_len + self.second_len <= self.consumer.staged().len()
        &&& self.first_len + self.second_len <= usize::MAX
        &&& self.first_len == first_stretch(
            self.consumer@.capacity,
            self.consumer@.head,
            self.spec_len(),
        )
        &&& self.iterated <= self.first_len + self.second_len
    }

    /// A chunk that is dropped without a commit leaves its endpoint as it
    /// is: nothing is given back, `head` stays where it was and the
    /// elements stay staged.
    pub proof fn lemma_dropped(self)
        requires
            has_resolved(self),
        ensures
            *final(self.consumer()) == *self.consumer(),
    {
    }

    /// A chunk of the first `first_len + second_len` staged elements.
    pub(crate) fn lend(
        consumer: &'a mut Consumer<T>,
        first_len: usize,
        second_len: usize,
    ) -> (chunk: Self)
        requires
            old(consumer)@.wf(),
            old(consumer).staged().len() <= old(consumer)@.filled(),
            first_len + second_len <= old(consumer).staged().len(),
            first_len + second_len <= usize::MAX,
            first_len == first_stretch(
                old(consumer)@.capacity,
                old(consumer)@.head,
                (first_len + second_len) as nat,
            ),
        ensures
            chunk.wf(),
            *chunk.consumer() == *old(consumer),
            *final(chunk.consumer()) == *final(consumer),
            chunk.spec_len() == first_len + second_len,
            chunk.first_len() == first_len,
            chunk.iterated() == 0,
    {
        ReadChunk { consumer, first_len, second_len, iterated: 0 }
    }

    /// Returns the number of slots in the chunk.
    pub fn len(&self) -> (n: usize)
        requires
            self.wf(),
        ensures
            n == self.spec_len(),
    {
        self.first_len + self.second_len
    }

    /// Returns `true` if the chunk contains no slots.
    pub fn is_empty(&self) -> (empty: bool)
        requires
            self.wf(),
        ensures
            empty == (self.spec_len() == 0),
    {
        self.first_len == 0
    }

    /// Returns two slices for reading from the requested slots.
    ///
    /// The first slice can only be empty if `0` slots have been requested.
    /// If the first slice contains all requested slots, the second one is
    /// empty.
    pub fn as_slices(&self) -> (slices: (&[T], &[T]))
        requires
            self.wf(),
        ensures
            slices.0@ == self.elements().subrange(0, self.first_len() as int),
            slices.1@ == self.elements().subrange(self.first_len() as int, self.spec_len() as int),
            slices.0@.len() == self.first_len(),
            slices.0@.len() + slices.1@.len() == self.spec_len(),
            slices.0@ + slices.1@ == self.elements(),
    {
        let slices = self.consumer.staged_parts(self.first_len, self.first_len + self.second_len);
        proof {
            assert(slices.0@ =~= self.elements().subrange(0, self.first_len() as int));
            assert(slices.1@ =~= self.elements().subrange(
                self.first_len() as int,
                self.spec_len() as int,
            ));
            assert(slices.0@ + slices.1@ =~= self.elements());
        }
        slices
    }

    /// Hands out the next element of the chunk that was not handed out
    /// yet, in queue order, and counts it as iterated.
    pub fn next(&mut self) -> (element: Option<&T>)
        requires
            old(self).wf(),
        ensures
            final(self).wf(),
            final(self).consumer() == old(self).consumer(),
            final(self).spec_len() == old(self).spec_len(),
            final(self).first_len() == old(self).first_len(),
            element is Some <==> old(self).iterated() < old(self).spec_len(),
            element matches Some(e) ==> *e == old(self).elements()[old(self).iterated() as int]
                && final(self).iterated() == old(self).iterated() + 1,
            element is None ==> final(self).iterated() == old(self).iterated(),
    {
        if self.iterated < self.first_len + self.second_len {
            let i = self.iterated;
            self.iterated = i + 1;
            Some(self.consumer.staged_at(i))
        } else {
            None
        }
    }

    /// Drops the first `n` elements of the chunk, making the space
    /// available for writing again: `head` moves `n` slots forward.
    pub fn commit(self, n: usize)
        requires
            self.wf(),
            n <= self.spec_len(),
        ensures
            final(self.consumer()).ring() == self.consumer().ring(),
            final(self.consumer())@ == self.consumer()@.consume(n as nat),
            n == 0 ==> final(self.consumer())@ == self.consumer()@,
            final(self.consumer())@.wf(),
            final(self.consumer()).staged() == self.consumer().staged().skip(n as int),
    {
        self.consumer.release(n);
    }

    /// Drops all elements that have been iterated, making the space
    /// available for writing again.
    pub fn commit_iterated(self)
        requires
            self.wf(),
        ensures
            final(self.consumer()).ring() == self.consumer().ring(),
            final(self.consumer())@ == self.consumer()@.consume(self.iterated()),
            final(self.consumer())@.wf(),
            final(self.consumer()).staged() == self.consumer().staged().skip(
                self.iterated() as int,
            ),
    {
        let n = self.iterated;
        self.commit(n)
    }

    /// Drops all elements of the chunk, making the space available for
    /// writing again.
    pub fn commit_all(self)
        requires
            self.wf(),
        ensures
            final(self.consumer()).ring() == self.consumer().ring(),
            final(self.consumer())@ == self.consumer()@.consume(self.spec_len()),
            final(self.consumer())@.wf(),
            final(self.consumer()).staged() == self.consumer().staged().skip(
                self.spec_len() as int,
            ),
    {
        let n = self.len();
        self.commit(n)
    }
}

} // verus!
