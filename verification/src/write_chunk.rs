//! Writing several slots in one go.
//!
//! A write chunk reserves nothing in the ring. The elements that the caller
//! writes stay in memory of the producer, which the chunk borrows, until a
//! commit moves them into the free slots behind `tail` and publishes them
//! with a single store of `tail`. A chunk that is dropped without a commit
//! publishes nothing; what was written to it is dropped when the producer
//! hands out its next chunk, or with the producer.
use crate::position::first_stretch;
use crate::producer::Producer;
use vstd::prelude::*;

verus! {

/// The number of slots at the front of `slots` that are filled, counted up
/// to the first vacant one and no further than `n`.
pub open spec fn filled_prefix<T>(slots: Seq<Option<T>>, n: nat) -> nat
    decreases n,
{
    if n == 0 || slots.len() == 0 || slots[0] is None {
        0
    } else {
        1 + filled_prefix(slots.drop_first(), (n - 1) as nat)
    }
}

/// The filled prefix is a prefix, it is filled, and it ends at `n`, at the
/// end of the slots or before a vacant slot.
pub proof fn lemma_filled_prefix<T>(slots: Seq<Option<T>>, n: nat)
    ensures
        filled_prefix(slots, n) <= n,
        filled_prefix(slots, n) <= slots.len(),
        forall|i: int| 0 <= i < filled_prefix(slots, n) ==> (#[trigger] slots[i]) is Some,
        filled_prefix(slots, n) < n && filled_prefix(slots, n) < slots.len()
            ==> slots[filled_prefix(slots, n) as int] is None,
    decreases n,
{
    if n == 0 || slots.len() == 0 || slots[0] is None {
    } else {
        let rest = slots.drop_first();
        lemma_filled_prefix(rest, (n - 1) as nat);
        let k = filled_prefix(rest, (n - 1) as nat);
        assert forall|i: int| 0 <= i < 1 + k implies (#[trigger] slots[i]) is Some by {
            if i > 0 {
                assert(slots[i] == rest[i - 1]);
            }
        }
        if k < n - 1 && k < rest.len() {
            assert(slots[1 + k as int] == rest[k as int]);
        }
    }
}

/// Structure for writing into multiple slots in one go, each of them vacant
/// until the caller fills it.
///
/// This is returned from [`Producer::write_chunk_maybe_uninit`].
#[verifier::reject_recursive_types(T)]
#[derive(Debug)]
pub struct WriteChunkMaybeUninit<'a, T> {
    producer: &'a mut Producer<T>,
    first_len: usize,
    second_len: usize,
    iterated: usize,
}

impl<'a, T> WriteChunkMaybeUninit<'a, T> {
    /// The endpoint that the chunk writes through.
    pub closed spec fn producer(self) -> &'a mut Producer<T> {
        self.producer
    }

    /// What the chunk holds for each of its slots, in queue order.
    pub open spec fn slots(&self) -> Seq<Option<T>> {
        self.producer().vacant_memory()
    }

    /// The number of slots in the first of the two slices.
    pub closed spec fn first_len(&self) -> nat {
        self.first_len as nat
    }

    /// The number of slots that were handed out one by one.
    pub closed spec fn iterated(&self) -> nat {
        self.iterated as nat
    }

    /// The chunk fits into the free slots of its endpoint, it is split where
    /// the storage ends, and no more slots were handed out than it has.
    pub closed spec fn wf(&self) -> bool {
        &&& self.producer@.wf()
        &&& self.slots().len() == self.first_len + self.second_len
        &&& self.first_len + self.second_len <= usize::MAX
        &&& self.slots().len() <= self.producer@.free()
        &&& self.first_len == first_stretch(
            self.producer@.capacity,
            self.producer@.tail,
            self.slots().len(),
        )
        &&& self.iterated <= self.slots().len()
    }

    /// A chunk that is dropped without a commit leaves its endpoint as it
    /// is: nothing is published, and `tail` stays where it was.
    pub proof fn lemma_dropped(self)
        requires
            has_resolved(self),
        ensures
            *final(self.producer()) == *self.producer(),
    {
    }

    /// A chunk of `n` vacant slots.
    pub(crate) fn reserve(producer: &'a mut Producer<T>, n: usize) -> (chunk: Self)
        requires
            n <= old(producer)@.free(),
        ensures
            chunk.wf(),
            chunk.producer().ring() == old(producer).ring(),
            chunk.producer()@ == old(producer)@,
            *final(chunk.producer()) == *final(producer),
            chunk.slots() == Seq::new(n as nat, |i: int| None::<T>),
            chunk.first_len() == first_stretch(
                old(producer)@.capacity,
                old(producer)@.tail,
                n as nat,
            ),
            chunk.iterated() == 0,
    {
        let (first_len, second_len) = producer.split_at_tail(n);
        producer.reset_vacant(n);
        WriteChunkMaybeUninit { producer, first_len, second_len, iterated: 0 }
    }

    /// Returns the number of slots in the chunk.
    pub fn len(&self) -> (n: usize)
        requires
            self.wf(),
        ensures
            n == self.slots().len(),
    {
        self.first_len + self.second_len
    }

    /// Returns `true` if the chunk contains no slots.
    pub fn is_empty(&self) -> (empty: bool)
        requires
            self.wf(),
        ensures
            empty == (self.slots().len() == 0),
    {
        self.first_len == 0
    }

    /// Returns two slices for writing to the requested slots.
    ///
    /// The first slice can only be empty if `0` slots have been requested.
    /// If the first slice contains all requested slots, the second one is
    /// empty.
    pub fn as_mut_slices(&mut self) -> (slices: (&mut [Option<T>], &mut [Option<T>]))
        requires
            old(self).wf(),
        ensures
            slices.0@ == old(self).slots().subrange(0, old(self).first_len() as int),
            slices.1@ == old(self).slots().subrange(
                old(self).first_len() as int,
                old(self).slots().len() as int,
            ),
            slices.0@.len() == old(self).first_len(),
            slices.0@.len() + slices.1@.len() == old(self).slots().len(),
            final(self).slots() == final(slices.0)@ + final(slices.1)@,
            final(self).producer().ring() == old(self).producer().ring(),
            final(self).producer()@ == old(self).producer()@,
            *final(final(self).producer()) == *final(old(self).producer()),
            final(self).first_len() == old(self).first_len(),
            final(self).iterated() == old(self).iterated(),
            final(self).slots().len() == old(self).slots().len() ==> final(self).wf(),
    {
        let first_len = self.first_len;
        self.producer.vacant_parts(first_len)
    }

    /// Hands out the next slot of the chunk that was not handed out yet, in
    /// queue order, and counts it as iterated.
    pub fn next(&mut self) -> (slot: Option<&mut Option<T>>)
        requires
            old(self).wf(),
        ensures
            final(self).wf(),
            final(self).producer().ring() == old(self).producer().ring(),
            final(self).producer()@ == old(self).producer()@,
            *final(final(self).producer()) == *final(old(self).producer()),
            final(self).first_len() == old(self).first_len(),
            slot is Some <==> old(self).iterated() < old(self).slots().len(),
            slot matches Some(s) ==> {
                &&& *s == old(self).slots()[old(self).iterated() as int]
                &&& final(self).slots() == old(self).slots().update(
                    old(self).iterated() as int,
                    *final(s),
                )
                &&& final(self).iterated() == old(self).iterated() + 1
            },
            slot is None ==> final(self).slots() == old(self).slots() && final(self).iterated()
                == old(self).iterated(),
    {
        if self.iterated < self.first_len + self.second_len {
            let i = self.iterated;
            self.iterated = i + 1;
            Some(self.producer.vacant_slot(i))
        } else {
            None
        }
    }

    /// Makes the first `n` slots of the chunk available for reading: their
    /// elements move into the ring and `tail` moves `n` slots forward.
    ///
    /// The caller is to fill the first `n` slots before. Should one of them
    /// be vacant, the commit ends before it: a vacant slot is never handed
    /// to the consumer. What the chunk holds behind the committed slots
    /// stays in the memory of the producer until its next chunk.
    pub fn commit(self, n: usize)
        requires
            self.wf(),
            n <= self.slots().len(),
        ensures
            final(self.producer()).ring() == self.producer().ring(),
            final(self.producer())@ == self.producer()@.produce(
                filled_prefix(self.slots(), n as nat),
            ),
            (forall|i: int| 0 <= i < n ==> (#[trigger] self.slots()[i]) is Some)
                ==> final(self.producer())@ == self.producer()@.produce(n as nat),
            n == 0 ==> final(self.producer())@ == self.producer()@,
            final(self.producer())@.wf(),
    {
        let WriteChunkMaybeUninit { producer, .. } = self;
        let mut i: usize = 0;
        let mut vacant = false;
        while i < n && !vacant
            invariant
                i <= n <= producer.vacant_memory().len(),
                producer.vacant_memory().len() == self.slots().len(),
                producer.vacant_memory().len() <= producer@.free(),
                producer@ == self.producer@,
                producer.ring() == self.producer.ring(),
                *final(producer) == *final(self.producer),
                forall|k: int|
                    i <= k < producer.vacant_memory().len() ==> producer.vacant_memory()[k]
                        == self.slots()[k],
                forall|k: int| 0 <= k < i ==> (#[trigger] self.slots()[k]) is Some,
                vacant ==> i < n && self.slots()[i as int] is None,
            decreases n - i + if vacant { 0int } else { 1int },
        {
            match producer.take_vacant(i) {
                Some(value) => {
                    producer.store_at(i, value);
                    i += 1;
                },
                None => {
                    vacant = true;
                },
            }
        }
        proof {
            lemma_filled_prefix(self.slots(), n as nat);
            assert(i == filled_prefix(self.slots(), n as nat));
        }
        producer.publish(i);
    }

    /// Makes the iterated slots available for reading.
    ///
    /// The caller is to fill every slot that was handed out. Should one of
    /// them be vacant, the commit ends before it.
    pub fn commit_iterated(self)
        requires
            self.wf(),
        ensures
            final(self.producer()).ring() == self.producer().ring(),
            final(self.producer())@ == self.producer()@.produce(
                filled_prefix(self.slots(), self.iterated()),
            ),
            (forall|i: int| 0 <= i < self.iterated() ==> (#[trigger] self.slots()[i]) is Some)
                ==> final(self.producer())@ == self.producer()@.produce(self.iterated()),
            final(self.producer())@.wf(),
    {
        let n = self.iterated;
        self.commit(n)
    }

    /// Makes the whole chunk available for reading.
    ///
    /// The caller is to fill every slot. Should one of them be vacant, the
    /// commit ends before it.
    pub fn commit_all(self)
        requires
            self.wf(),
        ensures
            final(self.producer()).ring() == self.producer().ring(),
            final(self.producer())@ == self.producer()@.produce(
                filled_prefix(self.slots(), self.slots().len()),
            ),
            (forall|i: int| 0 <= i < self.slots().len() ==> (#[trigger] self.slots()[i]) is Some)
                ==> final(self.producer())@ == self.producer()@.produce(self.slots().len()),
            final(self.producer())@.wf(),
    {
        let n = self.len();
        self.commit(n)
    }
}

/// Structure for writing into multiple slots in one go, each of them holding
/// the default value until the caller writes another.
///
/// This is returned from [`Producer::write_chunk`].
#[verifier::reject_recursive_types(T)]
#[derive(Debug)]
pub struct WriteChunk<'a, T> {
    producer: &'a mut Producer<T>,
    first_len: usize,
    second_len: usize,
    iterated: usize,
}

impl<'a, T: Copy + Default> WriteChunk<'a, T> {
    /// The endpoint that the chunk writes through.
    pub closed spec fn producer(self) -> &'a mut Producer<T> {
        self.producer
    }

    /// What the chunk holds for each of its slots, in queue order.
    pub open spec fn slots(&self) -> Seq<T> {
        self.producer().filled_memory()
    }

    /// The number of slots in the first of the two slices.
    pub closed spec fn first_len(&self) -> nat {
        self.first_len as nat
    }

    /// The number of slots that were handed out one by one.
    pub closed spec fn iterated(&self) -> nat {
        self.iterated as nat
    }

    /// The chunk fits into the free slots of its endpoint, it is split where
    /// the storage ends, and no more slots were handed out than it has.
    pub closed spec fn wf(&self) -> bool {
        &&& self.producer@.wf()
        &&& self.slots().len() == self.first_len + self.second_len
        &&& self.first_len + self.second_len <= usize::MAX
        &&& self.slots().len() <= self.producer@.free()
        &&& self.first_len == first_stretch(
            self.producer@.capacity,
            self.producer@.tail,
            self.slots().len(),
        )
        &&& self.iterated <= self.slots().len()
    }

    /// A chunk that is dropped without a commit leaves its endpoint as it
    /// is: nothing is published, and `tail` stays where it was.
    pub proof fn lemma_dropped(self)
        requires
            has_resolved(self),
        ensures
            *final(self.producer()) == *self.producer(),
    {
    }

    /// Fills all slots with the default value.
    pub fn from(chunk: WriteChunkMaybeUninit<'a, T>) -> (filled: Self)
        requires
            chunk.wf(),
        ensures
            filled.wf(),
            filled.producer().ring() == chunk.producer().ring(),
            filled.producer()@ == chunk.producer()@,
            *final(filled.producer()) == *final(chunk.producer()),
            filled.slots().len() == chunk.slots().len(),
            forall|i: int|
                0 <= i < filled.slots().len() ==> call_ensures(
                    T::default,
                    (),
                    #[trigger] filled.slots()[i],
                ),
            filled.first_len() == chunk.first_len(),
            filled.iterated() == chunk.iterated(),
    {
        let WriteChunkMaybeUninit { producer, first_len, second_len, iterated } = chunk;
        producer.reset_vacant(0);
        producer.reset_filled(first_len + second_len);
        WriteChunk { producer, first_len, second_len, iterated }
    }

    /// Returns the number of slots in the chunk.
    pub fn len(&self) -> (n: usize)
        requires
            self.wf(),
        ensures
            n == self.slots().len(),
    {
        self.first_len + self.second_len
    }

    /// Returns `true` if the chunk contains no slots.
    pub fn is_empty(&self) -> (empty: bool)
        requires
            self.wf(),
        ensures
            empty == (self.slots().len() == 0),
    {
        self.first_len == 0
    }

    /// Returns two slices for writing to the requested slots.
    ///
    /// The first slice can only be empty if `0` slots have been requested.
    /// If the first slice contains all requested slots, the second one is
    /// empty.
    pub fn as_mut_slices(&mut self) -> (slices: (&mut [T], &mut [T]))
        requires
            old(self).wf(),
        ensures
            slices.0@ == old(self).slots().subrange(0, old(self).first_len() as int),
            slices.1@ == old(self).slots().subrange(
                old(self).first_len() as int,
                old(self).slots().len() as int,
            ),
            slices.0@.len() == old(self).first_len(),
            slices.0@.len() + slices.1@.len() == old(self).slots().len(),
            final(self).slots() == final(slices.0)@ + final(slices.1)@,
            final(self).producer().ring() == old(self).producer().ring(),
            final(self).producer()@ == old(self).producer()@,
            *final(final(self).producer()) == *final(old(self).producer()),
            final(self).first_len() == old(self).first_len(),
            final(self).iterated() == old(self).iterated(),
            final(self).slots().len() == old(self).slots().len() ==> final(self).wf(),
    {
        let first_len = self.first_len;
        self.producer.filled_parts(first_len)
    }

    /// Hands out the next slot of the chunk that was not handed out yet, in
    /// queue order, and counts it as iterated.
    pub fn next(&mut self) -> (slot: Option<&mut T>)
        requires
            old(self).wf(),
        ensures
            final(self).wf(),
            final(self).producer().ring() == old(self).producer().ring(),
            final(self).producer()@ == old(self).producer()@,
            *final(final(self).producer()) == *final(old(self).producer()),
            final(self).first_len() == old(self).first_len(),
            slot is Some <==> old(self).iterated() < old(self).slots().len(),
            slot matches Some(s) ==> {
                &&& *s == old(self).slots()[old(self).iterated() as int]
                &&& final(self).slots() == old(self).slots().update(
                    old(self).iterated() as int,
                    *final(s),
                )
                &&& final(self).iterated() == old(self).iterated() + 1
            },
            slot is None ==> final(self).slots() == old(self).slots() && final(self).iterated()
                == old(self).iterated(),
    {
        if self.iterated < self.first_len + self.second_len {
            let i = self.iterated;
            self.iterated = i + 1;
            Some(self.producer.filled_slot(i))
        } else {
            None
        }
    }

    /// Makes the first `n` slots of the chunk available for reading: their
    /// elements are copied into the ring and `tail` moves `n` slots forward.
    pub fn commit(self, n: usize)
        requires
            self.wf(),
            n <= self.slots().len(),
        ensures
            final(self.producer()).ring() == self.producer().ring(),
            final(self.producer())@ == self.producer()@.produce(n as nat),
            n == 0 ==> final(self.producer())@ == self.producer()@,
            final(self.producer())@.wf(),
    {
        let WriteChunk { producer, .. } = self;
        let mut i: usize = 0;
        while i < n
            invariant
                i <= n <= producer.filled_memory().len(),
                producer.filled_memory().len() <= producer@.free(),
                producer@ == self.producer@,
                producer.ring() == self.producer.ring(),
                *final(producer) == *final(self.producer),
            decreases n - i,
        {
            producer.store_at(i, producer.filled_at(i));
            i += 1;
        }
        producer.publish(n);
    }

    /// Makes the iterated slots available for reading.
    pub fn commit_iterated(self)
        requires
            self.wf(),
        ensures
            final(self.producer()).ring() == self.producer().ring(),
            final(self.producer())@ == self.producer()@.produce(self.iterated()),
            final(self.producer())@.wf(),
    {
        let n = self.iterated;
        self.commit(n)
    }

    /// Makes the whole chunk available for reading.
    pub fn commit_all(self)
        requires
            self.wf(),
        ensures
            final(self.producer()).ring() == self.producer().ring(),
            final(self.producer())@ == self.producer()@.produce(self.slots().len()),
            final(self.producer())@.wf(),
    {
        let n = self.len();
        self.commit(n)
    }
}

} // verus!
