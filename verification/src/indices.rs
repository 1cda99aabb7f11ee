//! What one endpoint knows of the ring: the pair of indices it works with.
//!
//! Each endpoint keeps its own index exactly and a copy of the other side's
//! index that may be out of date. The copy is only ever behind: the producer
//! may see less free room than there is, the consumer fewer elements than
//! there are, never more.
use crate::position::{advance, is_position, slots_between};
use vstd::prelude::*;

verus! {

/// The size of a ring and a pair of positions in it. Elements are read at
/// `head` and written at `tail`.
pub struct Indices {
    pub capacity: nat,
    pub head: nat,
    pub tail: nat,
}

impl Indices {
    /// Both indices are positions of the ring and no more than `capacity`
    /// slots lie between them.
    pub open spec fn wf(self) -> bool {
        &&& is_position(self.capacity, self.head)
        &&& is_position(self.capacity, self.tail)
        &&& slots_between(self.capacity, self.head, self.tail) <= self.capacity
    }

    /// The number of slots that hold an element.
    pub open spec fn filled(self) -> nat {
        slots_between(self.capacity, self.head, self.tail)
    }

    /// The number of slots that can take an element.
    pub open spec fn free(self) -> nat {
        (self.capacity - self.filled()) as nat
    }

    /// No slot holds an element.
    pub open spec fn is_empty(self) -> bool {
        self.head == self.tail
    }

    /// Every slot holds an element.
    pub open spec fn is_full(self) -> bool {
        self.filled() == self.capacity
    }

    /// These indices with `head` in place of their own.
    pub open spec fn with_head(self, head: nat) -> Indices {
        Indices { head, ..self }
    }

    /// These indices with `tail` in place of their own.
    pub open spec fn with_tail(self, tail: nat) -> Indices {
        Indices { tail, ..self }
    }

    /// Whether the producer may take `observed` for the consumer's index:
    /// it is a position, and it leaves no more slots filled than the copy at
    /// hand does.
    pub open spec fn admits_head(self, observed: nat) -> bool {
        &&& is_position(self.capacity, observed)
        &&& slots_between(self.capacity, observed, self.tail) <= self.filled()
    }

    /// Whether the consumer may take `observed` for the producer's index:
    /// it is a position, and it leaves no fewer slots filled than the copy
    /// at hand does, and no more than the ring has.
    pub open spec fn admits_tail(self, observed: nat) -> bool {
        &&& is_position(self.capacity, observed)
        &&& self.filled() <= slots_between(self.capacity, self.head, observed) <= self.capacity
    }

    /// The indices after the producer has looked at the shared `head` and
    /// found `observed` there.
    pub open spec fn observe_head(self, observed: nat) -> Indices {
        if self.admits_head(observed) {
            self.with_head(observed)
        } else {
            self
        }
    }

    /// The indices after the consumer has looked at the shared `tail` and
    /// found `observed` there.
    pub open spec fn observe_tail(self, observed: nat) -> Indices {
        if self.admits_tail(observed) {
            self.with_tail(observed)
        } else {
            self
        }
    }

    /// The indices after `n` slots were written and published.
    pub open spec fn produce(self, n: nat) -> Indices {
        self.with_tail(advance(self.capacity, self.tail, n))
    }

    /// The indices after `n` slots were read and given back.
    pub open spec fn consume(self, n: nat) -> Indices {
        self.with_head(advance(self.capacity, self.head, n))
    }

    /// `later` is what the producer may hold after it has looked at the
    /// shared `head` any number of times: the same ring, the same `tail`,
    /// and no more slots filled than before.
    pub open spec fn head_caught_up(self, later: Indices) -> bool {
        &&& later.capacity == self.capacity
        &&& later.tail == self.tail
        &&& later.wf()
        &&& later.filled() <= self.filled()
    }

    /// `later` is what the consumer may hold after it has looked at the
    /// shared `tail` any number of times: the same ring, the same `head`,
    /// and no fewer slots filled than before.
    pub open spec fn tail_caught_up(self, later: Indices) -> bool {
        &&& later.capacity == self.capacity
        &&& later.head == self.head
        &&& later.wf()
        &&& later.filled() >= self.filled()
    }
}

/// A ring without slots is full and empty at once: nothing can be pushed
/// and nothing popped.
pub proof fn lemma_no_capacity(i: Indices)
    requires
        i.wf(),
        i.capacity == 0,
    ensures
        i.is_full(),
        i.is_empty(),
        i.free() == 0,
        i.filled() == 0,
{
}

/// The two tests and the two counts agree: the ring is empty exactly if no
/// slot is filled, and full exactly if no slot is free. Filled and free
/// slots add up to the capacity.
pub proof fn lemma_counts_agree(i: Indices)
    requires
        i.wf(),
    ensures
        i.is_empty() <==> i.filled() == 0,
        i.is_full() <==> i.free() == 0,
        i.filled() + i.free() == i.capacity,
{
}

/// Publishing `n` written slots moves `tail` forward by exactly `n` slots
/// and leaves `head` alone: `n` more slots are filled.
pub proof fn lemma_produce(i: Indices, n: nat)
    requires
        i.wf(),
        n <= i.free(),
    ensures
        i.produce(n).wf(),
        i.produce(n).head == i.head,
        slots_between(i.capacity, i.tail, i.produce(n).tail) == n,
        i.produce(n).filled() == i.filled() + n,
        n == 0 ==> i.produce(n) == i,
{
}

/// Giving back `n` read slots moves `head` forward by exactly `n` slots and
/// leaves `tail` alone: `n` fewer slots are filled.
pub proof fn lemma_consume(i: Indices, n: nat)
    requires
        i.wf(),
        n <= i.filled(),
    ensures
        i.consume(n).wf(),
        i.consume(n).tail == i.tail,
        slots_between(i.capacity, i.head, i.consume(n).head) == n,
        i.consume(n).filled() == i.filled() - n,
        n == 0 ==> i.consume(n) == i,
{
}

/// A look at the shared `head` never takes room away from the producer,
/// whatever it finds there.
pub proof fn lemma_observe_head(i: Indices, observed: nat)
    requires
        i.wf(),
    ensures
        i.head_caught_up(i.observe_head(observed)),
        i.observe_head(observed).free() >= i.free(),
{
}

/// A look at the shared `tail` never takes elements away from the
/// consumer, whatever it finds there.
pub proof fn lemma_observe_tail(i: Indices, observed: nat)
    requires
        i.wf(),
    ensures
        i.tail_caught_up(i.observe_tail(observed)),
        i.observe_tail(observed).filled() >= i.filled(),
{
}

/// Whatever the producer holds after it has looked at the shared `head` is
/// what one look makes of the indices it held before, for some value that
/// the look may have found.
pub proof fn lemma_head_caught_up(i: Indices, later: Indices)
    requires
        i.wf(),
        i.head_caught_up(later),
    ensures
        later == i.observe_head(later.head),
{
}

/// Whatever the consumer holds after it has looked at the shared `tail` is
/// what one look makes of the indices it held before, for some value that
/// the look may have found.
pub proof fn lemma_tail_caught_up(i: Indices, later: Indices)
    requires
        i.wf(),
        i.tail_caught_up(later),
    ensures
        later == i.observe_tail(later.tail),
{
}

/// A look that finds the other side's index as it is in the ring brings
/// the copy up to date: the endpoint then works with the indices of the
/// ring itself.
///
/// `shared` holds the two indices as they are in the ring. The producer
/// works with its own `tail` and a copy of `head` that may be behind; the
/// consumer works with its own `head` and a copy of `tail` that may be
/// behind.
pub proof fn lemma_observe_shared(shared: Indices, producer: Indices, consumer: Indices)
    requires
        shared.wf(),
        producer.wf(),
        consumer.wf(),
        producer.capacity == shared.capacity,
        consumer.capacity == shared.capacity,
        producer.tail == shared.tail,
        consumer.head == shared.head,
        producer.admits_head(shared.head),
        consumer.admits_tail(shared.tail),
    ensures
        producer.observe_head(shared.head) == shared,
        consumer.observe_tail(shared.tail) == shared,
        producer.observe_head(shared.head).free() + consumer.observe_tail(shared.tail).filled()
            == shared.capacity,
{
}

/// What the two endpoints count at one moment never exceeds the capacity.
///
/// `shared` holds the two indices as they are in the ring. The producer
/// works with its own `tail` and a copy of `head` that may be behind; the
/// consumer works with its own `head` and a copy of `tail` that may be
/// behind. The free slots that the producer counts and the filled slots
/// that the consumer counts add up to no more than the capacity, and to
/// exactly the capacity if both copies are up to date.
pub proof fn lemma_counts_within_capacity(shared: Indices, producer: Indices, consumer: Indices)
    requires
        shared.wf(),
        producer.wf(),
        consumer.wf(),
        producer.capacity == shared.capacity,
        consumer.capacity == shared.capacity,
        producer.tail == shared.tail,
        consumer.head == shared.head,
        producer.admits_head(shared.head),
        consumer.admits_tail(shared.tail),
    ensures
        producer.free() + consumer.filled() <= shared.capacity,
        producer.head == shared.head && consumer.tail == shared.tail ==> producer.free()
            + consumer.filled() == shared.capacity,
{
}

} // verus!
