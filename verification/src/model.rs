//! The queue as a single value: the slots together with the two indices.
//!
//! The endpoints never see the ring like this. Each works on its own side
//! and hands slots over by moving its index. Taken one step at a time,
//! though, every push and every pop is a step of this model, whichever
//! thread makes it: a push fills the slot at `tail` and moves `tail`, a pop
//! vacates the slot at `head` and moves `head`. What holds of every run of
//! such steps holds of every interleaving of the two endpoints.
//!
//! The model and the endpoints are tied by the indices alone. A step moves
//! the indices of the ring by the functions that the contracts of the
//! endpoints are stated with, and an endpoint that has looked at the index
//! of the other side works with the indices of the ring. What the slots
//! hold is stated here and nowhere else: no contract of an endpoint can
//! name it.
use crate::indices::Indices;
use crate::position::{advance, collapse};
use vstd::prelude::*;

verus! {

/// The slot of the element that lies `offset` elements behind `head`.
pub open spec fn slot_at(i: Indices, offset: nat) -> nat {
    collapse(i.capacity, advance(i.capacity, i.head, offset))
}

/// The number of slots from the slot of `head` forward to `slot`.
pub open spec fn offset_of(i: Indices, slot: nat) -> nat {
    let first = collapse(i.capacity, i.head);
    if slot >= first {
        (slot - first) as nat
    } else {
        (slot + i.capacity - first) as nat
    }
}

/// The indices of a ring and what each of its slots holds.
pub struct Ring<T> {
    pub indices: Indices,
    pub slots: Seq<Option<T>>,
}

/// One attempt of an endpoint: to push a value, or to pop one.
pub enum Step<T> {
    Push(T),
    Pop,
}

/// What a run of steps has come to: the ring, the values whose push
/// succeeded and the values that the pops returned, each in the order of
/// the steps.
pub struct Run<T> {
    pub ring: Ring<T>,
    pub pushed: Seq<T>,
    pub popped: Seq<T>,
}

impl<T> Ring<T> {
    /// The ring with `capacity` vacant slots.
    pub open spec fn empty(capacity: nat) -> Ring<T> {
        Ring {
            indices: Indices { capacity, head: 0, tail: 0 },
            slots: Seq::new(capacity, |s: int| None),
        }
    }

    /// The slots from `head` up to `tail` hold an element each, and every
    /// other slot is vacant.
    pub open spec fn wf(self) -> bool {
        &&& self.indices.wf()
        &&& self.slots.len() == self.indices.capacity
        &&& forall|s: int|
            0 <= s < self.slots.len() ==> ((#[trigger] self.slots[s]) is Some <==> offset_of(
                self.indices,
                s as nat,
            ) < self.indices.filled())
    }

    /// The elements in the queue, oldest first.
    pub open spec fn contents(self) -> Seq<T> {
        Seq::new(
            self.indices.filled(),
            |j: int| self.slots[slot_at(self.indices, j as nat) as int]->0,
        )
    }

    /// The ring after `value` was written to the slot at `tail` and `tail`
    /// has moved past it.
    pub open spec fn push(self, value: T) -> Ring<T> {
        Ring {
            indices: self.indices.produce(1),
            slots: self.slots.update(
                collapse(self.indices.capacity, self.indices.tail) as int,
                Some(value),
            ),
        }
    }

    /// The element in the slot at `head`.
    pub open spec fn front(self) -> T {
        self.slots[collapse(self.indices.capacity, self.indices.head) as int]->0
    }

    /// The ring after the slot at `head` was vacated and `head` has moved
    /// past it.
    pub open spec fn pop(self) -> Ring<T> {
        Ring {
            indices: self.indices.consume(1),
            slots: self.slots.update(
                collapse(self.indices.capacity, self.indices.head) as int,
                None,
            ),
        }
    }

    /// The ring after a write chunk that holds `values` was committed.
    pub open spec fn write(self, values: Seq<T>) -> Ring<T>
        decreases values.len(),
    {
        if values.len() == 0 {
            self
        } else {
            self.write(values.drop_last()).push(values.last())
        }
    }

    /// The ring after the first `n` slots of a read chunk were committed.
    pub open spec fn read(self, n: nat) -> Ring<T>
        decreases n,
    {
        if n == 0 {
            self
        } else {
            self.read((n - 1) as nat).pop()
        }
    }

    /// The ring after one step. A push on a full ring and a pop on an empty
    /// one fail and change nothing.
    pub open spec fn step(self, step: Step<T>) -> Ring<T> {
        match step {
            Step::Push(value) => if self.indices.is_full() {
                self
            } else {
                self.push(value)
            },
            Step::Pop => if self.indices.is_empty() {
                self
            } else {
                self.pop()
            },
        }
    }
}

impl<T> Run<T> {
    /// The run that has made no step yet on a ring of `capacity` slots.
    pub open spec fn start(capacity: nat) -> Run<T> {
        Run { ring: Ring::empty(capacity), pushed: Seq::empty(), popped: Seq::empty() }
    }

    /// The run after one more step.
    pub open spec fn with(self, step: Step<T>) -> Run<T> {
        match step {
            Step::Push(value) => if self.ring.indices.is_full() {
                self
            } else {
                Run { ring: self.ring.push(value), pushed: self.pushed.push(value), ..self }
            },
            Step::Pop => if self.ring.indices.is_empty() {
                self
            } else {
                Run { ring: self.ring.pop(), popped: self.popped.push(self.ring.front()), ..self }
            },
        }
    }

    /// The run after all of `steps`, first to last.
    pub open spec fn after(self, steps: Seq<Step<T>>) -> Run<T>
        decreases steps.len(),
    {
        if steps.len() == 0 {
            self
        } else {
            self.after(steps.drop_last()).with(steps.last())
        }
    }
}

/// The steps that push each of `values` in turn.
pub open spec fn pushes<T>(values: Seq<T>) -> Seq<Step<T>> {
    Seq::new(values.len(), |j: int| Step::Push(values[j]))
}

/// `n` pops.
pub open spec fn pops<T>(n: nat) -> Seq<Step<T>> {
    Seq::new(n, |j: int| Step::Pop)
}

/// The ring without elements is well formed and holds nothing.
pub proof fn lemma_empty<T>(capacity: nat)
    ensures
        Ring::<T>::empty(capacity).wf(),
        Ring::<T>::empty(capacity).contents() == Seq::<T>::empty(),
{
    assert(Ring::<T>::empty(capacity).contents() =~= Seq::<T>::empty());
}

/// A push on a ring that is not full writes to a vacant slot: it never
/// overwrites an element. The pushed value becomes the last element of the
/// queue and every other element stays where it is.
pub proof fn lemma_push<T>(ring: Ring<T>, value: T)
    requires
        ring.wf(),
        !ring.indices.is_full(),
    ensures
        ring.slots[collapse(ring.indices.capacity, ring.indices.tail) as int] is None,
        ring.push(value).wf(),
        ring.push(value).contents() == ring.contents().push(value),
{
    let i = ring.indices;
    let after = ring.push(value);
    let written = collapse(i.capacity, i.tail);
    assert(offset_of(i, written) == i.filled());
    assert forall|s: int| 0 <= s < after.slots.len() implies ((#[trigger] after.slots[s]) is Some
        <==> offset_of(after.indices, s as nat) < after.indices.filled()) by {
        if s != written {
            assert(after.slots[s] == ring.slots[s]);
        }
    }
    assert forall|j: int| 0 <= j < after.contents().len() implies after.contents()[j]
        == ring.contents().push(value)[j] by {
        if j < i.filled() {
            assert(slot_at(i, j as nat) != written) by {
                assert(offset_of(i, slot_at(i, j as nat)) == j);
            }
        }
    }
    assert(after.contents() =~= ring.contents().push(value));
}

/// A pop on a ring that is not empty reads a slot that holds an element: it
/// never reads a vacant slot. The element it takes is the oldest of the
/// queue and every other element stays where it is.
pub proof fn lemma_pop<T>(ring: Ring<T>)
    requires
        ring.wf(),
        !ring.indices.is_empty(),
    ensures
        ring.slots[collapse(ring.indices.capacity, ring.indices.head) as int] is Some,
        ring.front() == ring.contents()[0],
        ring.pop().wf(),
        ring.pop().contents() == ring.contents().drop_first(),
{
    let i = ring.indices;
    let after = ring.pop();
    let read = collapse(i.capacity, i.head);
    assert(offset_of(i, read) == 0);
    assert forall|s: int| 0 <= s < after.slots.len() implies ((#[trigger] after.slots[s]) is Some
        <==> offset_of(after.indices, s as nat) < after.indices.filled()) by {
        if s != read {
            assert(after.slots[s] == ring.slots[s]);
        }
    }
    assert forall|j: int| 0 <= j < after.contents().len() implies after.contents()[j]
        == ring.contents().drop_first()[j] by {
        assert(slot_at(after.indices, j as nat) == slot_at(i, (j + 1) as nat));
        assert(slot_at(i, (j + 1) as nat) != read) by {
            assert(offset_of(i, slot_at(i, (j + 1) as nat)) == j + 1);
        }
    }
    assert(after.contents() =~= ring.contents().drop_first());
}

/// A step moves the indices of the ring as the endpoint that makes the step
/// moves its own: a push that finds room moves `tail` by one slot, a pop
/// that finds an element moves `head` by one slot, and a step that fails
/// moves nothing.
pub proof fn lemma_step_indices<T>(ring: Ring<T>, step: Step<T>)
    ensures
        ring.step(step).indices == match step {
            Step::Push(_) => if ring.indices.is_full() {
                ring.indices
            } else {
                ring.indices.produce(1)
            },
            Step::Pop => if ring.indices.is_empty() {
                ring.indices
            } else {
                ring.indices.consume(1)
            },
        },
{
}

/// Every step keeps the ring well formed, and what was popped so far,
/// followed by what the ring holds, is what was pushed so far.
pub proof fn lemma_with<T>(run: Run<T>, step: Step<T>)
    requires
        run.ring.wf(),
        run.popped + run.ring.contents() == run.pushed,
    ensures
        run.with(step).ring.wf(),
        run.with(step).popped + run.with(step).ring.contents() == run.with(step).pushed,
        run.with(step).ring == run.ring.step(step),
        run.with(step).ring.indices.capacity == run.ring.indices.capacity,
{
    let next = run.with(step);
    match step {
        Step::Push(value) => {
            if !run.ring.indices.is_full() {
                lemma_push(run.ring, value);
                assert(next.popped + next.ring.contents() =~= next.pushed);
            }
        },
        Step::Pop => {
            if !run.ring.indices.is_empty() {
                lemma_pop(run.ring);
                assert(next.popped + next.ring.contents() =~= next.pushed);
            }
        },
    }
}

/// First in, first out, nothing lost and nothing twice: after any run of
/// pushes and pops on a ring that started empty, the values popped are the
/// first of the values pushed, in the same order, and the ring holds the
/// rest.
pub proof fn lemma_first_in_first_out<T>(capacity: nat, steps: Seq<Step<T>>)
    ensures
        Run::<T>::start(capacity).after(steps).ring.wf(),
        Run::<T>::start(capacity).after(steps).ring.indices.capacity == capacity,
        Run::<T>::start(capacity).after(steps).popped + Run::<T>::start(capacity).after(
            steps,
        ).ring.contents() == Run::<T>::start(capacity).after(steps).pushed,
        Run::<T>::start(capacity).after(steps).popped.is_prefix_of(
            Run::<T>::start(capacity).after(steps).pushed,
        ),
    decreases steps.len(),
{
    let start = Run::<T>::start(capacity);
    if steps.len() == 0 {
        lemma_empty::<T>(capacity);
        assert(start.popped + start.ring.contents() =~= start.pushed);
    } else {
        lemma_first_in_first_out(capacity, steps.drop_last());
        lemma_with(start.after(steps.drop_last()), steps.last());
    }
    let end = start.after(steps);
    assert(end.popped.is_prefix_of(end.pushed)) by {
        assert(end.pushed.subrange(0, end.popped.len() as int) =~= end.popped);
    }
}

/// As many pushes as the ring has room for all succeed: the ring then holds
/// the pushed values in their order.
pub proof fn lemma_pushes<T>(capacity: nat, values: Seq<T>)
    requires
        values.len() <= capacity,
    ensures
        Run::<T>::start(capacity).after(pushes(values)).ring.wf(),
        Run::<T>::start(capacity).after(pushes(values)).ring.indices.capacity == capacity,
        Run::<T>::start(capacity).after(pushes(values)).pushed == values,
        Run::<T>::start(capacity).after(pushes(values)).popped == Seq::<T>::empty(),
        Run::<T>::start(capacity).after(pushes(values)).ring.contents() == values,
    decreases values.len(),
{
    let start = Run::<T>::start(capacity);
    if values.len() == 0 {
        lemma_empty::<T>(capacity);
        assert(start.pushed =~= values);
        assert(start.ring.contents() =~= values);
    } else {
        let fewer = values.drop_last();
        lemma_pushes(capacity, fewer);
        assert(pushes(values).drop_last() =~= pushes(fewer));
        let before = start.after(pushes(fewer));
        assert(before.ring.indices.filled() == before.ring.contents().len());
        assert(before.popped + before.ring.contents() =~= before.pushed);
        lemma_with(before, pushes(values).last());
        assert(pushes(values).last() == Step::Push(values.last()));
        assert(before.ring.contents().len() == fewer.len());
        assert(fewer.len() < capacity);
        assert(before.ring.indices.capacity == capacity);
        assert(!before.ring.indices.is_full());
        let end = start.after(pushes(values));
        assert(end == before.with(pushes(values).last()));
        assert(fewer.push(values.last()) =~= values);
        assert(end.pushed == values);
        assert(end.popped + end.ring.contents() == end.pushed);
        assert(end.ring.contents() =~= values);
    }
}

/// As many pops as the ring holds elements all succeed: they return the
/// elements in queue order and leave the rest.
pub proof fn lemma_pops<T>(run: Run<T>, n: nat)
    requires
        run.ring.wf(),
        n <= run.ring.indices.filled(),
    ensures
        run.after(pops(n)).ring.wf(),
        run.after(pops(n)).ring.indices.capacity == run.ring.indices.capacity,
        run.after(pops(n)).pushed == run.pushed,
        run.after(pops(n)).popped == run.popped + run.ring.contents().take(n as int),
        run.after(pops(n)).ring.contents() == run.ring.contents().skip(n as int),
    decreases n,
{
    if n == 0 {
        assert(run.popped + run.ring.contents().take(0) =~= run.popped);
        assert(run.ring.contents().skip(0) =~= run.ring.contents());
    } else {
        let fewer = (n - 1) as nat;
        lemma_pops(run, fewer);
        assert(pops::<T>(n).drop_last() =~= pops::<T>(fewer));
        let before = run.after(pops(fewer));
        assert(before.ring.indices.filled() == before.ring.contents().len());
        lemma_pop(before.ring);
        assert(run.after(pops(n)).popped =~= run.popped + run.ring.contents().take(n as int));
        assert(run.after(pops(n)).ring.contents() =~= run.ring.contents().skip(n as int));
    }
}

/// Round trip: values pushed into an empty ring that has room for them all
/// come out of as many pops unchanged and in order, and the ring is empty
/// again.
pub proof fn lemma_round_trip<T>(capacity: nat, values: Seq<T>)
    requires
        values.len() <= capacity,
    ensures
        Run::<T>::start(capacity).after(pushes(values)).after(pops(values.len())).popped
            == values,
        Run::<T>::start(capacity).after(pushes(values)).after(
            pops(values.len()),
        ).ring.indices.is_empty(),
{
    let filled = Run::<T>::start(capacity).after(pushes(values));
    lemma_pushes(capacity, values);
    assert(filled.ring.indices.filled() == filled.ring.contents().len());
    lemma_pops(filled, values.len());
    let drained = filled.after(pops(values.len()));
    assert(drained.popped =~= values);
    assert(drained.ring.indices.filled() == drained.ring.contents().len());
}

/// The commit of a write chunk that fits into the free slots moves `tail`
/// forward by exactly the number of its slots and puts its values behind
/// the elements of the queue, in their order. A commit of no slots changes
/// nothing.
pub proof fn lemma_write<T>(ring: Ring<T>, values: Seq<T>)
    requires
        ring.wf(),
        values.len() <= ring.indices.free(),
    ensures
        ring.write(values).wf(),
        ring.write(values).indices == ring.indices.produce(values.len()),
        ring.write(values).contents() == ring.contents() + values,
        values.len() == 0 ==> ring.write(values) == ring,
    decreases values.len(),
{
    if values.len() == 0 {
        assert(ring.contents() + values =~= ring.contents());
    } else {
        let fewer = values.drop_last();
        lemma_write(ring, fewer);
        lemma_push(ring.write(fewer), values.last());
        assert(ring.write(values).contents() =~= ring.contents() + values);
    }
}

/// The commit of the first `n` slots of a read chunk moves `head` forward
/// by exactly `n` slots and takes the `n` oldest elements out of the queue.
/// A commit of no slots changes nothing.
pub proof fn lemma_read<T>(ring: Ring<T>, n: nat)
    requires
        ring.wf(),
        n <= ring.indices.filled(),
    ensures
        ring.read(n).wf(),
        ring.read(n).indices == ring.indices.consume(n),
        ring.read(n).contents() == ring.contents().skip(n as int),
        n == 0 ==> ring.read(n) == ring,
    decreases n,
{
    if n == 0 {
        assert(ring.contents().skip(0) =~= ring.contents());
    } else {
        lemma_read(ring, (n - 1) as nat);
        lemma_pop(ring.read((n - 1) as nat));
        assert(ring.read(n).contents() =~= ring.contents().skip(n as int));
    }
}

/// The slot that the consumer turns to next holds the element that comes
/// next in the queue.
///
/// The consumer stages the elements at the front of the queue one by one.
/// With `staged` of them staged, it takes the content of the slot that lies
/// as many slots behind `head`. In a well-formed ring that slot holds an
/// element, the one that follows the staged elements in the queue: what is
/// staged, and so what is popped, peeked at or lent by a read chunk, is the
/// front of the queue in its order.
pub proof fn lemma_staged_is_front<T>(ring: Ring<T>, staged: Seq<T>)
    requires
        ring.wf(),
        staged.is_prefix_of(ring.contents()),
        staged.len() < ring.indices.filled(),
    ensures
        ring.slots[slot_at(ring.indices, staged.len()) as int] is Some,
        staged.push(ring.slots[slot_at(ring.indices, staged.len()) as int]->0).is_prefix_of(
            ring.contents(),
        ),
{
    let next = slot_at(ring.indices, staged.len());
    assert(offset_of(ring.indices, next) == staged.len());
    let longer = staged.push(ring.slots[next as int]->0);
    assert(ring.contents()[staged.len() as int] == ring.slots[next as int]->0);
    assert forall|k: int| 0 <= k < longer.len() implies longer[k] == ring.contents()[k] by {
        if k < staged.len() {
            assert(staged[k] == ring.contents()[k]);
        }
    }
    assert(longer =~= ring.contents().subrange(0, longer.len() as int));
}

} // verus!
