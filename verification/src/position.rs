//! Arithmetic on the positions of a ring.
//!
//! A ring of `capacity` slots numbers its positions `0 .. 2 * capacity`. The
//! doubled range tells a full ring from an empty one without giving up a
//! slot: two equal positions bound an empty stretch, two positions that lie
//! `capacity` apart bound a full one.
use vstd::arithmetic::div_mod::{lemma_mod_add_multiples_vanish, lemma_small_mod};
use vstd::prelude::*;

verus! {

/// Whether `pos` is a position of a ring of `capacity` slots. A ring
/// without slots has the single position `0`.
pub open spec fn is_position(capacity: nat, pos: nat) -> bool {
    pos == 0 || pos < 2 * capacity
}

/// The slot that position `pos` stands for.
pub open spec fn collapse(capacity: nat, pos: nat) -> nat {
    if pos < capacity {
        pos
    } else {
        (pos - capacity) as nat
    }
}

/// The position `n` slots after `pos`, wrapping at the end of the doubled
/// range.
pub open spec fn advance(capacity: nat, pos: nat, n: nat) -> nat {
    if pos + n < 2 * capacity {
        pos + n
    } else {
        (pos + n - 2 * capacity) as nat
    }
}

/// The number of slots from position `a` forward to position `b`.
pub open spec fn slots_between(capacity: nat, a: nat, b: nat) -> nat {
    if a <= b {
        (b - a) as nat
    } else {
        (2 * capacity - a + b) as nat
    }
}

/// Of a chunk of `n` slots that starts at position `pos`, the number that
/// lie before the end of the storage. The rest of the chunk starts over at
/// slot `0`.
pub open spec fn first_stretch(capacity: nat, pos: nat, n: nat) -> nat {
    if n <= capacity - collapse(capacity, pos) {
        n
    } else {
        (capacity - collapse(capacity, pos)) as nat
    }
}

/// Wraps a position from the range `0 .. 2 * capacity` to `0 .. capacity`.
pub fn collapse_position(capacity: usize, pos: usize) -> (slot: usize)
    requires
        is_position(capacity as nat, pos as nat),
    ensures
        slot == collapse(capacity as nat, pos as nat),
        capacity > 0 ==> slot < capacity,
{
    if pos < capacity {
        pos
    } else {
        pos - capacity
    }
}

/// Increments a position by going `n` slots forward.
pub fn increment(capacity: usize, pos: usize, n: usize) -> (next: usize)
    requires
        2 * capacity <= usize::MAX,
        is_position(capacity as nat, pos as nat),
        n <= capacity,
    ensures
        next == advance(capacity as nat, pos as nat, n as nat),
        is_position(capacity as nat, next as nat),
{
    let threshold: usize = 2 * capacity - n;
    if pos < threshold {
        pos + n
    } else {
        pos - threshold
    }
}

/// Increments a position by going one slot forward.
pub fn increment1(capacity: usize, pos: usize) -> (next: usize)
    requires
        2 * capacity <= usize::MAX,
        capacity > 0,
        pos < 2 * capacity,
    ensures
        next == advance(capacity as nat, pos as nat, 1),
        next < 2 * capacity,
{
    if pos < 2 * capacity - 1 {
        pos + 1
    } else {
        0
    }
}

/// Returns the distance between two positions.
pub fn distance(capacity: usize, a: usize, b: usize) -> (d: usize)
    requires
        2 * capacity <= usize::MAX,
        is_position(capacity as nat, a as nat),
        is_position(capacity as nat, b as nat),
    ensures
        d == slots_between(capacity as nat, a as nat, b as nat),
        d <= 2 * capacity,
{
    if a <= b {
        b - a
    } else {
        2 * capacity - a + b
    }
}

/// Splits a chunk of `n` slots that starts at position `pos` where the
/// storage ends: the length of the part up to the end, and the length of the
/// part that starts over at slot `0`.
pub fn split_lengths(capacity: usize, pos: usize, n: usize) -> (lengths: (usize, usize))
    requires
        is_position(capacity as nat, pos as nat),
        n <= capacity,
    ensures
        lengths.0 == first_stretch(capacity as nat, pos as nat, n as nat),
        lengths.0 + lengths.1 == n,
        n > 0 ==> lengths.0 > 0,
{
    let start = collapse_position(capacity, pos);
    let to_end = capacity - start;
    let first_len = if n <= to_end {
        n
    } else {
        to_end
    };
    (first_len, n - first_len)
}

/// The arithmetic of positions is arithmetic modulo twice the capacity, and
/// the slot of a position is the position modulo the capacity.
pub proof fn lemma_positions_are_modular(capacity: nat, a: nat, b: nat, n: nat)
    requires
        a < 2 * capacity,
        b < 2 * capacity,
        n < 2 * capacity,
    ensures
        collapse(capacity, a) == a % capacity,
        advance(capacity, a, n) == (a + n) % (2 * capacity),
        slots_between(capacity, a, b) == (b - a) % (2 * capacity as int),
{
    let c = capacity as int;
    if a < capacity {
        lemma_small_mod(a, capacity);
    } else {
        lemma_small_mod((a - capacity) as nat, capacity);
        lemma_mod_add_multiples_vanish(a - c, c);
    }
    if a + n < 2 * capacity {
        lemma_small_mod(a + n, 2 * capacity);
    } else {
        lemma_small_mod((a + n - 2 * capacity) as nat, 2 * capacity);
        lemma_mod_add_multiples_vanish(a + n - 2 * c, 2 * c);
    }
    if a <= b {
        lemma_small_mod((b - a) as nat, 2 * capacity);
    } else {
        lemma_small_mod((2 * capacity - a + b) as nat, 2 * capacity);
        lemma_mod_add_multiples_vanish(b - a, 2 * c);
    }
}

/// Going `n` slots forward from a position leads `n` slots away from it,
/// and to the slot that lies `n` slots, counted round the storage, behind
/// the slot of the position.
pub proof fn lemma_advance(capacity: nat, pos: nat, n: nat)
    requires
        is_position(capacity, pos),
        n <= capacity,
    ensures
        is_position(capacity, advance(capacity, pos, n)),
        slots_between(capacity, pos, advance(capacity, pos, n)) == n,
        advance(capacity, advance(capacity, pos, n), (capacity - n) as nat) == advance(
            capacity,
            pos,
            capacity,
        ),
        collapse(capacity, advance(capacity, pos, capacity)) == collapse(capacity, pos),
        advance(capacity, advance(capacity, pos, capacity), capacity) == pos,
{
}

} // verus!
