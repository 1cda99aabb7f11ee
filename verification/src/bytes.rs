//! The queue as a pipe of bytes.
//!
//! A bulk write copies as many bytes into the queue as fit, a bulk read
//! copies out as many as there are. Neither waits: with no room, or with no
//! bytes, they report that zero slots were available.
use crate::consumer::Consumer;
use crate::error::ChunkError;
use crate::producer::Producer;
use crate::read_chunk::ReadChunk;
use crate::write_chunk::WriteChunkMaybeUninit;
use vstd::prelude::*;

verus! {

/// The number of bytes that a bulk transfer moves: all that were asked
/// for, or as many as the queue has slots available.
pub open spec fn transfer_len(asked: nat, available: nat) -> nat {
    if asked <= available {
        asked
    } else {
        available
    }
}

/// Copies the first bytes of `buf` into the slots of `chunk`, as many as
/// the chunk has, and commits them all.
fn fill_and_commit(mut chunk: WriteChunkMaybeUninit<'_, u8>, buf: &[u8]) -> (end: usize)
    requires
        chunk.wf(),
        chunk.slots().len() <= buf@.len(),
    ensures
        end == chunk.slots().len(),
        final(chunk.producer()).ring() == chunk.producer().ring(),
        final(chunk.producer())@ == chunk.producer()@.produce(end as nat),
        final(chunk.producer())@.wf(),
{
    let end = chunk.len();
    let (first, second) = chunk.as_mut_slices();
    let mid = first.len();
    let mut i: usize = 0;
    while i < mid
        invariant
            i <= mid <= end <= buf@.len(),
            first@.len() == mid,
            forall|k: int| 0 <= k < i ==> first@[k] == Some(buf@[k]),
        decreases mid - i,
    {
        first[i] = Some(buf[i]);
        i += 1;
    }
    let mut j: usize = 0;
    while j < end - mid
        invariant
            mid <= end <= buf@.len(),
            j <= end - mid,
            second@.len() == end - mid,
            forall|k: int| 0 <= k < j ==> second@[k] == Some(buf@[mid + k]),
        decreases end - mid - j,
    {
        second[j] = Some(buf[mid + j]);
        j += 1;
    }
    assert(chunk.slots().len() == end);
    assert forall|k: int| 0 <= k < end implies (#[trigger] chunk.slots()[k]) is Some by {
        if k < mid {
            assert(chunk.slots()[k] == first@[k]);
        } else {
            assert(chunk.slots()[k] == second@[k - mid]);
        }
    }
    chunk.commit_all();
    end
}

impl Producer<u8> {
    /// Writes the first bytes of `buf` into the queue, as many as there are
    /// free slots for, and returns their number.
    ///
    /// With no free slot and a `buf` that is not empty, nothing is written
    /// and the error tells that zero slots were available. The copy of
    /// `head` is brought up to date only if it shows too little room for
    /// all of `buf`.
    pub fn write(&mut self, buf: &[u8]) -> (written: Result<usize, ChunkError>)
        ensures
            final(self).ring() == old(self).ring(),
            ({
                let seen = final(self)@.with_tail(old(self)@.tail);
                &&& old(self)@.head_caught_up(seen)
                &&& buf@.len() <= old(self)@.free() ==> seen == old(self)@
                &&& match written {
                    Ok(n) => {
                        &&& n == transfer_len(buf@.len(), seen.free())
                        &&& n > 0 || buf@.len() == 0
                        &&& final(self)@ == seen.produce(n as nat)
                    },
                    Err(ChunkError::TooFewSlots(available)) => {
                        &&& available == 0
                        &&& buf@.len() > 0
                        &&& seen.free() == 0
                        &&& final(self)@ == seen
                    },
                }
            }),
            final(self)@.wf(),
    {
        let available = match self.write_chunk_maybe_uninit(buf.len()) {
            Ok(chunk) => {
                return Ok(fill_and_commit(chunk, buf));
            },
            Err(ChunkError::TooFewSlots(available)) => available,
        };
        if available == 0 {
            return Err(ChunkError::TooFewSlots(0));
        }
        match self.write_chunk_maybe_uninit(available) {
            Ok(chunk) => Ok(fill_and_commit(chunk, buf)),
            Err(e) => Err(e),
        }
    }
}

/// Copies the elements of `chunk` to the front of `buf` and commits them
/// all.
fn drain_and_commit(chunk: ReadChunk<'_, u8>, buf: &mut [u8]) -> (end: usize)
    requires
        chunk.wf(),
        chunk.spec_len() <= old(buf)@.len(),
    ensures
        end == chunk.spec_len(),
        final(buf)@.len() == old(buf)@.len(),
        final(buf)@.take(end as int) == chunk.elements(),
        final(buf)@.skip(end as int) == old(buf)@.skip(end as int),
        final(chunk.consumer()).ring() == chunk.consumer().ring(),
        final(chunk.consumer())@ == chunk.consumer()@.consume(end as nat),
        final(chunk.consumer())@.wf(),
        final(chunk.consumer()).staged() == chunk.consumer().staged().skip(end as int),
{
    let end = chunk.len();
    let (first, second) = chunk.as_slices();
    let mid = first.len();
    let mut i: usize = 0;
    while i < mid
        invariant
            i <= mid <= end <= buf@.len(),
            buf@.len() == old(buf)@.len(),
            first@.len() == mid,
            forall|k: int| 0 <= k < i ==> buf@[k] == first@[k],
            forall|k: int| i <= k < buf@.len() ==> buf@[k] == old(buf)@[k],
        decreases mid - i,
    {
        buf[i] = first[i];
        i += 1;
    }
    let mut j: usize = 0;
    while j < end - mid
        invariant
            mid <= end <= buf@.len(),
            j <= end - mid,
            buf@.len() == old(buf)@.len(),
            first@.len() == mid,
            second@.len() == end - mid,
            forall|k: int| 0 <= k < mid ==> buf@[k] == first@[k],
            forall|k: int| 0 <= k < j ==> buf@[mid + k] == second@[k],
            forall|k: int| mid + j <= k < buf@.len() ==> buf@[k] == old(buf)@[k],
        decreases end - mid - j,
    {
        buf[mid + j] = second[j];
        j += 1;
    }
    proof {
        assert forall|k: int| 0 <= k < end implies buf@.take(end as int)[k]
            == chunk.elements()[k] by {
            assert(chunk.elements() == first@ + second@);
            if k >= mid {
                assert(buf@[mid + (k - mid)] == second@[k - mid]);
            }
        }
        assert(buf@.take(end as int) =~= chunk.elements());
        assert(buf@.skip(end as int) =~= old(buf)@.skip(end as int));
    }
    chunk.commit_all();
    end
}

impl Consumer<u8> {
    /// Reads bytes from the queue into the front of `buf`, as many as there
    /// are and as `buf` has room for, and returns their number. The rest of
    /// `buf` is left as it was.
    ///
    /// With no byte in the queue and a `buf` that is not empty, nothing is
    /// read and the error tells that zero slots were available. The copy of
    /// `tail` is brought up to date only if it shows fewer bytes than `buf`
    /// has room for.
    ///
    /// The bytes that are staged already are read in any case, as far as
    /// `buf` has room: the read fails only if nothing was staged, and it
    /// never returns fewer bytes than were staged and fit.
    pub fn read(&mut self, buf: &mut [u8]) -> (read: Result<usize, ChunkError>)
        ensures
            final(self).ring() == old(self).ring(),
            final(buf)@.len() == old(buf)@.len(),
            ({
                let seen = final(self)@.with_head(old(self)@.head);
                &&& old(self)@.tail_caught_up(seen)
                &&& old(buf)@.len() <= old(self)@.filled() ==> seen == old(self)@
                &&& match read {
                    Ok(n) => {
                        &&& transfer_len(old(buf)@.len(), old(self).staged().len()) <= n
                        &&& n <= transfer_len(old(buf)@.len(), seen.filled())
                        &&& n > 0 || old(buf)@.len() == 0
                        &&& final(self)@ == seen.consume(n as nat)
                        &&& old(self).staged().is_prefix_of(
                            final(buf)@.take(n as int) + final(self).staged(),
                        )
                        &&& final(buf)@.skip(n as int) == old(buf)@.skip(n as int)
                    },
                    Err(ChunkError::TooFewSlots(available)) => {
                        &&& available == 0
                        &&& old(buf)@.len() > 0
                        &&& final(self)@ == seen
                        &&& old(self).staged().len() == 0
                        &&& final(self).staged().len() == 0
                        &&& final(buf)@ == old(buf)@
                    },
                }
            }),
            old(self).staged().len() > 0 || old(buf)@.len() == 0 ==> read is Ok,
            final(self)@.wf(),
    {
        proof {
            use_type_invariant(&*self);
        }
        let mut n = buf.len();
        loop
            invariant
                buf@ == old(buf)@,
                self.ring() == old(self).ring(),
                n <= buf@.len(),
                n > 0 || buf@.len() == 0,
                old(self)@.tail_caught_up(self@),
                buf@.len() <= old(self)@.filled() ==> self@ == old(self)@,
                old(self).staged().is_prefix_of(self.staged()),
                transfer_len(buf@.len(), old(self).staged().len()) <= n,
            decreases n,
        {
            match self.read_chunk(n) {
                Ok(chunk) => {
                    let ghost lent = chunk.consumer().staged();
                    let end = drain_and_commit(chunk, buf);
                    proof {
                        assert(buf@.take(end as int) + final(self).staged() =~= lent);
                    }
                    return Ok(end);
                },
                Err(ChunkError::TooFewSlots(available)) => {
                    if available == 0 {
                        return Err(ChunkError::TooFewSlots(0));
                    }
                    n = available;
                },
            }
        }
    }
}

} // verus!
