//! A bounded single-producer single-consumer queue for realtime use.
//!
//! A [`RingBuffer`] is split into a [`Producer`], which writes, and a
//! [`Consumer`], which reads. The two may live on different threads. Every
//! operation returns at once: a push on a full queue and a pop on an empty
//! one fail by value, and nothing in the queue is ever overwritten.
//!
//! All memory is taken when the queue is made and split: the slots, the
//! memory that the producer's write chunks work in and the staging area of
//! the consumer. No operation asks for more.
//!
//! # How it works
//!
//! The queue has two indices, `head` and `tail`, that run through the
//! positions `0 .. 2 * capacity` ([`position`]). The slots from `head` up
//! to `tail` hold the elements, oldest first. The producer alone moves
//! `tail`, the consumer alone moves `head`, and each keeps a copy of the
//! other's index that it brings up to date only when the copy does not
//! show what it needs ([`indices`]). A value read from the other side's
//! index is taken for the copy only if it is a position that the index can
//! have reached: a copy never runs ahead, whatever was read.
//!
//! Several slots are written or read in one go through a chunk
//! ([`write_chunk`], [`read_chunk`]). A chunk changes nothing in the queue
//! until it is committed, and a commit hands over all of its slots with one
//! store of the index. A queue of bytes can be used as a pipe ([`bytes`]).
//!
//! # What is proved
//!
//! Every function is verified against a contract over the indices of its
//! endpoint. The contracts state when an operation succeeds, where it
//! leaves the indices, and what the staging area of the consumer holds.
//! [`indices`] proves what follows for the counts that the endpoints
//! report.
//!
//! What a slot holds is reached through a shared reference, from two
//! threads, and is no function of anything that a contract can name. The
//! contracts are therefore silent on the elements that pass through the
//! slots. [`model`] describes the queue as a single value, slots and
//! indices together, on which every push and pop is one step, and proves
//! for every run of such steps that the elements come out in the order
//! they went in, none lost and none twice, that no push overwrites an
//! element and that no pop reads a vacant slot.
pub mod bytes;
pub mod consumer;
pub mod error;
pub mod indices;
pub mod model;
pub mod position;
pub mod producer;
pub mod read_chunk;
pub mod ring;
mod shared;
mod slot;
pub mod write_chunk;

pub use consumer::Consumer;
pub use error::{ChunkError, PeekError, PopError, PushError};
pub use producer::Producer;
pub use read_chunk::ReadChunk;
pub use ring::RingBuffer;
pub use write_chunk::{WriteChunk, WriteChunkMaybeUninit};
