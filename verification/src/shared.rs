//! What the two endpoints have in common: the shared ownership of the ring,
//! and the cache-line padding that keeps its two indices apart.
//!
//! Each index is written by one thread and read by the other. Were both in
//! one cache line, every write of one would slow down the reads of the
//! other.
use cache_padded::CachePadded;
use std::ops::Deref;
use std::sync::atomic::AtomicUsize;
use std::sync::Arc;
use vstd::prelude::*;

verus! {

/// `cache_padded::CachePadded`: a value padded and aligned to the length of
/// a cache line. Nothing is stated of what it holds.
#[verifier::external_type_specification]
#[verifier::external_body]
#[verifier::reject_recursive_types(T)]
pub struct ExCachePadded<T>(CachePadded<T>);

/// `CachePadded::new` wraps the value it is given. No clause: the values
/// that this library pads are atomics, whose content has no model.
pub assume_specification<T>[ CachePadded::<T>::new ](t: T) -> CachePadded<T>;

/// `Deref::deref` of `CachePadded` lends the value inside. No clause, for
/// the same reason.
#[verifier::external_body]
pub(crate) fn index_cell(padded: &CachePadded<AtomicUsize>) -> &AtomicUsize {
    padded.deref()
}

/// `Clone::clone` of `Arc` makes one more owner of the same allocation: the
/// value behind the new pointer is the value behind the old one.
#[verifier::external_body]
pub(crate) fn share<T>(owner: &Arc<T>) -> (other: Arc<T>)
    ensures
        *other == **owner,
{
    owner.clone()
}

} // verus!
