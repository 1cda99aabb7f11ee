//! One cell of the ring's storage.
//!
//! A slot is vacant or holds one element. The two endpoints reach the slots
//! through a shared reference, so what a slot holds is not a function of the
//! slot's value: an operation on it states nothing of the content it finds.
//! The positions tell the endpoints apart: a slot between `head` and `tail`
//! belongs to the consumer, every other slot to the producer, and an
//! endpoint only touches its own. The lock around the content is therefore
//! free whenever an endpoint asks for it.
use std::ops::DerefMut;
use std::sync::{Mutex, MutexGuard};
use vstd::prelude::*;

verus! {

/// `std::sync::Mutex`: a value behind a lock. Nothing is stated of what it
/// holds.
#[verifier::external_type_specification]
#[verifier::external_body]
#[verifier::reject_recursive_types(T)]
pub struct ExMutex<T: ?Sized>(Mutex<T>);

/// `std::sync::MutexGuard`: the right to reach the value behind a lock,
/// which ends when the guard is dropped. Nothing is stated of the value.
#[verifier::external_type_specification]
#[verifier::external_body]
#[verifier::reject_recursive_types(T)]
pub struct ExMutexGuard<'a, T: ?Sized + 'a>(MutexGuard<'a, T>);

/// `Mutex::new` makes an unlocked mutex around the value it is given. No
/// clause: the content of a mutex has no model.
pub assume_specification<T>[ Mutex::<T>::new ](t: T) -> Mutex<T>;

/// `Mutex::lock` waits until the lock is free and takes it. A lock that was
/// poisoned is taken all the same. No clause: the guard tells nothing of
/// the content.
///
/// `lock` does not return to a thread that holds the lock already. The two
/// functions of [`Slot`] are the only ones to take a lock, and both give it
/// up before they return.
#[verifier::external_body]
fn lock<T>(cell: &Mutex<Option<T>>) -> MutexGuard<'_, Option<T>> {
    match cell.lock() {
        Ok(guard) => guard,
        Err(poisoned) => poisoned.into_inner(),
    }
}

/// `DerefMut::deref_mut` of `MutexGuard` lends the value behind the lock.
/// No clause: what is found there depends on what the other thread did.
#[verifier::external_body]
fn content<'a, T>(guard: &'a mut MutexGuard<'_, Option<T>>) -> &'a mut Option<T> {
    guard.deref_mut()
}

/// A cell that is vacant or holds one element.
#[verifier::reject_recursive_types(T)]
#[derive(Debug)]
pub(crate) struct Slot<T> {
    cell: Mutex<Option<T>>,
}

impl<T> Slot<T> {
    /// A vacant slot.
    pub(crate) fn new() -> Slot<T> {
        Slot { cell: Mutex::new(None) }
    }

    /// Stores `value` and hands back what the slot held before.
    pub(crate) fn put(&self, value: T) -> Option<T> {
        let mut guard = lock(&self.cell);
        let content = content(&mut guard);
        let former = exchange(content, Some(value));
        // The lock is given up here, before the caller drops what was held.
        former
    }

    /// Vacates the slot and hands back what it held.
    pub(crate) fn take(&self) -> Option<T> {
        let mut guard = lock(&self.cell);
        exchange(content(&mut guard), None)
    }
}

/// Puts `replacement` where `content` is and hands back what was there.
///
/// This is all that is ever done with the content of a slot once its lock
/// is taken.
fn exchange<T>(content: &mut Option<T>, replacement: Option<T>) -> (former: Option<T>)
    ensures
        former == *old(content),
        *final(content) == replacement,
{
    let former = content.take();
    *content = replacement;
    former
}

} // verus!
