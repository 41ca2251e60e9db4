//! The reader-writer lock of the standard library, as far as a cell uses it.
//!
//! Nothing in this module is proved: it says what the rest of the crate takes
//! for granted about `std::sync::RwLock`. What a lock holds is not visible to
//! the verifier, so no contract here speaks of it; what is known of a value
//! that comes out of a lock is what is known of every value of its type.

use vstd::prelude::*;
use std::sync::{RwLock, RwLockReadGuard, RwLockWriteGuard, TryLockError};
use crate::error::PatchError;

verus! {

/// `std::sync::RwLock`: many readers or one writer at a time.
#[verifier::external_type_specification]
#[verifier::external_body]
#[verifier::reject_recursive_types(T)]
pub struct StdRwLock<T: ?Sized>(std::sync::RwLock<T>);

/// `std::sync::RwLockReadGuard`: shared access, given up when dropped.
#[verifier::external_type_specification]
#[verifier::external_body]
#[verifier::reject_recursive_types(T)]
pub struct StdReadGuard<'a, T: ?Sized>(std::sync::RwLockReadGuard<'a, T>);

/// `std::sync::RwLockWriteGuard`: exclusive access, given up when dropped.
#[verifier::external_type_specification]
#[verifier::external_body]
#[verifier::reject_recursive_types(T)]
pub struct StdWriteGuard<'a, T: ?Sized + 'a>(std::sync::RwLockWriteGuard<'a, T>);

/// Calls `RwLock::new`: a lock that holds `value`.
#[verifier::external_body]
pub(crate) fn new_lock<T>(value: T) -> (lock: RwLock<T>) {
    RwLock::new(value)
}

/// Calls `RwLock::read`, which waits until no writer holds the lock. It
/// fails only on a poisoned lock. A thread that already holds the lock for
/// writing may wait forever or panic.
#[verifier::external_body]
pub(crate) fn read_lock<'a, T>(lock: &'a RwLock<T>) -> (guard: Result<
    RwLockReadGuard<'a, T>,
    PatchError,
>)
    ensures
        guard matches Err(e) ==> e == PatchError::LockPoisoned,
{
    match lock.read() {
        Ok(guard) => Ok(guard),
        Err(_) => Err(PatchError::LockPoisoned),
    }
}

/// Calls `RwLock::write`, which waits until nobody else holds the lock. It
/// fails only on a poisoned lock. A thread that already holds the lock may
/// wait forever or panic.
#[verifier::external_body]
pub(crate) fn write_lock<'a, T>(lock: &'a RwLock<T>) -> (guard: Result<
    RwLockWriteGuard<'a, T>,
    PatchError,
>)
    ensures
        guard matches Err(e) ==> e == PatchError::LockPoisoned,
{
    match lock.write() {
        Ok(guard) => Ok(guard),
        Err(_) => Err(PatchError::LockPoisoned),
    }
}

/// Calls `RwLock::try_write`, which never waits. It fails on a poisoned
/// lock and on one that is held by anybody.
#[verifier::external_body]
pub(crate) fn try_write_lock<'a, T>(lock: &'a RwLock<T>) -> (guard: Result<
    RwLockWriteGuard<'a, T>,
    PatchError,
>)
    ensures
        guard matches Err(e) ==> e == PatchError::LockPoisoned || e == PatchError::LockBusy,
{
    match lock.try_write() {
        Ok(guard) => Ok(guard),
        Err(TryLockError::Poisoned(_)) => Err(PatchError::LockPoisoned),
        Err(TryLockError::WouldBlock) => Err(PatchError::LockBusy),
    }
}

/// Calls `RwLock::get_mut`, which takes no lock: the exclusive borrow shows
/// that nobody else has access. It fails only on a poisoned lock.
#[verifier::external_body]
pub(crate) fn exclusive<'a, T>(lock: &'a mut RwLock<T>) -> (value: Result<&'a mut T, PatchError>)
    ensures
        value matches Err(e) ==> e == PatchError::LockPoisoned,
{
    match lock.get_mut() {
        Ok(value) => Ok(value),
        Err(_) => Err(PatchError::LockPoisoned),
    }
}

/// Dereferences a read guard: the value that the lock holds.
#[verifier::external_body]
pub(crate) fn shared_value<'a, 'b, T>(guard: &'b RwLockReadGuard<'a, T>) -> (value: &'b T) {
    &**guard
}

/// Dereferences a write guard: the value that the lock holds, open to
/// change.
#[verifier::external_body]
pub(crate) fn guarded_value<'a, 'b, T>(guard: &'b mut RwLockWriteGuard<'a, T>) -> (value:
    &'b mut T) {
    &mut **guard
}

} // verus!
