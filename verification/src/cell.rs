//! A reference-counted, mutex-guarded shared cell.
//!
//! Any number of handles refer to the same slot; mutation requires holding
//! the scoped lock guard, and at most one guard exists at a time. While a
//! guard is held, no other context can touch the value, so the guard carries
//! the cell's value as its view and reads and writes are exact against it.
//! A holder that fails while holding the lock poisons it, and later
//! acquisitions are refused with [`CoordError::LockPoisoned`].

use vstd::pervasive::arbitrary;
use vstd::prelude::*;

use crate::errors::CoordError;

verus! {

/// One handle on a shared mutex-guarded slot.
///
/// The cell itself has no view: between lock acquisitions other handles may
/// change the value, so nothing about it can be stated here. The value is
/// spoken of through the guard that [`SharedCell::lock`] returns.
#[verifier::external_body]
#[verifier::reject_recursive_types(T)]
pub struct SharedCell<T> {
    inner: std::sync::Arc<std::sync::Mutex<T>>,
}

/// The raw exclusive-access token; opaque.
#[verifier::external_body]
#[verifier::reject_recursive_types(T)]
struct RawGuard<'a, T> {
    inner: std::sync::MutexGuard<'a, T>,
}

/// Scoped exclusive access to the cell's value.
///
/// The guard's view is the value currently stored in the cell; mutual
/// exclusion makes that exact for the whole time the guard is held. The lock
/// is released when the guard is dropped, on every exit path. Right after
/// acquisition the view is unconstrained, since another handle may have
/// changed the value before this acquisition; [`ScopedGuard::get`] observes
/// it.
#[verifier::reject_recursive_types(T)]
pub struct ScopedGuard<'a, T> {
    raw: RawGuard<'a, T>,
    snapshot: Ghost<T>,
}

impl<'a, T> View for ScopedGuard<'a, T> {
    type V = T;

    closed spec fn view(&self) -> T {
        self.snapshot@
    }
}

impl<T> SharedCell<T> {
    /// Relies on std::sync::Arc and std::sync::Mutex: a fresh shared slot
    /// holding `value`, not yet aliased and not poisoned.
    #[verifier::external_body]
    pub fn new(value: T) -> SharedCell<T> {
        SharedCell { inner: std::sync::Arc::new(std::sync::Mutex::new(value)) }
    }

    /// Relies on std::sync::Arc::clone: another handle on the same slot; the
    /// slot lives until the last handle is dropped.
    #[verifier::external_body]
    pub fn clone_handle(&self) -> SharedCell<T> {
        SharedCell { inner: std::sync::Arc::clone(&self.inner) }
    }

    /// Relies on std::sync::Mutex::lock: blocks until exclusive access is
    /// granted, and refuses with an error exactly when a prior holder failed
    /// while holding the lock.
    #[verifier::external_body]
    fn lock_raw<'a>(&'a self) -> (r: Result<RawGuard<'a, T>, CoordError>)
        ensures
            r matches Err(e) ==> e == CoordError::LockPoisoned,
    {
        match self.inner.lock() {
            Ok(g) => Ok(RawGuard { inner: g }),
            Err(_) => Err(CoordError::LockPoisoned),
        }
    }

    /// Acquires scoped exclusive access, blocking while another context
    /// holds it.
    ///
    /// The only possible failure is [`CoordError::LockPoisoned`], raised
    /// exactly when a prior holder failed inside its critical section. The
    /// returned guard's view starts out unknown: it is whatever the slot
    /// held at acquisition.
    pub fn lock<'a>(&'a self) -> (r: Result<ScopedGuard<'a, T>, CoordError>)
        ensures
            r matches Err(e) ==> e == CoordError::LockPoisoned,
    {
        match self.lock_raw() {
            // The contract says nothing about the fresh guard's view, so the
            // ghost snapshot is unconstrained here; the accessors pin every
            // later read and write to it.
            Ok(raw) => Ok(ScopedGuard { raw, snapshot: Ghost(arbitrary()) }),
            Err(e) => Err(e),
        }
    }
}

impl<'a, T: Copy> ScopedGuard<'a, T> {
    /// Relies on std::sync::MutexGuard's exclusive access: while the guard
    /// is held nothing else touches the slot, so reading through the guard
    /// returns exactly the guard's view.
    #[verifier::external_body]
    pub fn get(&self) -> (r: T)
        ensures
            r == self@,
    {
        *self.raw.inner
    }
}

impl<'a, T> ScopedGuard<'a, T> {
    /// Relies on std::sync::MutexGuard's exclusive access: stores `value` in
    /// the slot, which nothing else can observe or disturb until the guard
    /// is released.
    #[verifier::external_body]
    pub fn set(&mut self, value: T)
        ensures
            final(self)@ == value,
    {
        *self.raw.inner = value;
    }

    /// Relies on std::mem::replace through std::sync::MutexGuard's exclusive
    /// access: swaps `value` into the slot and hands the previous value out.
    #[verifier::external_body]
    pub fn replace(&mut self, value: T) -> (prev: T)
        ensures
            prev == old(self)@,
            final(self)@ == value,
    {
        std::mem::replace(&mut *self.raw.inner, value)
    }
}

/// Adds one to a guarded counter, sticking at the maximum rather than
/// wrapping, and returns the value just stored.
pub fn bump<'a>(guard: &mut ScopedGuard<'a, u64>) -> (now: u64)
    ensures
        final(guard)@ == now,
        now == if old(guard)@ == u64::MAX {
            old(guard)@ as int
        } else {
            old(guard)@ + 1
        },
{
    let v = guard.get();
    let next = if v < u64::MAX {
        v + 1
    } else {
        v
    };
    guard.set(next);
    next
}

/// Reads a shared cell's current value under its lock.
pub fn read_value<T: Copy>(cell: &SharedCell<T>) -> (r: Result<T, CoordError>)
    ensures
        r matches Err(e) ==> e == CoordError::LockPoisoned,
{
    match cell.lock() {
        Ok(guard) => Ok(guard.get()),
        Err(e) => Err(e),
    }
}

/// Adds one to a shared counter under its lock; the count sticks at the
/// maximum rather than wrapping. Returns the value just stored.
pub fn increment(cell: &SharedCell<u64>) -> (r: Result<u64, CoordError>)
    ensures
        r matches Err(e) ==> e == CoordError::LockPoisoned,
{
    match cell.lock() {
        Ok(mut guard) => Ok(bump(&mut guard)),
        Err(e) => Err(e),
    }
}

} // verus!
