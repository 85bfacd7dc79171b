//! Task handles: a spawned unit of concurrent work that is joined exactly once.
//!
//! Spawning starts the work on a fresh execution context and returns a handle;
//! joining blocks until the work finishes and either yields its result or
//! surfaces its abnormal termination as [`CoordError::WorkerFailure`]. A handle
//! is consumed by joining, so it cannot be joined twice.

use vstd::prelude::*;

use crate::errors::CoordError;
use vstd::*;

verus! {

/// A handle on a concurrently executing unit of work.
#[verifier::reject_recursive_types(R)]
pub struct TaskHandle<R> {
    inner: thread::JoinHandle<R>,
}

impl<R> TaskHandle<R> {
    /// Restricts the values the work can complete with; it is determined by
    /// the postcondition of the closure given to [`spawn`].
    pub closed spec fn predicate(&self, ret: R) -> bool {
        self.inner.predicate(ret)
    }
}

/// Starts `work` on a new execution context and returns at once.
///
/// Whatever value the work completes with satisfies its postcondition, which
/// the returned handle carries as [`TaskHandle::predicate`].
pub fn spawn<F, R>(work: F) -> (handle: TaskHandle<R>) where
    F: FnOnce() -> R + Send + 'static,
    R: Send + 'static,

    requires
        call_requires(work, ()),
    ensures
        forall|ret: R| #[trigger] handle.predicate(ret) ==> call_ensures(work, (), ret),
{
    TaskHandle { inner: thread::spawn(work) }
}

/// Blocks until the work behind `handle` finishes.
///
/// An abnormal termination of the work is reported as
/// [`CoordError::WorkerFailure`] rather than being swallowed. Joining consumes
/// the handle, so a second join of the same work cannot even be written.
pub fn join<R>(handle: TaskHandle<R>) -> (r: Result<R, CoordError>)
    ensures
        r matches Ok(ret) ==> handle.predicate(ret),
        r matches Err(e) ==> e == CoordError::WorkerFailure,
{
    match handle.inner.join() {
        Ok(ret) => Ok(ret),
        Err(_) => Err(CoordError::WorkerFailure),
    }
}

} // verus!
