//! Worker pool: fan out `n` units of work, then join every handle in spawn
//! order.
//!
//! `join_all` returns results in handle order, independent of completion
//! order, and on a failure it still joins every remaining handle before
//! reporting, so no execution context is ever leaked.

use vstd::prelude::*;

use crate::handle::TaskHandle;
use crate::handle::join;
use crate::handle::spawn;

verus! {

/// The report of a [`join_all`] that saw at least one worker fail.
#[derive(Clone, Copy, Debug, PartialEq, Eq, Structural)]
pub struct PoolFailure {
    /// Position of the first handle whose work terminated abnormally.
    pub first_failed: usize,
    /// How many handles were joined; always the whole pool.
    pub joined: usize,
}

/// Starts `n` concurrent workers, worker `i` computing `work(i)`, and returns
/// their handles in spawn order.
pub fn spawn_n<F, R>(n: usize, work: F) -> (handles: Vec<TaskHandle<R>>) where
    F: Fn(usize) -> R + Copy + Send + 'static,
    R: Send + 'static,

    requires
        forall|i: usize| i < n ==> call_requires(work, (i,)),
    ensures
        handles@.len() == n,
        forall|j: int, ret: R|
            0 <= j < n && #[trigger] handles@[j].predicate(ret) ==> call_ensures(
                work,
                (j as usize,),
                ret,
            ),
{
    let mut handles: Vec<TaskHandle<R>> = Vec::new();
    let mut i: usize = 0;
    while i < n
        invariant
            i <= n,
            handles@.len() == i,
            forall|i2: usize| i2 < n ==> call_requires(work, (i2,)),
            forall|j: int, ret: R|
                0 <= j < i && #[trigger] handles@[j].predicate(ret) ==> call_ensures(
                    work,
                    (j as usize,),
                    ret,
                ),
        decreases n - i,
    {
        let idx = i;
        let task = move || -> (r: R)
            ensures
                call_ensures(work, (idx,), r),
            { work(idx) };
        let h = spawn(task);
        handles.push(h);
        i = i + 1;
    }
    handles
}

/// Joins every handle, in handle order.
///
/// On success the results match the handles position by position. If any
/// work failed, every handle is still joined first, and the report carries
/// the position of the first failure together with the count of joined
/// handles, which is always the whole pool.
pub fn join_all<R>(handles: Vec<TaskHandle<R>>) -> (r: Result<Vec<R>, PoolFailure>)
    ensures
        r matches Ok(results) ==> results@.len() == handles@.len() && forall|j: int|
            0 <= j < handles@.len() ==> handles@[j].predicate(#[trigger] results@[j]),
        r matches Err(e) ==> e.joined == handles@.len() && e.first_failed < handles@.len(),
{
    let ghost hs = handles@;
    let mut rest = handles;
    // Read the length once so the prover sees that it fits in usize.
    let pool_size = rest.len();
    assert(pool_size == hs.len());
    let mut results: Vec<R> = Vec::new();
    let mut failed: Option<usize> = None;
    let mut joined: usize = 0;
    while rest.len() > 0
        invariant
            hs.len() <= usize::MAX,
            joined + rest@.len() == hs.len(),
            rest@ == hs.subrange(joined as int, hs.len() as int),
            failed is None ==> results@.len() == joined && forall|j: int|
                0 <= j < joined ==> hs[j].predicate(#[trigger] results@[j]),
            failed matches Some(f) ==> f < joined,
        decreases rest@.len(),
    {
        let h = rest.remove(0);
        proof {
            assert(h == hs[joined as int]);
            assert(rest@ =~= hs.subrange(joined as int + 1, hs.len() as int));
        }
        match join(h) {
            Ok(v) => {
                if failed.is_none() {
                    results.push(v);
                }
            },
            Err(_) => {
                if failed.is_none() {
                    failed = Some(joined);
                }
            },
        }
        joined = joined + 1;
    }
    match failed {
        None => Ok(results),
        Some(f) => Err(PoolFailure { first_failed: f, joined }),
    }
}

} // verus!
