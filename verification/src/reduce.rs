//! Chunked parallel reduction: partition the input, give every non-empty
//! chunk to its own worker, join the workers in spawn order, and fold the
//! partial results.
//!
//! The general form, [`parallel_map_reduce`], takes the per-chunk map as a
//! closure pinned to a caller-supplied specification function; the partial
//! aggregates are combined by addition, which is associative and commutative,
//! so the final value is a function of the input alone and cannot depend on
//! scheduling or completion order. [`parallel_reduce`] is the concrete
//! instance that sums the squares of the input, with each worker also
//! reporting how many items it processed.

use vstd::prelude::*;
use vstd::seq_lib::lemma_flatten_concat;

use crate::chunk::chunk_views;
use crate::chunk::partition;
use crate::errors::CoordError;
use crate::handle::TaskHandle;
use crate::handle::spawn;
use crate::pool::join_all;

verus! {

/// The map splits over concatenation, which is what lets contiguous chunks
/// of the input be mapped independently and their sums stand for the whole.
pub open spec fn additive(m: spec_fn(Seq<u64>) -> int) -> bool {
    forall|a: Seq<u64>, b: Seq<u64>| #[trigger] m(a + b) == m(a) + m(b)
}

/// The map never goes negative, so a part never outweighs the whole.
pub open spec fn nonneg(m: spec_fn(Seq<u64>) -> int) -> bool {
    forall|s: Seq<u64>| #[trigger] m(s) >= 0
}

/// For an additive, non-negative map, one chunk's value is bounded by the
/// value of all chunks together.
proof fn lemma_part_le_whole(chunks: Seq<Seq<u64>>, i: int, m: spec_fn(Seq<u64>) -> int)
    requires
        additive(m),
        nonneg(m),
        0 <= i < chunks.len(),
    ensures
        0 <= m(chunks[i]) <= m(chunks.flatten()),
{
    let front = chunks.take(i);
    let back = chunks.skip(i);
    assert(chunks =~= front + back);
    lemma_flatten_concat(front, back);
    assert(back.first() == chunks[i]);
    assert(back.flatten() == chunks[i] + back.drop_first().flatten());
    assert(m(front.flatten() + back.flatten()) == m(front.flatten()) + m(back.flatten()));
    assert(m(chunks[i] + back.drop_first().flatten()) == m(chunks[i]) + m(
        back.drop_first().flatten(),
    ));
}

/// The sum of the squares of a sequence of numbers.
pub open spec fn sum_of_squares(s: Seq<u64>) -> int
    decreases s.len(),
{
    if s.len() == 0 {
        0
    } else {
        s.first() * s.first() + sum_of_squares(s.drop_first())
    }
}

/// The sum of squares is never negative.
pub proof fn lemma_sum_sq_nonneg(s: Seq<u64>)
    ensures
        sum_of_squares(s) >= 0,
    decreases s.len(),
{
    if s.len() == 0 {
    } else {
        lemma_sum_sq_nonneg(s.drop_first());
    }
}

/// Appending one item adds its square.
pub proof fn lemma_sum_sq_push(s: Seq<u64>, x: u64)
    ensures
        sum_of_squares(s.push(x)) == sum_of_squares(s) + x * x,
    decreases s.len(),
{
    if s.len() == 0 {
        assert(s.push(x).drop_first() =~= s);
    } else {
        assert(s.push(x).drop_first() =~= s.drop_first().push(x));
        lemma_sum_sq_push(s.drop_first(), x);
    }
}

/// The sum of squares splits over concatenation.
pub proof fn lemma_sum_sq_concat(a: Seq<u64>, b: Seq<u64>)
    ensures
        sum_of_squares(a + b) == sum_of_squares(a) + sum_of_squares(b),
    decreases a.len(),
{
    if a.len() == 0 {
        assert(a + b =~= b);
    } else {
        assert((a + b).drop_first() =~= a.drop_first() + b);
        lemma_sum_sq_concat(a.drop_first(), b);
    }
}

/// Sums the squares of a chunk's items sequentially.
pub fn sum_squares(chunk: &Vec<u64>) -> (r: u64)
    requires
        sum_of_squares(chunk@) <= u64::MAX,
    ensures
        r == sum_of_squares(chunk@),
{
    let mut acc: u64 = 0;
    let mut i: usize = 0;
    while i < chunk.len()
        invariant
            i <= chunk@.len(),
            sum_of_squares(chunk@) <= u64::MAX,
            acc == sum_of_squares(chunk@.take(i as int)),
        decreases chunk@.len() - i,
    {
        proof {
            assert(chunk@.take(i as int + 1) =~= chunk@.take(i as int).push(chunk@[i as int]));
            lemma_sum_sq_push(chunk@.take(i as int), chunk@[i as int]);
            assert(chunk@ =~= chunk@.take(i as int + 1) + chunk@.skip(i as int + 1));
            lemma_sum_sq_concat(chunk@.take(i as int + 1), chunk@.skip(i as int + 1));
            lemma_sum_sq_nonneg(chunk@.skip(i as int + 1));
            lemma_sum_sq_nonneg(chunk@.take(i as int));
        }
        let x = chunk[i];
        acc = acc + x * x;
        i = i + 1;
    }
    assert(chunk@.take(chunk@.len() as int) =~= chunk@);
    acc
}

/// What one episode of a parallel reduction produced.
#[derive(Clone, Copy, Debug, PartialEq, Eq, Structural)]
pub struct ReduceOutcome {
    /// How many input items the workers processed in all.
    pub processed: usize,
    /// The combined aggregate over every input item.
    pub total: u64,
}

/// Partitions `input`, has one worker per non-empty chunk apply `map_fn` to
/// it, joins all workers, and adds the partial results up in handle order.
///
/// `map_fn` must compute the specification function `mspec`, which in turn
/// must be additive and non-negative, so that per-chunk values add up to the
/// whole input's value. The outcome is then a function of the input alone:
/// any successful run returns the count of all items and `mspec` of the
/// whole input, however the workers were scheduled. A zero `worker_count` is
/// rejected up front, before any execution context is created; a worker that
/// terminates abnormally is reported after every handle has been joined.
pub fn parallel_map_reduce<F>(
    input: Vec<u64>,
    worker_count: usize,
    map_fn: F,
    mspec: Ghost<spec_fn(Seq<u64>) -> int>,
) -> (r: Result<ReduceOutcome, CoordError>) where F: Fn(Vec<u64>) -> u64 + Copy + Send + 'static

    requires
        additive(mspec@),
        nonneg(mspec@),
        mspec@(input@) <= u64::MAX,
        forall|c: Vec<u64>| 0 <= mspec@(c@) <= u64::MAX ==> call_requires(map_fn, (c,)),
        forall|c: Vec<u64>, p: u64| call_ensures(map_fn, (c,), p) ==> p == mspec@(c@),
    ensures
        worker_count == 0 <==> r == Err::<ReduceOutcome, CoordError>(CoordError::ConfigError),
        r matches Err(e) ==> e == CoordError::ConfigError || e == CoordError::WorkerFailure,
        r matches Ok(o) ==> o.processed == input@.len() && o.total == mspec@(input@),
{
    let ghost m = mspec@;
    if worker_count == 0 {
        return Err(CoordError::ConfigError);
    }
    let input_len = input.len();
    let chunks = partition(&input, worker_count);
    let ghost cviews = chunk_views(chunks@);
    let ghost n_chunks = cviews.len();

    let mut handles: Vec<TaskHandle<(usize, u64)>> = Vec::new();
    let mut rest = chunks;
    while rest.len() > 0
        invariant
            additive(m),
            nonneg(m),
            cviews.flatten() == input@,
            m(input@) <= u64::MAX,
            forall|c: Vec<u64>| 0 <= m(c@) <= u64::MAX ==> call_requires(map_fn, (c,)),
            forall|c: Vec<u64>, p: u64| call_ensures(map_fn, (c,), p) ==> p == m(c@),
            handles@.len() + rest@.len() == n_chunks == cviews.len(),
            forall|j: int|
                0 <= j < rest@.len() ==> #[trigger] rest@[j]@ == cviews[handles@.len() + j],
            forall|j: int, ret: (usize, u64)|
                0 <= j < handles@.len() && #[trigger] handles@[j].predicate(ret) ==> ret.0
                    == cviews[j].len() && ret.1 == m(cviews[j]),
        decreases rest@.len(),
    {
        let ghost done = handles@.len();
        let chunk = rest.remove(0);
        proof {
            assert(chunk@ == cviews[done as int]);
            lemma_part_le_whole(cviews, done as int, m);
        }
        let task = move || -> (ret: (usize, u64))
            ensures
                ret.0 == chunk@.len() && ret.1 == m(chunk@),
            {
                let count = chunk.len();
                let part = map_fn(chunk);
                (count, part)
            };
        let h = spawn(task);
        handles.push(h);
    }

    let results = match join_all(handles) {
        Ok(results) => results,
        Err(_) => {
            return Err(CoordError::WorkerFailure);
        },
    };

    let mut total: u64 = 0;
    let mut processed: usize = 0;
    let mut i: usize = 0;
    proof {
        let e = Seq::<u64>::empty();
        assert(cviews.take(0).flatten() =~= e);
        assert(e + e =~= e);
        assert(m(e + e) == m(e) + m(e));
    }
    while i < results.len()
        invariant
            additive(m),
            nonneg(m),
            cviews.flatten() == input@,
            m(input@) <= u64::MAX,
            input@.len() == input_len,
            i <= results@.len() == n_chunks == cviews.len(),
            forall|j: int|
                0 <= j < n_chunks ==> (#[trigger] results@[j]).0 == cviews[j].len()
                    && results@[j].1 == m(cviews[j]),
            total == m(cviews.take(i as int).flatten()),
            processed == cviews.take(i as int).flatten().len(),
        decreases results@.len() - i,
    {
        proof {
            let ii = i as int;
            assert(cviews.take(ii + 1) =~= cviews.take(ii).push(cviews[ii]));
            cviews.take(ii).lemma_flatten_push(cviews[ii]);
            assert(m(cviews.take(ii).flatten() + cviews[ii]) == m(cviews.take(ii).flatten()) + m(
                cviews[ii],
            ));
            assert(cviews =~= cviews.take(ii + 1) + cviews.skip(ii + 1));
            lemma_flatten_concat(cviews.take(ii + 1), cviews.skip(ii + 1));
            assert(m(cviews.take(ii + 1).flatten() + cviews.skip(ii + 1).flatten()) == m(
                cviews.take(ii + 1).flatten(),
            ) + m(cviews.skip(ii + 1).flatten()));
        }
        let (count, part) = results[i];
        total = total + part;
        processed = processed + count;
        i = i + 1;
    }
    proof {
        assert(cviews.take(cviews.len() as int) =~= cviews);
    }
    Ok(ReduceOutcome { processed, total })
}

/// Partitions `input`, has one worker per non-empty chunk square and sum its
/// items, joins all workers, and folds the partial results in handle order.
///
/// This is [`parallel_map_reduce`] with the per-chunk sum of squares as the
/// map: any successful run returns the count of all items and the sum of the
/// squares of the whole input.
pub fn parallel_reduce(input: Vec<u64>, worker_count: usize) -> (r: Result<
    ReduceOutcome,
    CoordError,
>)
    requires
        sum_of_squares(input@) <= u64::MAX,
    ensures
        worker_count == 0 <==> r == Err::<ReduceOutcome, CoordError>(CoordError::ConfigError),
        r matches Err(e) ==> e == CoordError::ConfigError || e == CoordError::WorkerFailure,
        r matches Ok(o) ==> o.processed == input@.len() && o.total == sum_of_squares(input@),
{
    let ghost m = |s: Seq<u64>| sum_of_squares(s);
    proof {
        assert forall|a: Seq<u64>, b: Seq<u64>| #[trigger] m(a + b) == m(a) + m(b) by {
            lemma_sum_sq_concat(a, b);
        }
        assert forall|s: Seq<u64>| #[trigger] m(s) >= 0 by {
            lemma_sum_sq_nonneg(s);
        }
    }
    let map_fn = |c: Vec<u64>| -> (r: u64)
        requires
            sum_of_squares(c@) <= u64::MAX,
        ensures
            r == sum_of_squares(c@),
        { sum_squares(&c) };
    parallel_map_reduce(input, worker_count, map_fn, Ghost(m))
}

} // verus!
