//! Partitioning an input sequence into contiguous chunks, one per worker.
//!
//! The chunk size is the floor of `input.len() / worker_count`; the final
//! chunk absorbs the remainder. When there are more workers than items the
//! whole input becomes a single chunk, so that no empty chunk is ever
//! produced.

use vstd::prelude::*;

verus! {

/// The mathematical contents of a sequence of chunks.
pub open spec fn chunk_views<T>(chunks: Seq<Vec<T>>) -> Seq<Seq<T>> {
    chunks.map_values(|c: Vec<T>| c@)
}

/// The summed length of a sequence of chunks.
pub open spec fn total_len<T>(chunks: Seq<Seq<T>>) -> int
    decreases chunks.len(),
{
    if chunks.len() == 0 {
        0
    } else {
        chunks.first().len() + total_len(chunks.drop_first())
    }
}

/// Law: chunks that concatenate back to the input have lengths that sum to
/// the input's length.
pub proof fn lemma_chunk_lengths_cover<T>(chunks: Seq<Seq<T>>, input: Seq<T>)
    requires
        chunks.flatten() == input,
    ensures
        total_len(chunks) == input.len(),
    decreases chunks.len(),
{
    if chunks.len() == 0 {
    } else {
        lemma_chunk_lengths_cover(chunks.drop_first(), chunks.drop_first().flatten());
    }
}

/// Copies `input[from..to]` into a fresh vector.
fn copy_range<T: Copy>(input: &Vec<T>, from: usize, to: usize) -> (out: Vec<T>)
    requires
        from <= to <= input@.len(),
    ensures
        out@ == input@.subrange(from as int, to as int),
{
    let mut out: Vec<T> = Vec::new();
    let mut i: usize = from;
    while i < to
        invariant
            from <= i <= to <= input@.len(),
            out@ == input@.subrange(from as int, i as int),
        decreases to - i,
    {
        out.push(input[i]);
        i = i + 1;
        assert(out@ =~= input@.subrange(from as int, i as int));
    }
    out
}

/// Splits `input` into at most `worker_count` contiguous non-empty chunks
/// that concatenate back to `input`.
///
/// All chunks but the last hold exactly `input.len() / worker_count` items;
/// the last absorbs the remainder. With more workers than items a single
/// chunk holds everything, and an empty input yields no chunks at all.
pub fn partition<T: Copy>(input: &Vec<T>, worker_count: usize) -> (chunks: Vec<Vec<T>>)
    requires
        1 <= worker_count,
    ensures
        chunk_views(chunks@).flatten() == input@,
        forall|i: int| 0 <= i < chunks@.len() ==> #[trigger] chunks@[i]@.len() > 0,
        chunks@.len() <= worker_count,
        input@.len() == 0 ==> chunks@.len() == 0,
        input@.len() > 0 ==> chunks@.len() >= 1,
        input@.len() >= worker_count ==> chunks@.len() == worker_count,
        0 < input@.len() < worker_count ==> chunks@.len() == 1,
        forall|i: int|
            0 <= i < chunks@.len() - 1 ==> #[trigger] chunks@[i]@.len() == input@.len() as int
                / (worker_count as int),
{
    let len = input.len();
    let mut chunks: Vec<Vec<T>> = Vec::new();
    if len == 0 {
        assert(chunk_views(chunks@).flatten() =~= input@);
        return chunks;
    }
    let size = len / worker_count;
    proof {
        vstd::arithmetic::div_mod::lemma_fundamental_div_mod(len as int, worker_count as int);
        vstd::arithmetic::div_mod::lemma_mod_bound(len as int, worker_count as int);
        assert(size >= 1 ==> len >= worker_count && size * worker_count <= len)
            by (nonlinear_arith)
            requires
                len as int == worker_count as int * (len as int / worker_count as int) + len as int
                    % worker_count as int,
                0 <= len as int % (worker_count as int),
                len as int % (worker_count as int) < worker_count as int,
                size == len as int / (worker_count as int),
                1 <= worker_count,
        ;
        assert(size == 0 ==> len < worker_count) by (nonlinear_arith)
            requires
                len as int == worker_count as int * (len as int / worker_count as int) + len as int
                    % (worker_count as int),
                len as int % (worker_count as int) < worker_count as int,
                size == len as int / (worker_count as int),
        ;
    }
    if size == 0 {
        // Fewer items than workers: a single chunk takes everything.
        let all = copy_range(input, 0, len);
        proof {
            chunk_views(chunks@).lemma_flatten_push(all@);
            assert(chunk_views(chunks@.push(all)) =~= chunk_views(chunks@).push(all@));
        }
        chunks.push(all);
        assert(chunk_views(chunks@).flatten() =~= input@);
        return chunks;
    }
    let mut start: usize = 0;
    let mut j: usize = 0;
    while j + 1 < worker_count
        invariant
            1 <= worker_count <= len == input@.len(),
            size == len as int / worker_count as int,
            1 <= size,
            size * worker_count <= len,
            j == chunks@.len(),
            j + 1 <= worker_count,
            start == j * size,
            start + size <= len,
            chunk_views(chunks@).flatten() == input@.subrange(0, start as int),
            forall|i: int| 0 <= i < chunks@.len() ==> #[trigger] chunks@[i]@.len() == size,
        decreases worker_count - j,
    {
        let c = copy_range(input, start, start + size);
        proof {
            chunk_views(chunks@).lemma_flatten_push(c@);
            assert(chunk_views(chunks@.push(c)) =~= chunk_views(chunks@).push(c@));
            assert(input@.subrange(0, start as int) + input@.subrange(
                start as int,
                start as int + size as int,
            ) =~= input@.subrange(0, start as int + size as int));
        }
        chunks.push(c);
        start = start + size;
        j = j + 1;
        proof {
            assert(start == j * size) by (nonlinear_arith)
                requires
                    start == (j - 1) * size + size,
            ;
            assert(j + 1 <= worker_count ==> start + size <= len) by (nonlinear_arith)
                requires
                    start == j * size,
                    size * worker_count <= len,
                    1 <= size,
            ;
        }
    }
    proof {
        assert(start < len) by (nonlinear_arith)
            requires
                start == j * size,
                j + 1 == worker_count,
                size * worker_count <= len,
                1 <= size,
        ;
    }
    let last = copy_range(input, start, len);
    proof {
        chunk_views(chunks@).lemma_flatten_push(last@);
        assert(chunk_views(chunks@.push(last)) =~= chunk_views(chunks@).push(last@));
        assert(input@.subrange(0, start as int) + input@.subrange(start as int, len as int)
            =~= input@.subrange(0, len as int));
        assert(input@.subrange(0, len as int) =~= input@);
    }
    chunks.push(last);
    chunks
}

} // verus!
