//! Partitioning of `[0, length)` into contiguous fixed-size byte ranges.
//!
//! Each chunk covers the inclusive byte range `[start, stop]`; the last chunk
//! is clipped so that `stop == length - 1`.

use vstd::prelude::*;

verus! {

/// One contiguous byte range of the remote object, with inclusive bounds.
#[derive(Clone, Copy, PartialEq, Eq, Structural, Debug)]
pub struct ChunkRange {
    pub start: usize,
    pub stop: usize,
}

/// Number of chunks needed to cover `[0, length)` with chunks of `chunk_size`
/// bytes: the ceiling of `length / chunk_size`.
pub open spec fn spec_chunk_count(length: int, chunk_size: int) -> int {
    if length <= 0 {
        0
    } else {
        (length - 1) / chunk_size + 1
    }
}

/// Start offset of chunk `i`.
pub open spec fn spec_chunk_start(i: int, chunk_size: int) -> int {
    i * chunk_size
}

/// Inclusive stop offset of chunk `i`: one chunk further, clipped to the end
/// of the object.
pub open spec fn spec_chunk_stop(i: int, chunk_size: int, length: int) -> int {
    if i * chunk_size + chunk_size - 1 <= length - 1 {
        i * chunk_size + chunk_size - 1
    } else {
        length - 1
    }
}

/// Index of the chunk whose range contains byte offset `j`.
pub open spec fn spec_chunk_index(j: int, chunk_size: int) -> int {
    j / chunk_size
}

/// The shape of a full chunk plan for an object of `length` bytes: one range
/// per chunk, each with the planned start and stop offsets.
pub open spec fn planned(ranges: Seq<ChunkRange>, length: int, chunk_size: int) -> bool {
    &&& ranges.len() == spec_chunk_count(length, chunk_size)
    &&& forall|i: int|
        0 <= i < ranges.len() ==> ranges[i].start == spec_chunk_start(i, chunk_size)
            && ranges[i].stop == spec_chunk_stop(i, chunk_size, length)
}

/// Partition `[0, length)` into chunks of `chunk_size` bytes.
pub fn plan_chunks(length: usize, chunk_size: usize) -> (r: Vec<ChunkRange>)
    requires
        chunk_size >= 1,
    ensures
        planned(r@, length as int, chunk_size as int),
{
    let mut out: Vec<ChunkRange> = Vec::new();
    let mut start: usize = 0;
    while start < length
        invariant
            chunk_size >= 1,
            start <= length,
            out@.len() == 0 ==> start == 0,
            out@.len() > 0 ==> (out@.len() - 1) * chunk_size < start,
            start <= out@.len() * chunk_size,
            start < length ==> start == out@.len() * chunk_size,
            forall|i: int|
                0 <= i < out@.len() ==> out@[i].start == spec_chunk_start(i, chunk_size as int)
                    && out@[i].stop == spec_chunk_stop(i, chunk_size as int, length as int),
        decreases length - start,
    {
        let remaining: usize = length - 1 - start;
        let stop: usize = if chunk_size - 1 <= remaining {
            start + (chunk_size - 1)
        } else {
            length - 1
        };
        out.push(ChunkRange { start, stop });
        start = stop + 1;
        proof {
            let n = out@.len() as int;
            assert(n * chunk_size == (n - 1) * chunk_size + chunk_size) by (nonlinear_arith);
            assert(out@[n - 1].start == spec_chunk_start(n - 1, chunk_size as int));
            assert(out@[n - 1].stop == spec_chunk_stop(n - 1, chunk_size as int, length as int));
        }
    }
    proof {
        lemma_count_from_bounds(out@.len() as int, length as int, chunk_size as int);
    }
    out
}

/// `chunk_count` is pinned by the bracketing `(k-1)*cs < length <= k*cs`.
proof fn lemma_count_from_bounds(k: int, length: int, chunk_size: int)
    requires
        chunk_size >= 1,
        k >= 0,
        length >= 0,
        k == 0 ==> length == 0,
        k > 0 ==> (k - 1) * chunk_size < length <= k * chunk_size,
    ensures
        k == spec_chunk_count(length, chunk_size),
{
    if k > 0 {
        assert((length - 1) / chunk_size == k - 1) by (nonlinear_arith)
            requires
                chunk_size >= 1,
                k > 0,
                (k - 1) * chunk_size < length <= k * chunk_size,
        ;
    }
}

/// The planned ranges partition `[0, length)` exactly: they ascend
/// contiguously from offset `0`, end at `length - 1`, never overlap, and
/// every byte offset below `length` falls in exactly one of them.
pub proof fn lemma_plan_is_partition(ranges: Seq<ChunkRange>, length: int, chunk_size: int)
    requires
        chunk_size >= 1,
        length >= 0,
        planned(ranges, length, chunk_size),
    ensures
        forall|i: int|
            0 <= i < ranges.len() ==> 0 <= #[trigger] ranges[i].start <= ranges[i].stop < length,
        forall|i: int|
            1 <= i < ranges.len() ==> #[trigger] ranges[i].start == ranges[i - 1].stop + 1,
        ranges.len() > 0 ==> ranges[0].start == 0 && ranges[ranges.len() - 1].stop == length - 1,
        forall|j: int|
            0 <= j < length ==> {
                let i = #[trigger] spec_chunk_index(j, chunk_size);
                &&& 0 <= i < ranges.len()
                &&& ranges[i].start <= j <= ranges[i].stop
            },
        forall|i: int, k: int|
            0 <= i < ranges.len() && 0 <= k < ranges.len() && i != k ==> ranges[i].stop
                < ranges[k].start || ranges[k].stop < ranges[i].start,
    {
    assert forall|i: int|
        0 <= i < ranges.len() implies 0 <= #[trigger] ranges[i].start <= ranges[i].stop
        < length by {
        lemma_chunk_offsets(i, chunk_size, length);
    }
    assert forall|i: int| 1 <= i < ranges.len() implies #[trigger] ranges[i].start == ranges[i
        - 1].stop + 1 by {
        lemma_chunk_offsets(i - 1, chunk_size, length);
        lemma_chunk_offsets(i, chunk_size, length);
        assert(i * chunk_size == (i - 1) * chunk_size + chunk_size) by (nonlinear_arith);
        assert((i - 1) * chunk_size + chunk_size - 1 <= length - 1) by {
            assert(i < spec_chunk_count(length, chunk_size));
            assert((length - 1) / chunk_size >= i);
            assert((length - 1) / chunk_size * chunk_size <= length - 1 && i * chunk_size <= (
            length - 1) / chunk_size * chunk_size) by (nonlinear_arith)
                requires
                    chunk_size >= 1,
                    length >= 1,
                    (length - 1) / chunk_size >= i,
            ;
        }
    }
    if ranges.len() > 0 {
        assert(ranges[0].start == 0) by (nonlinear_arith)
            requires
                ranges[0].start == spec_chunk_start(0, chunk_size),
        ;
        let last = ranges.len() - 1;
        lemma_chunk_offsets(last, chunk_size, length);
        assert(ranges[last].stop == length - 1) by {
            assert(last == (length - 1) / chunk_size);
            assert(last * chunk_size + chunk_size - 1 >= length - 1) by (nonlinear_arith)
                requires
                    chunk_size >= 1,
                    length >= 1,
                    last == (length - 1) / chunk_size,
            ;
        }
    }
    assert forall|j: int| 0 <= j < length implies {
        let i = #[trigger] spec_chunk_index(j, chunk_size);
        &&& 0 <= i < ranges.len()
        &&& ranges[i].start <= j <= ranges[i].stop
    } by {
        let i = j / chunk_size;
        assert(0 <= i && i * chunk_size <= j < i * chunk_size + chunk_size) by (nonlinear_arith)
            requires
                chunk_size >= 1,
                0 <= j,
                i == j / chunk_size,
        ;
        assert(i <= (length - 1) / chunk_size) by (nonlinear_arith)
            requires
                chunk_size >= 1,
                0 <= j <= length - 1,
                i == j / chunk_size,
        ;
        assert(0 <= i < ranges.len());
        assert(ranges[i].start == spec_chunk_start(i, chunk_size));
        assert(ranges[i].stop == spec_chunk_stop(i, chunk_size, length));
        assert(ranges[i].start <= j <= ranges[i].stop);
    }
    assert forall|i: int, k: int|
        0 <= i < ranges.len() && 0 <= k < ranges.len() && i != k implies ranges[i].stop
        < ranges[k].start || ranges[k].stop < ranges[i].start by {
        lemma_chunk_offsets(i, chunk_size, length);
        lemma_chunk_offsets(k, chunk_size, length);
        if i < k {
            assert(i * chunk_size + chunk_size <= k * chunk_size) by (nonlinear_arith)
                requires
                    chunk_size >= 1,
                    i < k,
            ;
        } else {
            assert(k * chunk_size + chunk_size <= i * chunk_size) by (nonlinear_arith)
                requires
                    chunk_size >= 1,
                    k < i,
            ;
        }
    }
}

/// Basic bounds on the planned offsets of chunk `i`.
proof fn lemma_chunk_offsets(i: int, chunk_size: int, length: int)
    requires
        chunk_size >= 1,
        length >= 1,
        0 <= i < spec_chunk_count(length, chunk_size),
    ensures
        0 <= spec_chunk_start(i, chunk_size),
        spec_chunk_start(i, chunk_size) <= spec_chunk_stop(i, chunk_size, length),
        spec_chunk_stop(i, chunk_size, length) < length,
        spec_chunk_stop(i, chunk_size, length) < spec_chunk_start(i, chunk_size) + chunk_size,
{
    assert(i <= (length - 1) / chunk_size);
    assert(0 <= i * chunk_size <= (length - 1) / chunk_size * chunk_size <= length - 1)
        by (nonlinear_arith)
        requires
            chunk_size >= 1,
            length >= 1,
            0 <= i <= (length - 1) / chunk_size,
    ;
}

} // verus!
