//! Model of the destination file and the per-chunk range write.
//!
//! Each worker writes exactly its chunk's bytes at the chunk's start offset
//! and never touches a byte outside its own range; the ranges are disjoint,
//! so no two writes ever land on the same byte. Writing every chunk of a
//! plan with the bytes the origin serves reconstructs the object exactly.

use vstd::prelude::*;

use crate::planner::{planned, ChunkRange};

verus! {

/// The destination after `bytes` lands at offset `start`: those positions
/// carry the new bytes, every other byte is untouched.
pub open spec fn spec_write(dest: Seq<u8>, start: int, bytes: Seq<u8>) -> Seq<u8> {
    Seq::new(
        dest.len(),
        |j: int|
            if start <= j < start + bytes.len() {
                bytes[j - start]
            } else {
                dest[j]
            },
    )
}

/// Write `bytes` into the destination at offset `start`.
pub fn write_range(dest: &mut Vec<u8>, start: usize, bytes: &Vec<u8>)
    requires
        start + bytes@.len() <= old(dest)@.len(),
    ensures
        final(dest)@ == spec_write(old(dest)@, start as int, bytes@),
{
    let n = bytes.len();
    let total = dest.len();
    let mut k: usize = 0;
    while k < n
        invariant
            n == bytes@.len(),
            0 <= k <= n,
            total == dest@.len(),
            start + n <= total,
            dest@.len() == old(dest)@.len(),
            forall|j: int|
                0 <= j < dest@.len() && !(start <= j < start + k) ==> dest@[j] == old(dest)@[j],
            forall|j: int| start <= j < start + k ==> dest@[j] == bytes@[j - start],
        decreases n - k,
    {
        dest.set(start + k, bytes[k]);
        k = k + 1;
    }
    proof {
        assert(dest@ =~= spec_write(old(dest)@, start as int, bytes@));
    }
}

/// The destination after the first `k` chunks of the plan have each written
/// their slice of `source`, in submission order.
pub open spec fn spec_write_chunks(
    dest: Seq<u8>,
    source: Seq<u8>,
    ranges: Seq<ChunkRange>,
    k: int,
) -> Seq<u8>
    decreases k,
{
    if k <= 0 {
        dest
    } else {
        spec_write(
            spec_write_chunks(dest, source, ranges, k - 1),
            ranges[k - 1].start as int,
            source.subrange(ranges[k - 1].start as int, ranges[k - 1].stop + 1),
        )
    }
}

/// After the first `k` chunks have written, the destination equals the
/// source up to the end of chunk `k - 1` and is untouched beyond it.
proof fn lemma_write_chunks_prefix(
    dest: Seq<u8>,
    source: Seq<u8>,
    ranges: Seq<ChunkRange>,
    length: int,
    chunk_size: int,
    k: int,
)
    requires
        chunk_size >= 1,
        length >= 0,
        planned(ranges, length, chunk_size),
        source.len() == length,
        dest.len() == length,
        0 <= k <= ranges.len(),
    ensures
        spec_write_chunks(dest, source, ranges, k).len() == length,
        forall|j: int|
            0 <= j < length ==> spec_write_chunks(dest, source, ranges, k)[j] == (if k > 0 && j
                <= ranges[k - 1].stop {
                source[j]
            } else {
                dest[j]
            }),
    decreases k,
{
    crate::planner::lemma_plan_is_partition(ranges, length, chunk_size);
    if k > 0 {
        lemma_write_chunks_prefix(dest, source, ranges, length, chunk_size, k - 1);
        let prev = spec_write_chunks(dest, source, ranges, k - 1);
        let cur = spec_write_chunks(dest, source, ranges, k);
        let start = ranges[k - 1].start as int;
        let stop = ranges[k - 1].stop as int;
        let slice = source.subrange(start, stop + 1);
        assert(cur == spec_write(prev, start, slice));
        assert forall|j: int| 0 <= j < length implies cur[j] == (if j <= stop {
            source[j]
        } else {
            dest[j]
        }) by {
            if start <= j <= stop {
                assert(cur[j] == slice[j - start]);
                assert(slice[j - start] == source[j]);
            } else if j < start {
                assert(cur[j] == prev[j]);
                if k - 2 >= 0 {
                    assert(ranges[k - 1].start == ranges[k - 2].stop + 1);
                    assert(j <= ranges[k - 2].stop);
                }
            } else {
                assert(cur[j] == prev[j]);
                if k - 2 >= 0 {
                    assert(ranges[k - 1].start == ranges[k - 2].stop + 1);
                    assert(j > ranges[k - 2].stop);
                }
            }
        }
    }
}

/// Round trip: when every chunk of the plan writes the bytes the origin
/// serves for its range, the destination is byte-for-byte the source,
/// whatever the chunk size.
pub proof fn lemma_round_trip(
    dest: Seq<u8>,
    source: Seq<u8>,
    ranges: Seq<ChunkRange>,
    length: int,
    chunk_size: int,
)
    requires
        chunk_size >= 1,
        length >= 0,
        planned(ranges, length, chunk_size),
        source.len() == length,
        dest.len() == length,
    ensures
        spec_write_chunks(dest, source, ranges, ranges.len() as int) == source,
{
    crate::planner::lemma_plan_is_partition(ranges, length, chunk_size);
    let n = ranges.len() as int;
    lemma_write_chunks_prefix(dest, source, ranges, length, chunk_size, n);
    assert(spec_write_chunks(dest, source, ranges, n) =~= source);
}

/// A fresh all-zero destination buffer of the object's length.
pub fn zero_buffer(length: usize) -> (r: Vec<u8>)
    ensures
        r@.len() == length,
        forall|j: int| 0 <= j < length ==> r@[j] == 0,
{
    let mut v: Vec<u8> = Vec::new();
    let mut i: usize = 0;
    while i < length
        invariant
            0 <= i <= length,
            v@.len() == i,
            forall|j: int| 0 <= j < i ==> v@[j] == 0,
        decreases length - i,
    {
        v.push(0);
        i = i + 1;
    }
    v
}

} // verus!
