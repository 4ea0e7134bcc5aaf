//! Where each segment lands in the output file, and how a file's segments are
//! cut into batches for pipelining.
//!
//! Offsets come from the sizes that the manifest gives, not from what the
//! articles decode to: segment `k` starts where the sizes of the segments
//! before it end.

use crate::nzb::{offset_of, total_bytes, lemma_offset_monotonic, NzbSegment};
use vstd::prelude::*;

verus! {

/// The offsets of all segments of a file, in the order of the manifest, or
/// `None` where the file's size does not fit in 64 bits.
pub fn segment_offsets(segments: &Vec<NzbSegment>) -> (r: Option<Vec<u64>>)
    ensures
        r.is_some() == (total_bytes(segments@) <= u64::MAX),
        r.is_some() ==> r.unwrap()@.len() == segments@.len(),
        r.is_some() ==> forall|k: int|
            0 <= k < segments@.len() ==> r.unwrap()@[k] == offset_of(segments@, k),
{
    let mut offsets: Vec<u64> = Vec::new();
    let mut next: u64 = 0;
    let mut i: usize = 0;
    while i < segments.len()
        invariant
            i <= segments.len(),
            offsets@.len() == i,
            next == offset_of(segments@, i as int),
            forall|k: int| 0 <= k < i ==> offsets@[k] == offset_of(segments@, k),
        decreases segments.len() - i,
    {
        offsets.push(next);
        match next.checked_add(segments[i].bytes) {
            Some(sum) => {
                next = sum;
            },
            None => {
                proof {
                    lemma_offset_monotonic(segments@, i + 1, segments@.len() as int);
                }
                return None;
            },
        }
        i = i + 1;
    }
    Some(offsets)
}

/// The size of the output file, or `None` where it does not fit in 64 bits.
pub fn expected_size(segments: &Vec<NzbSegment>) -> (r: Option<u64>)
    ensures
        r.is_some() == (total_bytes(segments@) <= u64::MAX),
        r.is_some() ==> r.unwrap() == total_bytes(segments@),
{
    let mut total: u64 = 0;
    let mut i: usize = 0;
    while i < segments.len()
        invariant
            i <= segments.len(),
            total == offset_of(segments@, i as int),
        decreases segments.len() - i,
    {
        match total.checked_add(segments[i].bytes) {
            Some(sum) => {
                total = sum;
            },
            None => {
                proof {
                    lemma_offset_monotonic(segments@, i + 1, segments@.len() as int);
                }
                return None;
            },
        }
        i = i + 1;
    }
    Some(total)
}

/// The slots of a file are contiguous: each segment starts where the one
/// before it ends, and the first starts at 0.
pub proof fn lemma_slots_contiguous(segments: Seq<NzbSegment>, k: int)
    requires
        0 <= k < segments.len(),
    ensures
        offset_of(segments, 0) == 0,
        offset_of(segments, k + 1) == offset_of(segments, k) + segments[k].bytes,
{
}

/// Two segments never share a byte: a write of at most the segment's size at
/// the segment's offset ends before the offset of every later segment, and
/// inside the file.
pub proof fn lemma_writes_disjoint(segments: Seq<NzbSegment>, i: int, j: int, written: nat)
    requires
        0 <= i < j < segments.len(),
        written <= segments[i].bytes,
    ensures
        offset_of(segments, i) + written <= offset_of(segments, j),
        offset_of(segments, i) + written <= total_bytes(segments),
{
    lemma_offset_monotonic(segments, i + 1, j);
    lemma_offset_monotonic(segments, j, segments.len() as int);
}

/// A file of one segment: its only offset is 0 and its size is that of the
/// segment.
pub proof fn lemma_single_segment(segments: Seq<NzbSegment>)
    requires
        segments.len() == 1,
    ensures
        offset_of(segments, 0) == 0,
        total_bytes(segments) == segments[0].bytes,
{
    assert(offset_of(segments, 1) == offset_of(segments, 0) + segments[0].bytes);
}

/// How many batches `count` segments make at `size` segments a batch.
pub open spec fn batch_count(count: nat, size: nat) -> nat
    recommends
        size > 0,
{
    ((count + size - 1) / size as int) as nat
}

/// The index of the first segment of batch `b`.
pub open spec fn batch_start(size: nat, b: int) -> int {
    b * size
}

/// The index after the last segment of batch `b`.
pub open spec fn batch_end(count: nat, size: nat, b: int) -> int {
    if (b + 1) * size <= count {
        (b + 1) * size
    } else {
        count as int
    }
}

/// The batches of a file: for each, the index of its first segment and the
/// index after its last. Every batch holds `size` segments but the last,
/// which holds what is left; together they hold each segment once, in order.
pub fn split_batches(count: usize, size: usize) -> (batches: Vec<(usize, usize)>)
    requires
        size > 0,
    ensures
        batches@.len() == batch_count(count as nat, size as nat),
        forall|b: int|
            0 <= b < batches@.len() ==> batches@[b].0 == batch_start(size as nat, b)
                && batches@[b].1 == batch_end(count as nat, size as nat, b),
        forall|b: int|
            0 <= b < batches@.len() ==> batches@[b].0 < batches@[b].1 <= count && batches@[b].1
                - batches@[b].0 <= size,
        forall|b: int| 0 < b < batches@.len() ==> batches@[b].0 == batches@[b - 1].1,
        batches@.len() > 0 ==> batches@[0].0 == 0 && batches@[batches@.len() - 1].1 == count,
        count == 0 ==> batches@.len() == 0,
        count > 0 ==> batches@.len() > 0,
{
    let mut batches: Vec<(usize, usize)> = Vec::new();
    let mut start: usize = 0;
    proof {
        assert(0 * size == 0) by (nonlinear_arith);
        assert((0 + size - 1) / (size as int) == 0) by (nonlinear_arith)
            requires
                size > 0,
        ;
    }
    while start < count
        invariant
            size > 0,
            start <= count,
            start == batches@.len() * size || (start == count && batches@.len() > 0),
            start < count ==> start == batches@.len() * size,
            batches@.len() == batch_count(start as nat, size as nat),
            forall|b: int|
                0 <= b < batches@.len() ==> batches@[b].0 == batch_start(size as nat, b)
                    && batches@[b].1 == batch_end(count as nat, size as nat, b),
            forall|b: int|
                0 <= b < batches@.len() ==> batches@[b].0 < batches@[b].1 <= count
                    && batches@[b].1 - batches@[b].0 <= size,
            forall|b: int| 0 < b < batches@.len() ==> batches@[b].0 == batches@[b - 1].1,
            batches@.len() > 0 ==> batches@[0].0 == 0 && batches@[batches@.len() - 1].1 == start,
            start > 0 ==> batches@.len() > 0,
        decreases count - start,
    {
        let left: usize = count - start;
        let end: usize = if left <= size {
            count
        } else {
            start + size
        };
        proof {
            let b = batches@.len() as int;
            assert(start == b * size);
            assert((b + 1) * size == b * size + size) by (nonlinear_arith);
            lemma_batch_count_step(start as nat, end as nat, size as nat, b);
        }
        batches.push((start, end));
        start = end;
    }
    proof {
        if count == 0 {
            assert(batch_count(0, size as nat) == 0) by (nonlinear_arith)
                requires
                    size > 0,
            ;
        }
    }
    batches
}

/// After `b` full batches, one more batch that ends at `end` brings the
/// number of batches to `b + 1`.
proof fn lemma_batch_count_step(start: nat, end: nat, size: nat, b: int)
    requires
        size > 0,
        b >= 0,
        start == b * size,
        start < end <= start + size,
    ensures
        batch_count(start, size) == b,
        batch_count(end, size) == b + 1,
{
    assert(batch_count(start, size) == b) by (nonlinear_arith)
        requires
            size > 0,
            b >= 0,
            start == b * size,
    {
        assert((b * size + size - 1) / (size as int) == b);
    }
    assert(batch_count(end, size) == b + 1) by (nonlinear_arith)
        requires
            size > 0,
            b >= 0,
            start == b * size,
            start < end <= start + size,
    {
        assert((end + size - 1) >= (b + 1) * size);
        assert((end + size - 1) < (b + 2) * size);
        assert((end + size - 1) / (size as int) == b + 1);
    }
}

} // verus!
