//! The fetch of one file from start to result.
//!
//! A file is cut into batches. Batches finish in any order; each is handed
//! in once, with one outcome per segment. When every batch is in, the
//! counters hold one outcome for every segment of the file.

use crate::accounting::{FileStats, SegmentOutcome};
use crate::connection::SegmentRequest;
use crate::downloader::{batch_requests, file_result, segment_requests, DownloadResult};
use crate::layout::{batch_count, segment_offsets, split_batches};
use crate::nzb::{offset_of, total_bytes, NzbFile};
use vstd::prelude::*;

verus! {

/// The number of segments in the first `k` batches.
pub open spec fn size_sum(batches: Seq<(usize, usize)>, k: int) -> int
    decreases k,
{
    if k <= 0 {
        0
    } else {
        size_sum(batches, k - 1) + (batches[k - 1].1 - batches[k - 1].0)
    }
}

/// The number of segments in those of the first `k` batches that are in.
pub open spec fn done_sum(batches: Seq<(usize, usize)>, done: Seq<bool>, k: int) -> int
    decreases k,
{
    if k <= 0 {
        0
    } else {
        done_sum(batches, done, k - 1) + if done[k - 1] {
            batches[k - 1].1 - batches[k - 1].0
        } else {
            0
        }
    }
}

/// The batches cut `count` segments into consecutive runs that start at 0.
pub open spec fn is_partition(batches: Seq<(usize, usize)>, count: nat) -> bool {
    &&& forall|b: int|
        0 <= b < batches.len() ==> (#[trigger] batches[b]).0 < batches[b].1 && batches[b].1
            <= count
    &&& forall|b: int| 0 < b < batches.len() ==> (#[trigger] batches[b]).0 == batches[b - 1].1
    &&& batches.len() > 0 ==> batches[0].0 == 0 && batches[batches.len() - 1].1 == count
    &&& batches.len() == 0 ==> count == 0
}

/// The first `k` batches of a partition hold the segments up to the end of
/// batch `k - 1`.
pub proof fn lemma_size_sum(batches: Seq<(usize, usize)>, count: nat, k: int)
    requires
        is_partition(batches, count),
        0 <= k <= batches.len(),
    ensures
        size_sum(batches, k) == (if k == 0 {
            0
        } else {
            batches[k - 1].1 as int
        }),
        size_sum(batches, batches.len() as int) == count,
{
    lemma_size_sum_upto(batches, count, k);
    lemma_size_sum_upto(batches, count, batches.len() as int);
}

proof fn lemma_size_sum_upto(batches: Seq<(usize, usize)>, count: nat, k: int)
    requires
        is_partition(batches, count),
        0 <= k <= batches.len(),
    ensures
        size_sum(batches, k) == (if k == 0 {
            0
        } else {
            batches[k - 1].1 as int
        }),
    decreases k,
{
    if k > 0 {
        lemma_size_sum_upto(batches, count, k - 1);
    }
}

/// What is in never exceeds what there is; a batch that is not in leaves
/// room for all its segments.
pub proof fn lemma_done_sum_bound(batches: Seq<(usize, usize)>, done: Seq<bool>, k: int, b: int)
    requires
        done.len() == batches.len(),
        0 <= k <= batches.len(),
        forall|j: int| 0 <= j < batches.len() ==> (#[trigger] batches[j]).0 <= batches[j].1,
    ensures
        0 <= done_sum(batches, done, k) <= size_sum(batches, k),
        0 <= b < k && !done[b] ==> done_sum(batches, done, k) + (batches[b].1 - batches[b].0)
            <= size_sum(batches, k),
    decreases k,
{
    if k > 0 {
        lemma_done_sum_bound(batches, done, k - 1, b);
    }
}

/// Where every batch is in, what is in is all there is.
pub proof fn lemma_done_sum_all(batches: Seq<(usize, usize)>, done: Seq<bool>, k: int)
    requires
        done.len() == batches.len(),
        0 <= k <= batches.len(),
        forall|j: int| 0 <= j < k ==> done[j],
    ensures
        done_sum(batches, done, k) == size_sum(batches, k),
    decreases k,
{
    if k > 0 {
        lemma_done_sum_all(batches, done, k - 1);
    }
}

/// Where a batch is missing, what is in is less than all there is.
pub proof fn lemma_done_sum_missing(batches: Seq<(usize, usize)>, done: Seq<bool>, k: int, b: int)
    requires
        done.len() == batches.len(),
        0 <= b < k <= batches.len(),
        !done[b],
        forall|j: int| 0 <= j < batches.len() ==> (#[trigger] batches[j]).0 < batches[j].1,
    ensures
        done_sum(batches, done, k) < size_sum(batches, k),
{
    lemma_done_sum_bound(batches, done, k, b);
}

/// Handing in batch `b` adds its segments to what is in.
pub proof fn lemma_done_sum_update(batches: Seq<(usize, usize)>, done: Seq<bool>, k: int, b: int)
    requires
        done.len() == batches.len(),
        0 <= k <= batches.len(),
        0 <= b < batches.len(),
        !done[b],
    ensures
        done_sum(batches, done.update(b, true), k) == done_sum(batches, done, k) + (if b < k {
            batches[b].1 - batches[b].0
        } else {
            0
        }),
    decreases k,
{
    if k > 0 {
        lemma_done_sum_update(batches, done, k - 1, b);
    }
}

/// The fetch of one file.
#[derive(Debug)]
pub struct FileDownload {
    pub file: NzbFile,
    /// Where each segment starts in the output file.
    pub offsets: Vec<u64>,
    /// The batches: for each, the index of its first segment and the index
    /// after its last.
    pub batches: Vec<(usize, usize)>,
    /// Which batches are in.
    pub done: Vec<bool>,
    pub stats: FileStats,
}

impl FileDownload {
    /// The state is consistent: the offsets are those of the manifest, the
    /// batches cut the segments into consecutive runs, and the counters
    /// hold one outcome for each segment of each batch that is in.
    pub open spec fn wf(&self) -> bool {
        &&& self.file.groups.group@.len() > 0
        &&& total_bytes(self.file.segments.segment@) <= u64::MAX
        &&& self.offsets@.len() == self.file.segments.segment@.len()
        &&& forall|k: int|
            0 <= k < self.offsets@.len() ==> self.offsets@[k] == offset_of(
                self.file.segments.segment@,
                k,
            )
        &&& is_partition(self.batches@, self.file.segments.segment@.len())
        &&& self.done@.len() == self.batches@.len()
        &&& self.stats.wf()
        &&& self.stats.total == self.file.segments.segment@.len()
        &&& self.stats.recorded() == done_sum(self.batches@, self.done@, self.batches@.len() as int)
    }

    /// Whether every batch is in.
    pub open spec fn complete(&self) -> bool {
        forall|b: int| 0 <= b < self.done@.len() ==> self.done@[b]
    }

    /// Plans the fetch of a file in batches of `pipeline_size` segments.
    /// `None` where the size of the file does not fit in 64 bits.
    pub fn new(file: NzbFile, pipeline_size: usize) -> (plan: Option<FileDownload>)
        requires
            pipeline_size > 0,
            file.groups.group@.len() > 0,
        ensures
            plan.is_some() == (total_bytes(file.segments.segment@) <= u64::MAX),
            plan.is_some() ==> plan.unwrap().wf() && plan.unwrap().file == file
                && plan.unwrap().batches@.len() == batch_count(
                file.segments.segment@.len(),
                pipeline_size as nat,
            ) && plan.unwrap().stats.recorded() == 0 && forall|b: int|
                0 <= b < plan.unwrap().done@.len() ==> !plan.unwrap().done@[b],
    {
        let offsets: Vec<u64> = match segment_offsets(&file.segments.segment) {
            Some(offsets) => offsets,
            None => {
                return None;
            },
        };
        let count: usize = file.segments.segment.len();
        let batches: Vec<(usize, usize)> = split_batches(count, pipeline_size);
        let mut done: Vec<bool> = Vec::new();
        while done.len() < batches.len()
            invariant
                done@.len() <= batches@.len(),
                forall|b: int| 0 <= b < done@.len() ==> !done@[b],
            decreases batches.len() - done.len(),
        {
            done.push(false);
        }
        let stats: FileStats = FileStats::new(count);
        proof {
            lemma_none_done(batches@, done@, batches@.len() as int);
            assert(is_partition(batches@, count as nat));
        }
        Some(FileDownload { file, offsets, batches, done, stats })
    }

    /// The requests of batch `b`, in the order of the manifest.
    pub fn requests_for(&self, b: usize) -> (requests: Vec<SegmentRequest>)
        requires
            self.wf(),
            b < self.batches@.len(),
        ensures
            requests@.len() == self.batches@[b as int].1 - self.batches@[b as int].0,
            forall|k: int|
                0 <= k < requests@.len() ==> requests@[k].message_id
                    == self.file.segments.segment@[self.batches@[b as int].0 + k].message_id
                    && requests@[k].segment_number
                    == self.file.segments.segment@[self.batches@[b as int].0 + k].number
                    && requests@[k].group == self.file.groups.group@[0].name,
    {
        let all: Vec<SegmentRequest> = segment_requests(&self.file);
        let range: (usize, usize) = self.batches[b];
        batch_requests(&all, range.0, range.1)
    }

    /// Hands in the outcomes of batch `b`, after its data was written: one
    /// outcome per segment of the batch.
    pub fn record_batch(&mut self, b: usize, outcomes: &Vec<SegmentOutcome>)
        requires
            old(self).wf(),
            b < old(self).batches@.len(),
            !old(self).done@[b as int],
            outcomes@.len() == old(self).batches@[b as int].1 - old(self).batches@[b as int].0,
        ensures
            final(self).wf(),
            final(self).file == old(self).file,
            final(self).offsets == old(self).offsets,
            final(self).batches == old(self).batches,
            final(self).done@ == old(self).done@.update(b as int, true),
            final(self).stats.recorded() == old(self).stats.recorded() + outcomes@.len(),
            final(self).stats.segments_ok == old(self).stats.segments_ok
                + crate::accounting::count_ok(outcomes@),
            final(self).stats.segments_failed == old(self).stats.segments_failed
                + crate::accounting::count_failed(outcomes@),
            final(self).stats.bytes_written == crate::accounting::capped(
                old(self).stats.bytes_written as nat + crate::accounting::bytes_of(outcomes@),
            ),
            final(self).stats.failed_message_ids@ == old(self).stats.failed_message_ids@
                + crate::accounting::failed_ids(outcomes@),
    {
        proof {
            lemma_done_sum_bound(
                self.batches@,
                self.done@,
                self.batches@.len() as int,
                b as int,
            );
            lemma_size_sum(
                self.batches@,
                self.file.segments.segment@.len(),
                self.batches@.len() as int,
            );
            lemma_done_sum_update(
                self.batches@,
                self.done@,
                self.batches@.len() as int,
                b as int,
            );
        }
        let mut i: usize = 0;
        assert(outcomes@.take(0) =~= Seq::<SegmentOutcome>::empty());
        assert(self.stats.failed_message_ids@ + crate::accounting::failed_ids(outcomes@.take(0))
            =~= self.stats.failed_message_ids@);
        while i < outcomes.len()
            invariant
                i <= outcomes.len(),
                self.file == old(self).file,
                self.offsets == old(self).offsets,
                self.batches == old(self).batches,
                self.done == old(self).done,
                self.stats.wf(),
                self.stats.total == old(self).stats.total,
                old(self).stats.recorded() + outcomes@.len() <= old(self).stats.total,
                self.stats.recorded() == old(self).stats.recorded() + i,
                self.stats.segments_ok == old(self).stats.segments_ok
                    + crate::accounting::count_ok(outcomes@.take(i as int)),
                self.stats.segments_failed == old(self).stats.segments_failed
                    + crate::accounting::count_failed(outcomes@.take(i as int)),
                self.stats.bytes_written == crate::accounting::capped(
                    old(self).stats.bytes_written as nat + crate::accounting::bytes_of(
                        outcomes@.take(i as int),
                    ),
                ),
                self.stats.failed_message_ids@ == old(self).stats.failed_message_ids@
                    + crate::accounting::failed_ids(outcomes@.take(i as int)),
            decreases outcomes.len() - i,
        {
            proof {
                assert(outcomes@.take(i + 1).drop_last() =~= outcomes@.take(i as int));
                assert(outcomes@.take(i + 1).last() == outcomes@[i as int]);
            }
            self.stats.record(&outcomes[i]);
            proof {
                let so_far = crate::accounting::failed_ids(outcomes@.take(i as int));
                if outcomes@[i as int].data.is_none() {
                    assert((old(self).stats.failed_message_ids@ + so_far).push(
                        outcomes@[i as int].message_id,
                    ) =~= old(self).stats.failed_message_ids@ + so_far.push(
                        outcomes@[i as int].message_id,
                    ));
                }
            }
            i = i + 1;
        }
        assert(outcomes@.take(outcomes@.len() as int) =~= outcomes@);
        self.done[b] = true;
    }

    /// Whether batch `b` is in.
    pub fn is_done(&self, b: usize) -> (done: bool)
        requires
            self.wf(),
            b < self.batches@.len(),
        ensures
            done == self.done@[b as int],
    {
        self.done[b]
    }

    /// Whether every batch is in.
    pub fn is_complete(&self) -> (complete: bool)
        requires
            self.wf(),
        ensures
            complete == self.complete(),
            complete == self.stats.complete(),
    {
        let mut b: usize = 0;
        while b < self.done.len()
            invariant
                b <= self.done@.len(),
                self.wf(),
                forall|j: int| 0 <= j < b ==> self.done@[j],
            decreases self.done.len() - b,
        {
            if !self.done[b] {
                proof {
                    lemma_done_sum_missing(
                        self.batches@,
                        self.done@,
                        self.batches@.len() as int,
                        b as int,
                    );
                    lemma_size_sum(
                        self.batches@,
                        self.file.segments.segment@.len(),
                        self.batches@.len() as int,
                    );
                }
                return false;
            }
            b = b + 1;
        }
        proof {
            lemma_done_sum_all(self.batches@, self.done@, self.batches@.len() as int);
            lemma_size_sum(
                self.batches@,
                self.file.segments.segment@.len(),
                self.batches@.len() as int,
            );
        }
        true
    }

    /// The result of the file, once every batch is in: every segment of the
    /// file is counted once, as downloaded or as failed.
    pub fn finish(self, filename: String, path: String, elapsed_ms: u64) -> (result:
        DownloadResult)
        requires
            self.wf(),
            self.complete(),
        ensures
            result.segments_downloaded + result.segments_failed
                == self.file.segments.segment@.len(),
            result.segments_downloaded == self.stats.segments_ok,
            result.segments_failed == self.stats.segments_failed,
            result.failed_message_ids == self.stats.failed_message_ids,
            result.failed_message_ids@.len() == result.segments_failed,
            result.size == self.stats.bytes_written,
            result.expected_size == total_bytes(self.file.segments.segment@),
            result.filename == filename,
            result.path == path,
            result.download_time_ms == elapsed_ms,
    {
        proof {
            lemma_done_sum_all(self.batches@, self.done@, self.batches@.len() as int);
            lemma_size_sum(
                self.batches@,
                self.file.segments.segment@.len(),
                self.batches@.len() as int,
            );
        }
        let expected: u64 = match crate::layout::expected_size(&self.file.segments.segment) {
            Some(size) => size,
            None => 0,
        };
        file_result(filename, path, expected, self.stats, elapsed_ms)
    }
}

/// Where no batch is in, nothing is in.
proof fn lemma_none_done(batches: Seq<(usize, usize)>, done: Seq<bool>, k: int)
    requires
        done.len() == batches.len(),
        0 <= k <= batches.len(),
        forall|j: int| 0 <= j < done.len() ==> !done[j],
    ensures
        done_sum(batches, done, k) == 0,
    decreases k,
{
    if k > 0 {
        lemma_none_done(batches, done, k - 1);
    }
}

} // verus!
