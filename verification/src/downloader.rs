//! The rules of a download: what is asked of the server for a file, when a
//! file on disk counts as complete, how long a batch waits for a
//! connection, and what the result of a file says.

use crate::accounting::{outcome_for, FileStats, SegmentOutcome};
use crate::connection::SegmentRequest;
use crate::error::{DlNzbError, DownloadError};
use crate::nzb::{NzbFile, NzbSegment};
use vstd::prelude::*;
use vstd::string::*;

verus! {

/// What the download of one file came to.
#[derive(Debug)]
pub struct DownloadResult {
    pub filename: String,
    pub path: String,
    /// The size of the file as the manifest gives it.
    pub expected_size: u64,
    /// The bytes written.
    pub size: u64,
    pub segments_downloaded: usize,
    pub segments_failed: usize,
    /// Milliseconds from the start of the file to its last write.
    pub download_time_ms: u64,
    /// The message ids of the failed segments, for the repair step.
    pub failed_message_ids: Vec<String>,
}

/// The result of a file whose counters are complete.
pub fn file_result(
    filename: String,
    path: String,
    expected_size: u64,
    stats: FileStats,
    elapsed_ms: u64,
) -> (result: DownloadResult)
    requires
        stats.wf(),
        stats.complete(),
    ensures
        result.segments_downloaded + result.segments_failed == stats.total,
        result.segments_downloaded == stats.segments_ok,
        result.segments_failed == stats.segments_failed,
        result.failed_message_ids == stats.failed_message_ids,
        result.failed_message_ids@.len() == result.segments_failed,
        result.size == stats.bytes_written,
        result.expected_size == expected_size,
        result.filename == filename,
        result.path == path,
        result.download_time_ms == elapsed_ms,
{
    DownloadResult {
        filename,
        path,
        expected_size,
        size: stats.bytes_written,
        segments_downloaded: stats.segments_ok,
        segments_failed: stats.segments_failed,
        download_time_ms: elapsed_ms,
        failed_message_ids: stats.failed_message_ids,
    }
}

/// The result of a file that is complete on disk and was not fetched again:
/// every segment counts as downloaded, none as failed, and no time was
/// spent.
pub fn resumed_result(filename: String, path: String, expected_size: u64, segments: usize) -> (result:
    DownloadResult)
    ensures
        result.segments_downloaded == segments,
        result.segments_failed == 0,
        result.failed_message_ids@.len() == 0,
        result.size == expected_size,
        result.expected_size == expected_size,
        result.download_time_ms == 0,
        result.filename == filename,
        result.path == path,
{
    DownloadResult {
        filename,
        path,
        expected_size,
        size: expected_size,
        segments_downloaded: segments,
        segments_failed: 0,
        download_time_ms: 0,
        failed_message_ids: Vec::new(),
    }
}

/// The length of one sample of the resume check.
pub const SAMPLE_LEN: u64 = 1024;

/// The length of the samples taken of a file of `size` bytes: 1 KiB, or the
/// whole file where it is shorter.
pub open spec fn sample_len(size: u64) -> u64 {
    if size < SAMPLE_LEN {
        size
    } else {
        SAMPLE_LEN
    }
}

/// Where the resume check reads a file of `size` bytes: at its start, at
/// its middle and at its end, each time [`sample_len`] bytes. Every window
/// lies inside the file.
pub fn sample_windows(size: u64) -> (windows: [(u64, u64); 3])
    ensures
        windows[0] == (0u64, sample_len(size)),
        windows[1] == ((size / 2) as u64, if size - size / 2 < SAMPLE_LEN {
            (size - size / 2) as u64
        } else {
            SAMPLE_LEN
        }),
        windows[2] == ((size - sample_len(size)) as u64, sample_len(size)),
        forall|k: int| 0 <= k < 3 ==> windows[k].0 + windows[k].1 <= size,
{
    let len: u64 = if size < SAMPLE_LEN {
        size
    } else {
        SAMPLE_LEN
    };
    let middle: u64 = size / 2;
    let middle_len: u64 = if size - middle < SAMPLE_LEN {
        size - middle
    } else {
        SAMPLE_LEN
    };
    [(0, len), (middle, middle_len), (size - len, len)]
}

/// Whether any of the bytes is not zero.
pub fn has_nonzero(bytes: &[u8]) -> (found: bool)
    ensures
        found == exists|i: int| 0 <= i < bytes@.len() && bytes@[i] != 0,
{
    let mut i: usize = 0;
    while i < bytes.len()
        invariant
            i <= bytes.len(),
            forall|k: int| 0 <= k < i ==> bytes@[k] == 0,
        decreases bytes.len() - i,
    {
        if bytes[i] != 0 {
            return true;
        }
        i = i + 1;
    }
    false
}

/// Whether a file on disk counts as complete: it has exactly the expected
/// size, and one of its samples holds a byte that is not zero. A file of
/// the right size that is all zeros was allocated and never written.
pub open spec fn counts_as_complete(
    existing_size: Option<u64>,
    expected_size: u64,
    sample_has_data: bool,
) -> bool {
    existing_size == Some(expected_size) && sample_has_data
}

/// Whether the fetch of a file is skipped: resume is not switched off, and
/// the file on disk counts as complete.
pub fn should_skip(
    force_redownload: bool,
    existing_size: Option<u64>,
    expected_size: u64,
    sample_has_data: bool,
) -> (skip: bool)
    ensures
        skip == (!force_redownload && counts_as_complete(
            existing_size,
            expected_size,
            sample_has_data,
        )),
{
    if force_redownload {
        return false;
    }
    match existing_size {
        Some(size) => size == expected_size && sample_has_data,
        None => false,
    }
}

/// Whether the samples need to be read at all: resume is on and the file on
/// disk has the expected size.
pub fn needs_sampling(force_redownload: bool, existing_size: Option<u64>, expected_size: u64) -> (needed:
    bool)
    ensures
        needed == (!force_redownload && existing_size == Some(expected_size)),
{
    if force_redownload {
        return false;
    }
    match existing_size {
        Some(size) => size == expected_size,
        None => false,
    }
}

/// The requests for the segments of a file, in the order of the manifest,
/// all in the first newsgroup of the file.
pub fn segment_requests(file: &NzbFile) -> (requests: Vec<SegmentRequest>)
    requires
        file.groups.group@.len() > 0,
    ensures
        requests@.len() == file.segments.segment@.len(),
        forall|k: int|
            0 <= k < requests@.len() ==> requests@[k].message_id
                == file.segments.segment@[k].message_id && requests@[k].segment_number
                == file.segments.segment@[k].number && requests@[k].group
                == file.groups.group@[0].name,
{
    let mut requests: Vec<SegmentRequest> = Vec::new();
    let mut i: usize = 0;
    while i < file.segments.segment.len()
        invariant
            i <= file.segments.segment.len(),
            file.groups.group@.len() > 0,
            requests@.len() == i,
            forall|k: int|
                0 <= k < i ==> requests@[k].message_id == file.segments.segment@[k].message_id
                    && requests@[k].segment_number == file.segments.segment@[k].number
                    && requests@[k].group == file.groups.group@[0].name,
        decreases file.segments.segment.len() - i,
    {
        let segment: &NzbSegment = &file.segments.segment[i];
        requests.push(
            SegmentRequest {
                message_id: segment.message_id.clone(),
                group: file.groups.group[0].name.clone(),
                segment_number: segment.number,
            },
        );
        i = i + 1;
    }
    requests
}

/// The requests `start..end` of a file, for one batch.
pub fn batch_requests(requests: &Vec<SegmentRequest>, start: usize, end: usize) -> (batch: Vec<
    SegmentRequest,
>)
    requires
        start <= end <= requests@.len(),
    ensures
        batch@.len() == end - start,
        forall|k: int|
            0 <= k < batch@.len() ==> batch@[k].message_id == requests@[start + k].message_id
                && batch@[k].group == requests@[start + k].group && batch@[k].segment_number
                == requests@[start + k].segment_number,
{
    let mut batch: Vec<SegmentRequest> = Vec::new();
    let mut i: usize = start;
    while i < end
        invariant
            start <= i <= end <= requests@.len(),
            batch@.len() == i - start,
            forall|k: int|
                0 <= k < batch@.len() ==> batch@[k].message_id == requests@[start + k].message_id
                    && batch@[k].group == requests@[start + k].group && batch@[k].segment_number
                    == requests@[start + k].segment_number,
        decreases end - i,
    {
        batch.push(
            SegmentRequest {
                message_id: requests[i].message_id.clone(),
                group: requests[i].group.clone(),
                segment_number: requests[i].segment_number,
            },
        );
        i = i + 1;
    }
    batch
}

/// The results of a batch for which no connection could be had: every
/// request has failed.
pub fn failed_batch(count: usize) -> (results: Vec<Option<Vec<u8>>>)
    ensures
        results@.len() == count,
        forall|k: int| 0 <= k < count ==> results@[k].is_none(),
{
    let mut results: Vec<Option<Vec<u8>>> = Vec::new();
    while results.len() < count
        invariant
            results@.len() <= count,
            forall|k: int| 0 <= k < results@.len() ==> results@[k].is_none(),
        decreases count - results.len(),
    {
        results.push(None);
    }
    results
}

/// The outcomes of a batch: result `k` of the batch belongs to segment
/// `start + k` of the file and lands at that segment's offset.
pub fn batch_outcomes(
    segments: &Vec<NzbSegment>,
    offsets: &Vec<u64>,
    start: usize,
    results: Vec<Option<Vec<u8>>>,
) -> (outcomes: Vec<SegmentOutcome>)
    requires
        offsets@.len() == segments@.len(),
        start + results@.len() <= segments@.len(),
    ensures
        outcomes@.len() == results@.len(),
        forall|k: int|
            0 <= k < outcomes@.len() ==> outcomes@[k].data == results@[k]
                && outcomes@[k].segment_number == segments@[start + k].number
                && outcomes@[k].message_id == segments@[start + k].message_id
                && outcomes@[k].file_offset == offsets@[start + k],
{
    let count: usize = results.len();
    let limit: usize = segments.len();
    let ghost all = results@;
    let mut results = results;
    let mut reversed: Vec<SegmentOutcome> = Vec::new();
    while results.len() > 0
        invariant
            count == all.len(),
            limit == segments@.len(),
            offsets@.len() == segments@.len(),
            start + count <= segments@.len(),
            results@.len() <= count,
            results@ == all.take(results@.len() as int),
            reversed@.len() == count - results@.len(),
            forall|j: int|
                0 <= j < reversed@.len() ==> reversed@[j].data == all[count - 1 - j]
                    && reversed@[j].segment_number == segments@[start + count - 1 - j].number
                    && reversed@[j].message_id == segments@[start + count - 1 - j].message_id
                    && reversed@[j].file_offset == offsets@[start + count - 1 - j],
        decreases results.len(),
    {
        let k: usize = results.len() - 1;
        let data: Option<Vec<u8>> = results.pop().unwrap();
        assert(data == all[k as int]);
        assert(results@ =~= all.take(k as int));
        reversed.push(outcome_for(segments, offsets, start + k, data));
    }
    let ghost back = reversed@;
    let mut outcomes: Vec<SegmentOutcome> = Vec::new();
    while reversed.len() > 0
        invariant
            back.len() == count,
            reversed@.len() <= count,
            reversed@ == back.take(reversed@.len() as int),
            outcomes@.len() == count - reversed@.len(),
            forall|k: int| 0 <= k < outcomes@.len() ==> outcomes@[k] == back[count - 1 - k],
        decreases reversed.len(),
    {
        let last: usize = reversed.len() - 1;
        let outcome: SegmentOutcome = reversed.pop().unwrap();
        assert(outcome == back[last as int]);
        assert(reversed@ =~= back.take(last as int));
        outcomes.push(outcome);
    }
    outcomes
}

/// Refuses a manifest without files.
pub fn require_files(count: usize) -> (r: Result<(), DlNzbError>)
    ensures
        r.is_ok() == (count > 0),
        r.is_err() ==> (r.unwrap_err() matches DlNzbError::Download(
            DownloadError::InsufficientSegments { available, required },
        ) && available == 0 && required == 1),
{
    if count == 0 {
        Err(
            DlNzbError::Download(
                DownloadError::InsufficientSegments { available: 0, required: 1 },
            ),
        )
    } else {
        Ok(())
    }
}

/// Whether the file of a result is removed when partial files are cleaned
/// up: it lost at least one segment.
pub fn is_partial(result: &DownloadResult) -> (partial: bool)
    ensures
        partial == (result.segments_failed > 0),
{
    result.segments_failed > 0
}

/// How many of the first `k` results lost a segment.
pub open spec fn partial_count(results: Seq<DownloadResult>, k: int) -> nat
    decreases k,
{
    if k <= 0 {
        0
    } else {
        partial_count(results, k - 1) + if results[k - 1].segments_failed > 0 {
            1nat
        } else {
            0nat
        }
    }
}

/// The bytes written for the first `k` results.
pub open spec fn written_bytes(results: Seq<DownloadResult>, k: int) -> nat
    decreases k,
{
    if k <= 0 {
        0
    } else {
        written_bytes(results, k - 1) + results[k - 1].size as nat
    }
}

/// The summary of a download: the bytes written, held at `u64::MAX` where
/// the sum would pass it, and the number of files that lost a segment.
pub fn summarize(results: &Vec<DownloadResult>) -> (summary: (u64, usize))
    ensures
        summary.0 == crate::nzb::capped_u64(written_bytes(results@, results@.len() as int)),
        summary.1 == partial_count(results@, results@.len() as int),
{
    let mut total: u64 = 0;
    let mut failed: usize = 0;
    let mut i: usize = 0;
    while i < results.len()
        invariant
            i <= results.len(),
            total == crate::nzb::capped_u64(written_bytes(results@, i as int)),
            failed == partial_count(results@, i as int),
            failed <= i,
        decreases results.len() - i,
    {
        total = total.saturating_add(results[i].size);
        if results[i].segments_failed > 0 {
            failed = failed + 1;
        }
        i = i + 1;
    }
    (total, failed)
}

/// The largest number of files that the availability check looks at.
pub const AVAILABILITY_SAMPLE: usize = 20;

/// How many of the first `k` files have a segment.
pub open spec fn files_with_segments(files: Seq<NzbFile>, k: int) -> nat
    decreases k,
{
    if k <= 0 {
        0
    } else {
        files_with_segments(files, k - 1) + if files[k - 1].segments.segment@.len() > 0 {
            1nat
        } else {
            0nat
        }
    }
}

/// How many files the availability check looks at: the first twenty, or all
/// where there are fewer.
pub open spec fn sample_span(files: Seq<NzbFile>) -> int {
    if files.len() < AVAILABILITY_SAMPLE {
        files.len() as int
    } else {
        AVAILABILITY_SAMPLE as int
    }
}

/// The articles that the availability check asks for: the first segment of
/// each of the first twenty files, in the order of the manifest. A file
/// without segments gives none.
pub fn availability_sample(files: &Vec<NzbFile>) -> (ids: Vec<String>)
    ensures
        ids@.len() == files_with_segments(files@, sample_span(files@)),
        ids@.len() <= AVAILABILITY_SAMPLE,
        forall|k: int|
            0 <= k < sample_span(files@) && files@[k].segments.segment@.len() > 0
                ==> ids@[files_with_segments(files@, k) as int]
                == files@[k].segments.segment@[0].message_id,
{
    let span: usize = if files.len() < AVAILABILITY_SAMPLE {
        files.len()
    } else {
        AVAILABILITY_SAMPLE
    };
    let mut ids: Vec<String> = Vec::new();
    let mut i: usize = 0;
    while i < span
        invariant
            i <= span <= files@.len(),
            span == sample_span(files@),
            ids@.len() == files_with_segments(files@, i as int),
            ids@.len() <= i,
            forall|k: int|
                0 <= k < i && files@[k].segments.segment@.len() > 0 ==> ids@[files_with_segments(
                    files@,
                    k,
                ) as int] == files@[k].segments.segment@[0].message_id,
        decreases span - i,
    {
        if files[i].segments.segment.len() > 0 {
            proof {
                lemma_files_with_segments_grows(files@, i as int);
            }
            ids.push(files[i].segments.segment[0].message_id.clone());
        }
        i = i + 1;
    }
    ids
}

/// The count of files with segments grows with the number of files looked
/// at: among the first `k`, fewer than `k + 1` have been counted before file
/// `j < k`.
proof fn lemma_files_with_segments_grows(files: Seq<NzbFile>, k: int)
    requires
        0 <= k,
    ensures
        forall|j: int| 0 <= j <= k ==> files_with_segments(files, j) <= files_with_segments(files, k),
        forall|j: int|
            0 <= j < k && files[j].segments.segment@.len() > 0 ==> files_with_segments(files, j)
                < files_with_segments(files, k),
    decreases k,
{
    if k > 0 {
        lemma_files_with_segments_grows(files, k - 1);
    }
}

/// What the availability check found.
#[derive(Debug, Clone, Copy)]
pub struct Availability {
    /// The articles that the server has.
    pub available: usize,
    /// The articles that it lacks.
    pub missing: usize,
    /// The articles asked for.
    pub sample_size: usize,
}

/// What follows from the availability check.
#[derive(Debug, Clone, Copy)]
pub enum AvailabilityVerdict {
    /// Nothing of the sample is there: the download is called off.
    Abort,
    /// Part of the sample is missing: the download goes on with a warning.
    Warn,
    /// All of the sample is there.
    Proceed,
}

/// How many of the first `k` answers say that the article exists.
pub open spec fn count_true(answers: Seq<bool>, k: int) -> nat
    decreases k,
{
    if k <= 0 {
        0
    } else {
        count_true(answers, k - 1) + if answers[k - 1] {
            1nat
        } else {
            0nat
        }
    }
}

/// Counts the answers of the availability check.
pub fn availability(answers: &Vec<bool>) -> (found: Availability)
    ensures
        found.sample_size == answers@.len(),
        found.available == count_true(answers@, answers@.len() as int),
        found.available + found.missing == found.sample_size,
{
    let mut available: usize = 0;
    let mut i: usize = 0;
    while i < answers.len()
        invariant
            i <= answers.len(),
            available == count_true(answers@, i as int),
            available <= i,
        decreases answers.len() - i,
    {
        if answers[i] {
            available = available + 1;
        }
        i = i + 1;
    }
    Availability { available, missing: answers.len() - available, sample_size: answers.len() }
}

/// What follows from the availability check: call the download off where
/// nothing is there, warn where something is missing, go on otherwise.
pub fn availability_verdict(found: &Availability) -> (verdict: AvailabilityVerdict)
    ensures
        found.available == 0 ==> verdict is Abort,
        found.available > 0 && found.missing > 0 ==> verdict is Warn,
        found.available > 0 && found.missing == 0 ==> verdict is Proceed,
{
    if found.available == 0 {
        AvailabilityVerdict::Abort
    } else if found.missing > 0 {
        AvailabilityVerdict::Warn
    } else {
        AvailabilityVerdict::Proceed
    }
}

/// A file is skipped only where it has the size that the manifest gives for
/// it: the sum of the sizes of its segments. Never where resume is switched
/// off, and never where every sample is zero.
pub proof fn lemma_skip_means_full_size(
    force_redownload: bool,
    existing_size: Option<u64>,
    segments: Seq<NzbSegment>,
    sample_has_data: bool,
)
    requires
        crate::nzb::total_bytes(segments) <= u64::MAX,
        !force_redownload && counts_as_complete(
            existing_size,
            crate::nzb::total_bytes(segments) as u64,
            sample_has_data,
        ),
    ensures
        existing_size == Some(crate::nzb::total_bytes(segments) as u64),
        sample_has_data,
{
}

} // verus!
