//! Per-file accounting: what became of each segment, and the counters that
//! a file's result is made of.

use crate::nzb::NzbSegment;
use vstd::prelude::*;

verus! {

/// What became of one segment. `data` is absent where the fetch failed: the
/// article is missing, its body did not decode, or the transport broke.
#[derive(Debug)]
pub struct SegmentOutcome {
    pub segment_number: u32,
    pub message_id: String,
    pub data: Option<Vec<u8>>,
    /// Where the segment starts in the output file.
    pub file_offset: u64,
}

/// The counters of one file while its segments come in.
#[derive(Debug)]
pub struct FileStats {
    /// The number of segments of the file.
    pub total: usize,
    pub segments_ok: usize,
    pub segments_failed: usize,
    /// The bytes handed to the writer, held at `u64::MAX` where the sum
    /// would pass it.
    pub bytes_written: u64,
    /// The message ids of the failed segments, in the order recorded.
    pub failed_message_ids: Vec<String>,
}

/// How many of the outcomes carry data.
pub open spec fn count_ok(outcomes: Seq<SegmentOutcome>) -> nat
    decreases outcomes.len(),
{
    if outcomes.len() == 0 {
        0
    } else {
        count_ok(outcomes.drop_last()) + if outcomes.last().data.is_some() {
            1nat
        } else {
            0nat
        }
    }
}

/// How many of the outcomes carry no data.
pub open spec fn count_failed(outcomes: Seq<SegmentOutcome>) -> nat
    decreases outcomes.len(),
{
    if outcomes.len() == 0 {
        0
    } else {
        count_failed(outcomes.drop_last()) + if outcomes.last().data.is_none() {
            1nat
        } else {
            0nat
        }
    }
}

/// The number of bytes that the outcomes carry, all together.
pub open spec fn bytes_of(outcomes: Seq<SegmentOutcome>) -> nat
    decreases outcomes.len(),
{
    if outcomes.len() == 0 {
        0
    } else {
        bytes_of(outcomes.drop_last()) + match outcomes.last().data {
            Some(d) => d@.len(),
            None => 0nat,
        }
    }
}

/// The message ids of the outcomes without data, in order.
pub open spec fn failed_ids(outcomes: Seq<SegmentOutcome>) -> Seq<String>
    decreases outcomes.len(),
{
    if outcomes.len() == 0 {
        Seq::empty()
    } else if outcomes.last().data.is_none() {
        failed_ids(outcomes.drop_last()).push(outcomes.last().message_id)
    } else {
        failed_ids(outcomes.drop_last())
    }
}

/// `n` as a `u64`, held at `u64::MAX` where it is larger.
pub open spec fn capped(n: nat) -> u64 {
    if n <= u64::MAX {
        n as u64
    } else {
        u64::MAX
    }
}

/// Every outcome is a success or a failure, never both: the two counts add
/// up to the number of outcomes, and there is one failed id per failure.
pub proof fn lemma_counts_add_up(outcomes: Seq<SegmentOutcome>)
    ensures
        count_ok(outcomes) + count_failed(outcomes) == outcomes.len(),
        failed_ids(outcomes).len() == count_failed(outcomes),
    decreases outcomes.len(),
{
    if outcomes.len() > 0 {
        lemma_counts_add_up(outcomes.drop_last());
    }
}

impl FileStats {
    /// The counters are consistent: no more outcomes recorded than the file
    /// has segments, and one failed id per failed segment.
    pub open spec fn wf(&self) -> bool {
        &&& self.segments_ok + self.segments_failed <= self.total
        &&& self.failed_message_ids@.len() == self.segments_failed
    }

    /// The number of outcomes recorded so far.
    pub open spec fn recorded(&self) -> nat {
        (self.segments_ok + self.segments_failed) as nat
    }

    /// Whether an outcome has been recorded for every segment.
    pub open spec fn complete(&self) -> bool {
        self.segments_ok + self.segments_failed == self.total
    }

    /// The counters of a file of `total` segments, before any outcome.
    pub fn new(total: usize) -> (stats: FileStats)
        ensures
            stats.wf(),
            stats.total == total,
            stats.segments_ok == 0,
            stats.segments_failed == 0,
            stats.bytes_written == 0,
            stats.failed_message_ids@.len() == 0,
    {
        FileStats {
            total,
            segments_ok: 0,
            segments_failed: 0,
            bytes_written: 0,
            failed_message_ids: Vec::new(),
        }
    }

    /// Records one outcome: a success adds its bytes, a failure its
    /// message id.
    pub fn record(&mut self, outcome: &SegmentOutcome)
        requires
            old(self).wf(),
            old(self).recorded() < old(self).total,
        ensures
            final(self).wf(),
            final(self).total == old(self).total,
            final(self).recorded() == old(self).recorded() + 1,
            outcome.data.is_some() ==> {
                &&& final(self).segments_ok == old(self).segments_ok + 1
                &&& final(self).segments_failed == old(self).segments_failed
                &&& final(self).bytes_written == capped(
                    old(self).bytes_written as nat + outcome.data.unwrap()@.len(),
                )
                &&& final(self).failed_message_ids@ == old(self).failed_message_ids@
            },
            outcome.data.is_none() ==> {
                &&& final(self).segments_ok == old(self).segments_ok
                &&& final(self).segments_failed == old(self).segments_failed + 1
                &&& final(self).bytes_written == old(self).bytes_written
                &&& final(self).failed_message_ids@ == old(self).failed_message_ids@.push(
                    outcome.message_id,
                )
            },
    {
        match &outcome.data {
            Some(data) => {
                self.segments_ok = self.segments_ok + 1;
                let len: usize = data.len();
                let len64: u64 = len as u64;
                self.bytes_written = self.bytes_written.saturating_add(len64);
            },
            None => {
                self.segments_failed = self.segments_failed + 1;
                self.failed_message_ids.push(outcome.message_id.clone());
            },
        }
    }

    /// Whether an outcome has been recorded for every segment.
    pub fn is_complete(&self) -> (done: bool)
        requires
            self.wf(),
        ensures
            done == self.complete(),
    {
        self.segments_ok + self.segments_failed == self.total
    }
}

/// The counters of a file whose outcomes are `outcomes`, one per segment.
pub fn tally(outcomes: &Vec<SegmentOutcome>) -> (stats: FileStats)
    ensures
        stats.wf(),
        stats.complete(),
        stats.total == outcomes@.len(),
        stats.segments_ok == count_ok(outcomes@),
        stats.segments_failed == count_failed(outcomes@),
        stats.segments_ok + stats.segments_failed == outcomes@.len(),
        stats.bytes_written == capped(bytes_of(outcomes@)),
        stats.failed_message_ids@ == failed_ids(outcomes@),
{
    let mut stats: FileStats = FileStats::new(outcomes.len());
    let mut i: usize = 0;
    assert(outcomes@.take(0) =~= Seq::<SegmentOutcome>::empty());
    assert(stats.failed_message_ids@ =~= failed_ids(outcomes@.take(0)));
    while i < outcomes.len()
        invariant
            i <= outcomes.len(),
            stats.wf(),
            stats.total == outcomes@.len(),
            stats.segments_ok == count_ok(outcomes@.take(i as int)),
            stats.segments_failed == count_failed(outcomes@.take(i as int)),
            stats.bytes_written == capped(bytes_of(outcomes@.take(i as int))),
            stats.failed_message_ids@ == failed_ids(outcomes@.take(i as int)),
        decreases outcomes.len() - i,
    {
        proof {
            lemma_counts_add_up(outcomes@.take(i as int));
            assert(outcomes@.take(i + 1).drop_last() =~= outcomes@.take(i as int));
            assert(outcomes@.take(i + 1).last() == outcomes@[i as int]);
        }
        stats.record(&outcomes[i]);
        i = i + 1;
    }
    proof {
        assert(outcomes@.take(i as int) =~= outcomes@);
        lemma_counts_add_up(outcomes@);
    }
    stats
}

/// The outcome of segment `k` (counted from 0) of a file, given what the
/// fetch brought for it.
pub fn outcome_for(segments: &Vec<NzbSegment>, offsets: &Vec<u64>, k: usize, data: Option<
    Vec<u8>,
>) -> (outcome: SegmentOutcome)
    requires
        k < segments@.len(),
        offsets@.len() == segments@.len(),
    ensures
        outcome.segment_number == segments@[k as int].number,
        outcome.message_id == segments@[k as int].message_id,
        outcome.file_offset == offsets@[k as int],
        outcome.data == data,
{
    SegmentOutcome {
        segment_number: segments[k].number,
        message_id: segments[k].message_id.clone(),
        data,
        file_offset: offsets[k],
    }
}

} // verus!
