use dl_nzb::accounting::{outcome_for, tally, FileStats, SegmentOutcome};
use dl_nzb::layout::segment_offsets;
use dl_nzb::nzb::NzbSegment;

fn outcome(number: u32, data: Option<&[u8]>) -> SegmentOutcome {
    SegmentOutcome {
        segment_number: number,
        message_id: format!("part{}@example", number),
        data: data.map(|d| d.to_vec()),
        file_offset: (number as u64 - 1) * 1000,
    }
}

#[test]
fn ok_and_failed_add_up_to_the_segments() {
    let outcomes = vec![
        outcome(1, Some(b"aaaa")),
        outcome(2, None),
        outcome(3, Some(b"cc")),
        outcome(4, None),
        outcome(5, Some(b"")),
    ];
    let stats = tally(&outcomes);
    assert_eq!(stats.total, 5);
    assert_eq!(stats.segments_ok, 3);
    assert_eq!(stats.segments_failed, 2);
    assert_eq!(stats.segments_ok + stats.segments_failed, outcomes.len());
    assert_eq!(stats.bytes_written, 6);
    assert_eq!(stats.failed_message_ids, vec!["part2@example", "part4@example"]);
    assert!(stats.is_complete());
}

#[test]
fn tally_of_nothing() {
    let stats = tally(&Vec::new());
    assert_eq!(stats.total, 0);
    assert_eq!(stats.segments_ok, 0);
    assert_eq!(stats.segments_failed, 0);
    assert_eq!(stats.bytes_written, 0);
    assert!(stats.failed_message_ids.is_empty());
    assert!(stats.is_complete());
}

#[test]
fn all_failed() {
    let outcomes: Vec<SegmentOutcome> = (1..=10).map(|n| outcome(n, None)).collect();
    let stats = tally(&outcomes);
    assert_eq!(stats.segments_ok, 0);
    assert_eq!(stats.segments_failed, 10);
    assert_eq!(stats.failed_message_ids.len(), 10);
    assert_eq!(stats.failed_message_ids[6], "part7@example");
}

#[test]
fn record_counts_one_outcome_at_a_time() {
    let mut stats = FileStats::new(3);
    assert!(!stats.is_complete());
    stats.record(&outcome(2, Some(b"12345")));
    assert_eq!((stats.segments_ok, stats.segments_failed, stats.bytes_written), (1, 0, 5));
    stats.record(&outcome(1, None));
    assert_eq!((stats.segments_ok, stats.segments_failed, stats.bytes_written), (1, 1, 5));
    assert!(!stats.is_complete());
    stats.record(&outcome(3, Some(b"6")));
    assert_eq!((stats.segments_ok, stats.segments_failed, stats.bytes_written), (2, 1, 6));
    assert!(stats.is_complete());
    assert_eq!(stats.failed_message_ids, vec!["part1@example"]);
}

#[test]
fn outcome_carries_the_offset_of_its_segment() {
    let segments: Vec<NzbSegment> = [100u64, 200, 300]
        .iter()
        .enumerate()
        .map(|(i, bytes)| NzbSegment {
            bytes: *bytes,
            number: i as u32 + 1,
            message_id: format!("m{}", i + 1),
        })
        .collect();
    let offsets = segment_offsets(&segments).unwrap();
    let outcome = outcome_for(&segments, &offsets, 2, Some(vec![9, 9]));
    assert_eq!(outcome.segment_number, 3);
    assert_eq!(outcome.message_id, "m3");
    assert_eq!(outcome.file_offset, 300);
    assert_eq!(outcome.data, Some(vec![9, 9]));
    let outcome = outcome_for(&segments, &offsets, 0, None);
    assert_eq!(outcome.file_offset, 0);
    assert_eq!(outcome.data, None);
}
