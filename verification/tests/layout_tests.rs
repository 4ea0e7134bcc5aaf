use dl_nzb::layout::{expected_size, segment_offsets, split_batches};
use dl_nzb::nzb::NzbSegment;

fn segments(sizes: &[u64]) -> Vec<NzbSegment> {
    sizes
        .iter()
        .enumerate()
        .map(|(i, bytes)| NzbSegment {
            bytes: *bytes,
            number: i as u32 + 1,
            message_id: format!("part{}@example", i + 1),
        })
        .collect()
}

#[test]
fn offsets_are_running_sums_of_expected_bytes() {
    let s = segments(&[1000, 1000, 500, 0, 7]);
    assert_eq!(segment_offsets(&s), Some(vec![0, 1000, 2000, 2500, 2500]));
    assert_eq!(expected_size(&s), Some(2507));
}

#[test]
fn single_segment_starts_at_zero() {
    let s = segments(&[739067]);
    assert_eq!(segment_offsets(&s), Some(vec![0]));
    assert_eq!(expected_size(&s), Some(739067));
}

#[test]
fn no_segments_no_offsets() {
    assert_eq!(segment_offsets(&Vec::new()), Some(Vec::new()));
    assert_eq!(expected_size(&Vec::new()), Some(0));
}

#[test]
fn size_beyond_64_bits_is_refused() {
    let s = segments(&[u64::MAX, 1]);
    assert_eq!(segment_offsets(&s), None);
    assert_eq!(expected_size(&s), None);
    let s = segments(&[u64::MAX - 1, 1]);
    assert_eq!(segment_offsets(&s), Some(vec![0, u64::MAX - 1]));
    assert_eq!(expected_size(&s), Some(u64::MAX));
    let s = segments(&[5, u64::MAX, 1]);
    assert_eq!(segment_offsets(&s), None);
}

#[test]
fn slots_do_not_overlap() {
    let s = segments(&[10, 20, 30, 40]);
    let offsets = segment_offsets(&s).unwrap();
    for i in 0..s.len() {
        for j in (i + 1)..s.len() {
            assert!(offsets[i] + s[i].bytes <= offsets[j]);
        }
        assert!(offsets[i] + s[i].bytes <= expected_size(&s).unwrap());
    }
}

#[test]
fn batches_of_fifty() {
    assert_eq!(split_batches(0, 50), Vec::new());
    assert_eq!(split_batches(1, 50), vec![(0, 1)]);
    assert_eq!(split_batches(50, 50), vec![(0, 50)]);
    assert_eq!(split_batches(51, 50), vec![(0, 50), (50, 51)]);
    assert_eq!(split_batches(120, 50), vec![(0, 50), (50, 100), (100, 120)]);
    assert_eq!(split_batches(3, 1), vec![(0, 1), (1, 2), (2, 3)]);
    assert_eq!(split_batches(10, usize::MAX), vec![(0, 10)]);
}

#[test]
fn batches_cover_every_segment_once() {
    for count in [0usize, 1, 49, 50, 51, 99, 100, 101, 250] {
        for size in [1usize, 7, 50, 100] {
            let batches = split_batches(count, size);
            assert_eq!(batches.len(), (count + size - 1) / size);
            let mut next = 0;
            for (start, end) in &batches {
                assert_eq!(*start, next);
                assert!(end > start && end - start <= size);
                next = *end;
            }
            assert_eq!(next, count);
        }
    }
}
