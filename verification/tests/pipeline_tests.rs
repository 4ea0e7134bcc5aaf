use dl_nzb::error::{DlNzbError, NntpError};
use dl_nzb::pipeline::{segment_result, Pipeline};
use dl_nzb::yenc::encode_body;

fn feed_article(pipeline: &mut Pipeline, payload: &[u8]) {
    pipeline.on_line(b"222 0 <id> body follows\r\n");
    let encoded = encode_body(payload, 128);
    for line in encoded.split(|b| *b == b'\n') {
        if line.is_empty() {
            continue;
        }
        let mut wire = Vec::new();
        if line.first() == Some(&b'.') {
            wire.push(b'.');
        }
        wire.extend_from_slice(line);
        wire.extend_from_slice(b"\r\n");
        pipeline.on_line(&wire);
    }
    pipeline.on_line(b".\r\n");
}

#[test]
fn empty_batch_is_done_at_once() {
    let pipeline = Pipeline::new(0, true);
    assert!(pipeline.is_finished());
    assert!(pipeline.is_reusable());
    assert_eq!(pipeline.into_results(), Vec::<Option<Vec<u8>>>::new());
}

#[test]
fn one_article_is_decoded() {
    let mut pipeline = Pipeline::new(1, true);
    assert!(!pipeline.is_finished());
    pipeline.on_line(b"211 10 1 10 alt.binaries.test\r\n");
    assert!(!pipeline.is_finished());
    feed_article(&mut pipeline, b"hello world");
    assert!(pipeline.is_finished());
    assert!(pipeline.is_reusable());
    assert_eq!(pipeline.into_results(), vec![Some(b"hello world".to_vec())]);
}

#[test]
fn results_come_in_request_order() {
    let mut pipeline = Pipeline::new(3, false);
    feed_article(&mut pipeline, b"first");
    assert_eq!(pipeline.answered(), 1);
    pipeline.on_line(b"430 no such article\r\n");
    assert_eq!(pipeline.answered(), 2);
    assert!(!pipeline.is_finished());
    feed_article(&mut pipeline, b"third");
    assert!(pipeline.is_reusable());
    assert_eq!(
        pipeline.into_results(),
        vec![Some(b"first".to_vec()), None, Some(b"third".to_vec())]
    );
}

#[test]
fn missing_article_reads_no_body() {
    let mut pipeline = Pipeline::new(2, false);
    pipeline.on_line(b"423 no article with that number\r\n");
    // The next line is already the status of the second request.
    pipeline.on_line(b"430 no such article\r\n");
    assert!(pipeline.is_reusable());
    assert_eq!(pipeline.into_results(), vec![None, None]);
}

#[test]
fn unexpected_status_is_drained() {
    let mut pipeline = Pipeline::new(2, false);
    pipeline.on_line(b"220 0 <id> article follows\r\n");
    pipeline.on_line(b"Subject: something\r\n");
    pipeline.on_line(b"\r\n");
    pipeline.on_line(b"=ybegin line=128\r\n");
    assert_eq!(pipeline.answered(), 0);
    pipeline.on_line(b".\r\n");
    assert_eq!(pipeline.answered(), 1);
    feed_article(&mut pipeline, b"ok");
    assert!(pipeline.is_reusable());
    assert_eq!(pipeline.into_results(), vec![None, Some(b"ok".to_vec())]);
}

#[test]
fn undecodable_body_fails_the_segment_only() {
    let mut pipeline = Pipeline::new(2, false);
    pipeline.on_line(b"222 body\r\n");
    pipeline.on_line(b"data before any header\r\n");
    pipeline.on_line(b".\r\n");
    feed_article(&mut pipeline, b"fine");
    assert!(pipeline.is_reusable());
    assert_eq!(pipeline.into_results(), vec![None, Some(b"fine".to_vec())]);
}

#[test]
fn refused_group_breaks_the_batch() {
    let mut pipeline = Pipeline::new(3, true);
    pipeline.on_line(b"411 no such group\r\n");
    assert!(pipeline.is_finished());
    assert!(!pipeline.is_reusable());
    assert_eq!(pipeline.into_results(), vec![None, None, None]);
}

#[test]
fn reset_after_twenty_of_fifty() {
    let mut pipeline = Pipeline::new(50, true);
    pipeline.on_line(b"211 group selected\r\n");
    for i in 0..20u8 {
        feed_article(&mut pipeline, &[i; 100]);
    }
    assert_eq!(pipeline.answered(), 20);
    // The server closes the connection inside the 21st body.
    pipeline.on_line(b"222 body\r\n");
    pipeline.on_line(b"=ybegin\r\n");
    pipeline.on_failure();
    assert!(pipeline.is_finished());
    assert!(!pipeline.is_reusable());
    let results = pipeline.into_results();
    assert_eq!(results.len(), 50);
    for (i, result) in results.iter().enumerate() {
        if i < 20 {
            assert_eq!(result, &Some(vec![i as u8; 100]));
        } else {
            assert_eq!(result, &None);
        }
    }
}

#[test]
fn failure_after_the_end_changes_nothing() {
    let mut pipeline = Pipeline::new(1, false);
    feed_article(&mut pipeline, b"x");
    pipeline.on_failure();
    pipeline.on_line(b"200 belongs to the next exchange\r\n");
    assert!(pipeline.is_reusable());
    assert_eq!(pipeline.into_results(), vec![Some(b"x".to_vec())]);
}

#[test]
fn dot_stuffed_lines_come_back() {
    // 0x04 + 42 = '.', so every line of this body starts with a dot.
    let payload = vec![0x04u8; 6];
    let mut pipeline = Pipeline::new(1, false);
    pipeline.on_line(b"222 body\r\n");
    pipeline.on_line(b"=ybegin\r\n");
    pipeline.on_line(b"...\r\n");
    pipeline.on_line(b"....\r\n");
    pipeline.on_line(b"..\r\n");
    pipeline.on_line(b"=yend\r\n");
    pipeline.on_line(b".\r\n");
    assert_eq!(pipeline.into_results(), vec![Some(payload)]);
}

#[test]
fn bare_line_feeds_are_accepted() {
    let mut pipeline = Pipeline::new(1, false);
    pipeline.on_line(b"222 body\n");
    pipeline.on_line(b"=ybegin\n");
    pipeline.on_line(b"\x72\x8F\n");
    pipeline.on_line(b"=yend\n");
    pipeline.on_line(b".\n");
    assert_eq!(pipeline.into_results(), vec![Some(b"He".to_vec())]);
}

#[test]
fn single_segment_result() {
    let ok = segment_result(vec![Some(b"data".to_vec())], "id@example");
    assert!(matches!(ok, Ok(ref d) if d == b"data"));
    let failed = segment_result(vec![None], "id@example");
    match failed {
        Err(DlNzbError::Nntp(NntpError::ArticleNotFound { message_id })) => {
            assert_eq!(message_id, "id@example")
        }
        other => panic!("unexpected: {:?}", other),
    }
}

#[test]
fn batch_of_one_is_the_single_fetch() {
    let mut pipeline = Pipeline::new(1, false);
    feed_article(&mut pipeline, b"only");
    assert!(pipeline.is_reusable());
    let fetched = segment_result(pipeline.into_results(), "id");
    assert!(matches!(fetched, Ok(ref d) if d == b"only"));

    let mut pipeline = Pipeline::new(1, false);
    pipeline.on_line(b"430 no such article\r\n");
    assert!(pipeline.is_reusable());
    assert!(segment_result(pipeline.into_results(), "id").is_err());
}
