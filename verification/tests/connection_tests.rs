use dl_nzb::connection::{
    article_exists, bytes_equal, code_string, needs_group, on_handshake_reply, refusal_error,
    write_batch, write_stat_request, HandshakeAction, HandshakeState, SegmentRequest,
};
use dl_nzb::error::NntpError;

fn request(id: &str, group: &str, number: u32) -> SegmentRequest {
    SegmentRequest { message_id: id.to_string(), group: group.to_string(), segment_number: number }
}

#[test]
fn handshake_with_password() {
    let (state, action) = on_handshake_reply(HandshakeState::Greeting, b"200 welcome\r\n");
    assert!(matches!(state, HandshakeState::User));
    assert!(matches!(action, HandshakeAction::SendUser));
    let (state, action) = on_handshake_reply(state, b"381 password required\r\n");
    assert!(matches!(state, HandshakeState::Pass));
    assert!(matches!(action, HandshakeAction::SendPass));
    let (state, action) = on_handshake_reply(state, b"281 ok\r\n");
    assert!(matches!(state, HandshakeState::Ready));
    assert!(matches!(action, HandshakeAction::Ready));
    let (state, action) = on_handshake_reply(state, b"500 late\r\n");
    assert!(matches!(state, HandshakeState::Ready));
    assert!(matches!(action, HandshakeAction::Nothing));
}

#[test]
fn handshake_without_password() {
    let (state, _) = on_handshake_reply(HandshakeState::Greeting, b"201 read only\r\n");
    let (state, action) = on_handshake_reply(state, b"281 ok\r\n");
    assert!(matches!(state, HandshakeState::Ready));
    assert!(matches!(action, HandshakeAction::Ready));
}

#[test]
fn greeting_refused() {
    let (state, action) = on_handshake_reply(HandshakeState::Greeting, b"502 go away\r\n");
    assert!(matches!(state, HandshakeState::Failed));
    assert!(matches!(action, HandshakeAction::RefuseGreeting(Some(502))));
    match refusal_error(action) {
        Some(NntpError::ProtocolError(text)) => assert_eq!(text, "Server greeting failed: 502"),
        other => panic!("unexpected: {:?}", other),
    }
    let (_, action) = on_handshake_reply(HandshakeState::Greeting, b"garbage\r\n");
    match refusal_error(action) {
        Some(NntpError::ProtocolError(text)) => {
            assert_eq!(text, "Server greeting failed: no reply code")
        }
        other => panic!("unexpected: {:?}", other),
    }
}

#[test]
fn auth_error_holds_the_code_only() {
    let line = b"481 bad password for user hunter with password hunter2\r\n";
    let (state, action) = on_handshake_reply(HandshakeState::Pass, line);
    assert!(matches!(state, HandshakeState::Failed));
    match refusal_error(action) {
        Some(NntpError::AuthFailed(text)) => {
            assert_eq!(text, "481");
            assert!(!text.contains("hunter"));
        }
        other => panic!("unexpected: {:?}", other),
    }
    let (_, action) = on_handshake_reply(HandshakeState::User, b"482 rejected\r\n");
    match refusal_error(action) {
        Some(NntpError::AuthFailed(text)) => assert_eq!(text, "482"),
        other => panic!("unexpected: {:?}", other),
    }
    assert!(refusal_error(HandshakeAction::SendUser).is_none());
    assert!(refusal_error(HandshakeAction::Ready).is_none());
}

#[test]
fn code_text() {
    assert_eq!(code_string(Some(281)), "281");
    assert_eq!(code_string(Some(7)), "7");
    assert_eq!(code_string(None), "no reply code");
}

#[test]
fn group_is_selected_only_when_it_changes() {
    assert!(needs_group(&None, "alt.binaries.test"));
    assert!(needs_group(&Some("alt.binaries.other".to_string()), "alt.binaries.test"));
    assert!(!needs_group(&Some("alt.binaries.test".to_string()), "alt.binaries.test"));
    assert!(needs_group(&Some("alt.binaries.test".to_string()), "alt.binaries.tes"));
}

#[test]
fn bytes_compare_by_value() {
    assert!(bytes_equal(b"", b""));
    assert!(bytes_equal(b"abc", b"abc"));
    assert!(!bytes_equal(b"abc", b"abd"));
    assert!(!bytes_equal(b"abc", b"ab"));
}

#[test]
fn batch_writes_one_group_and_every_body() {
    let requests = vec![
        request("a@x", "alt.binaries.test", 1),
        request("b@x", "alt.binaries.test", 2),
        request("c@x", "alt.binaries.test", 3),
    ];
    assert_eq!(
        write_batch(&requests, true),
        b"GROUP alt.binaries.test\r\nBODY <a@x>\r\nBODY <b@x>\r\nBODY <c@x>\r\n".to_vec()
    );
    assert_eq!(
        write_batch(&requests, false),
        b"BODY <a@x>\r\nBODY <b@x>\r\nBODY <c@x>\r\n".to_vec()
    );
    assert_eq!(write_batch(&Vec::new(), true), Vec::<u8>::new());
}

#[test]
fn stat_asks_by_message_id() {
    let mut out = Vec::new();
    write_stat_request(&mut out, "a@x");
    write_stat_request(&mut out, "b@x");
    assert_eq!(out, b"STAT <a@x>\r\nSTAT <b@x>\r\n".to_vec());
    assert!(article_exists(b"223 0 <a@x>\r\n"));
    assert!(!article_exists(b"430 no such article\r\n"));
    assert!(!article_exists(b"222 body\r\n"));
    assert!(!article_exists(b""));
}

#[test]
fn stat_replies_in_request_order() {
    let replies = vec![
        b"223 0 <a@x>\r\n".to_vec(),
        b"430 no such article\r\n".to_vec(),
        b"223 0 <c@x>\r\n".to_vec(),
    ];
    assert_eq!(dl_nzb::connection::check_replies(3, &replies), vec![true, false, true]);
    // The transport failed after the second reply.
    assert_eq!(dl_nzb::connection::check_replies(4, &replies[..2].to_vec()), vec![true, false, false, false]);
    assert_eq!(dl_nzb::connection::check_replies(1, &replies), vec![true]);
    assert_eq!(dl_nzb::connection::check_replies(0, &replies), Vec::<bool>::new());
}
