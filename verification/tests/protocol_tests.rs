use dl_nzb::protocol::{
    append_bytes, auth_pass, auth_user, has_code, is_healthy_reply, line_is_terminator, noop,
    parse_reply_code, push_body_line, quit, trim_line_end, write_body, write_group, write_stat,
};

#[test]
fn reply_codes_are_the_first_three_digits() {
    assert_eq!(parse_reply_code(b"200 news.example.org ready\r\n"), Some(200));
    assert_eq!(parse_reply_code(b"222 0 <id@x> body\r\n"), Some(222));
    assert_eq!(parse_reply_code(b"430"), Some(430));
    assert_eq!(parse_reply_code(b"007 low"), Some(7));
    assert_eq!(parse_reply_code(b"999"), Some(999));
    assert_eq!(parse_reply_code(b"20"), None);
    assert_eq!(parse_reply_code(b""), None);
    assert_eq!(parse_reply_code(b"2x0 odd"), None);
    assert_eq!(parse_reply_code(b" 200"), None);
}

#[test]
fn has_code_compares_the_whole_code() {
    assert!(has_code(b"211 1 1 2 group\r\n", 211));
    assert!(!has_code(b"2111", 111));
    assert!(!has_code(b"411 no such group", 211));
    assert!(!has_code(b"", 0));
}

#[test]
fn health_is_code_200() {
    assert!(is_healthy_reply(b"200 ok\r\n"));
    assert!(!is_healthy_reply(b"201 ok\r\n"));
    assert!(!is_healthy_reply(b"500 what\r\n"));
    assert!(!is_healthy_reply(b""));
}

#[test]
fn line_ends_are_trimmed() {
    assert_eq!(trim_line_end(b"abc\r\n"), 3);
    assert_eq!(trim_line_end(b"abc\n"), 3);
    assert_eq!(trim_line_end(b"abc"), 3);
    assert_eq!(trim_line_end(b"abc\r"), 4);
    assert_eq!(trim_line_end(b"\r\n"), 0);
    assert_eq!(trim_line_end(b"\n"), 0);
    assert_eq!(trim_line_end(b""), 0);
}

#[test]
fn terminator_is_a_lone_dot() {
    assert!(line_is_terminator(b".\r\n"));
    assert!(line_is_terminator(b".\n"));
    assert!(line_is_terminator(b"."));
    assert!(!line_is_terminator(b"..\r\n"));
    assert!(!line_is_terminator(b". \r\n"));
    assert!(!line_is_terminator(b"\r\n"));
    assert!(!line_is_terminator(b"a.\r\n"));
}

#[test]
fn body_lines_are_unstuffed() {
    let mut body = Vec::new();
    push_body_line(&mut body, b"..leading dot\r\n");
    push_body_line(&mut body, b"plain\n");
    push_body_line(&mut body, b".x\r\n");
    push_body_line(&mut body, b"...\r\n");
    push_body_line(&mut body, b"\r\n");
    assert_eq!(body, b".leading dot\nplain\n.x\n..\n\n".to_vec());
}

#[test]
fn commands_are_spelled_out() {
    let mut out = Vec::new();
    write_group(&mut out, b"alt.binaries.test");
    write_body(&mut out, b"part1@example");
    write_stat(&mut out, b"part2@example");
    assert_eq!(
        out,
        b"GROUP alt.binaries.test\r\nBODY <part1@example>\r\nSTAT <part2@example>\r\n".to_vec()
    );
    assert_eq!(auth_user(b"me"), b"AUTHINFO USER me\r\n".to_vec());
    assert_eq!(auth_pass(b"s3cret"), b"AUTHINFO PASS s3cret\r\n".to_vec());
    assert_eq!(noop(), b"NOOP\r\n".to_vec());
    assert_eq!(quit(), b"QUIT\r\n".to_vec());
}

#[test]
fn append_keeps_what_was_there() {
    let mut out = b"ab".to_vec();
    append_bytes(&mut out, b"cd");
    append_bytes(&mut out, b"");
    assert_eq!(out, b"abcd".to_vec());
}
