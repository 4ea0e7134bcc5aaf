use dl_nzb::yenc::{decode_fast, decode_scalar, encode_body};

fn body(lines: &[&[u8]]) -> Vec<u8> {
    let mut out = Vec::new();
    for line in lines {
        out.extend_from_slice(line);
        out.push(b'\n');
    }
    out
}

#[test]
fn decodes_plain_line() {
    // 'r' - 42 = 'H', 0x8F - 42 = 'e', 0x96 - 42 = 'l', 0x99 - 42 = 'o'
    let data = body(&[b"=ybegin line=128 size=5 name=x", &[0x72, 0x8F, 0x96, 0x96, 0x99], b"=yend size=5"]);
    assert_eq!(decode_scalar(&data), Some(b"Hello".to_vec()));
    assert_eq!(decode_fast(&data), Some(b"Hello".to_vec()));
}

#[test]
fn decodes_escaped_bytes() {
    // "=J" stands for 0x4A - 64 - 42 = 0xE0; "=}" for 0x7D - 106 = 0x13.
    let data = body(&[b"=ybegin", b"=J=}", b"=yend"]);
    assert_eq!(decode_scalar(&data), Some(vec![0xE0, 0x13]));
    assert_eq!(decode_fast(&data), Some(vec![0xE0, 0x13]));
}

#[test]
fn subtraction_wraps() {
    // 0x00 - 42 = 214, 0x29 - 42 = 255, 0x2A - 42 = 0.
    let data = body(&[b"=ybegin", &[0x00, 0x29, 0x2A], b"=yend"]);
    assert_eq!(decode_scalar(&data), Some(vec![214, 255, 0]));
    assert_eq!(decode_fast(&data), Some(vec![214, 255, 0]));
}

#[test]
fn strips_carriage_returns() {
    let data = b"=ybegin\r\n\x72\x8F\r\n=yend\r\n".to_vec();
    assert_eq!(decode_scalar(&data), Some(b"He".to_vec()));
    assert_eq!(decode_fast(&data), Some(b"He".to_vec()));
}

#[test]
fn skips_part_line() {
    let data = body(&[b"=ybegin part=1", b"=ypart begin=1 end=2", &[0x72, 0x8F], b"=yend"]);
    assert_eq!(decode_scalar(&data), Some(b"He".to_vec()));
}

#[test]
fn trailing_escape_fails() {
    let data = body(&[b"=ybegin", &[0x72, 0x3D], b"=yend"]);
    assert_eq!(decode_scalar(&data), None);
    assert_eq!(decode_fast(&data), None);
}

#[test]
fn data_before_begin_fails() {
    let data = body(&[&[0x72, 0x8F], b"=ybegin", b"=yend"]);
    assert_eq!(decode_scalar(&data), None);
    assert_eq!(decode_fast(&data), None);
}

#[test]
fn missing_end_is_accepted() {
    let data = body(&[b"=ybegin", &[0x72, 0x8F]]);
    assert_eq!(decode_scalar(&data), Some(b"He".to_vec()));
    let unterminated = b"=ybegin\n\x72\x8F".to_vec();
    assert_eq!(decode_scalar(&unterminated), Some(b"He".to_vec()));
}

#[test]
fn nothing_after_end_is_read() {
    let data = body(&[b"=ybegin", &[0x72], b"=yend", &[0x8F, 0x3D]]);
    assert_eq!(decode_scalar(&data), Some(b"H".to_vec()));
}

#[test]
fn empty_input_decodes_to_nothing() {
    assert_eq!(decode_scalar(&[]), Some(Vec::new()));
    assert_eq!(decode_fast(&[]), Some(Vec::new()));
}

#[test]
fn encodes_with_escapes_and_wrapping() {
    // 0x13 + 42 = '=' is escaped as "=}", 0xE0 + 42 = LF as "=J".
    let encoded = encode_body(&[b'H', 0x13, 0xE0, b'e'], 2);
    assert_eq!(encoded, b"=ybegin\n\x72=}\n=J\x8F\n=yend\n".to_vec());
}

#[test]
fn encode_of_nothing_is_the_frame() {
    assert_eq!(encode_body(&[], 128), b"=ybegin\n=yend\n".to_vec());
}

#[test]
fn round_trip_every_byte_value() {
    let all: Vec<u8> = (0..=255u8).collect();
    for width in [0usize, 1, 7, 16, 128, 300] {
        let encoded = encode_body(&all, width);
        assert_eq!(decode_scalar(&encoded), Some(all.clone()));
        assert_eq!(decode_fast(&encoded), Some(all.clone()));
    }
}

#[test]
fn round_trip_lengths_up_to_2048() {
    // A fixed pseudo-random stream, so that the escapes fall at varied places.
    let mut state: u32 = 0x1234_5678;
    let mut data = Vec::new();
    for len in 0..=2048usize {
        if len % 97 == 0 || len < 40 {
            let encoded = encode_body(&data, 128);
            assert_eq!(decode_scalar(&encoded), Some(data.clone()));
            assert_eq!(decode_fast(&encoded), Some(data.clone()));
        }
        state = state.wrapping_mul(1_664_525).wrapping_add(1_013_904_223);
        data.push((state >> 24) as u8);
    }
}

#[test]
fn paths_agree_on_escape_heavy_input() {
    let mut data = b"=ybegin\n".to_vec();
    for i in 0..600u32 {
        match i % 5 {
            0 => data.extend_from_slice(b"=J"),
            1 => data.push(b'\r'),
            2 => data.push((i % 251) as u8 | 0x40),
            3 => data.extend_from_slice(b"=@"),
            _ => data.push(b'\n'),
        }
    }
    data.extend_from_slice(b"\n=yend\n");
    assert_eq!(decode_scalar(&data), decode_fast(&data));
    assert!(decode_scalar(&data).is_some());
}

#[test]
fn block_path_handles_long_plain_lines() {
    // Source bytes 30..130 shift to 72..172: no escape byte, no line end.
    let raw: Vec<u8> = (30..130u8).collect();
    let line: Vec<u8> = raw.iter().map(|b| b.wrapping_add(42)).collect();
    assert!(line.iter().all(|b| *b != b'=' && *b != b'\r' && *b != b'\n'));
    let mut data = b"=ybegin\n".to_vec();
    data.extend_from_slice(&line);
    data.extend_from_slice(b"\n=yend\n");
    assert_eq!(decode_fast(&data), Some(raw.clone()));
    assert_eq!(decode_scalar(&data), Some(raw));
}
