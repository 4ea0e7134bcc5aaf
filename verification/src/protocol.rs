//! The text of the NNTP exchange: reply codes, commands, and the framing of
//! an article body.
//!
//! Everything here works on the bytes of single lines. Reading lines from a
//! socket and writing commands to it is the caller's part.

use crate::yenc::{CR, LF};
use vstd::prelude::*;

verus! {

/// The byte `.`, which ends a body when alone on a line.
pub const DOT: u8 = 0x2E;

/// Whether a byte is an ASCII digit.
pub open spec fn is_digit(b: u8) -> bool {
    0x30 <= b <= 0x39
}

/// The reply code of a line: the number that its first three bytes spell,
/// or `None` where they are not three digits.
pub open spec fn reply_code(line: Seq<u8>) -> Option<nat> {
    if line.len() >= 3 && is_digit(line[0]) && is_digit(line[1]) && is_digit(line[2]) {
        Some(((line[0] - 0x30) * 100 + (line[1] - 0x30) * 10 + (line[2] - 0x30)) as nat)
    } else {
        None
    }
}

/// Reads the reply code of a line.
pub fn parse_reply_code(line: &[u8]) -> (code: Option<u16>)
    ensures
        code.is_some() == reply_code(line@).is_some(),
        code.is_some() ==> code.unwrap() == reply_code(line@).unwrap(),
        code.is_some() ==> code.unwrap() <= 999,
{
    if line.len() < 3 {
        return None;
    }
    let a: u8 = line[0];
    let b: u8 = line[1];
    let c: u8 = line[2];
    if a < 0x30 || a > 0x39 || b < 0x30 || b > 0x39 || c < 0x30 || c > 0x39 {
        return None;
    }
    let hundreds: u16 = (a - 0x30) as u16;
    let tens: u16 = (b - 0x30) as u16;
    let ones: u16 = (c - 0x30) as u16;
    Some(hundreds * 100 + tens * 10 + ones)
}

/// Whether a line carries the reply code `code`.
pub fn has_code(line: &[u8], code: u16) -> (yes: bool)
    ensures
        yes == (reply_code(line@) == Some(code as nat)),
{
    match parse_reply_code(line) {
        Some(c) => c == code,
        None => false,
    }
}

/// The length of a line without its end: without a final line feed and the
/// carriage return before it.
pub open spec fn trimmed_len(line: Seq<u8>) -> int {
    if line.len() >= 2 && line[line.len() - 2] == CR && line[line.len() - 1] == LF {
        line.len() - 2
    } else if line.len() >= 1 && line[line.len() - 1] == LF {
        line.len() - 1
    } else {
        line.len() as int
    }
}

/// A line without its end.
pub open spec fn trimmed(line: Seq<u8>) -> Seq<u8> {
    line.take(trimmed_len(line))
}

/// The length of a line without its end: `CR LF` and a bare `LF` both count
/// as one.
pub fn trim_line_end(line: &[u8]) -> (n: usize)
    ensures
        n == trimmed_len(line@),
        n <= line.len(),
{
    let len: usize = line.len();
    if len >= 2 && line[len - 2] == CR && line[len - 1] == LF {
        len - 2
    } else if len >= 1 && line[len - 1] == LF {
        len - 1
    } else {
        len
    }
}

/// Whether a line ends a body: a lone dot, with or without its line end.
pub open spec fn is_terminator(line: Seq<u8>) -> bool {
    trimmed(line) == seq![DOT]
}

/// Whether a line ends a body.
pub fn line_is_terminator(line: &[u8]) -> (yes: bool)
    ensures
        yes == is_terminator(line@),
{
    let n: usize = trim_line_end(line);
    if n == 1 && line[0] == DOT {
        assert(trimmed(line@) =~= seq![DOT]);
        true
    } else {
        assert(trimmed(line@) != seq![DOT]) by {
            if trimmed(line@) == seq![DOT] {
                assert(trimmed(line@).len() == 1);
                assert(trimmed(line@)[0] == DOT);
            }
        }
        false
    }
}

/// The content of a body line: the line without its end, and without its
/// first dot where it begins with two.
pub open spec fn unstuffed(line: Seq<u8>) -> Seq<u8> {
    let t = trimmed(line);
    if t.len() >= 2 && t[0] == DOT && t[1] == DOT {
        t.skip(1)
    } else {
        t
    }
}

/// Appends the content of a body line and a line feed to `body`.
pub fn push_body_line(body: &mut Vec<u8>, line: &[u8])
    ensures
        final(body)@ == old(body)@ + unstuffed(line@) + seq![LF],
{
    let n: usize = trim_line_end(line);
    let start: usize = if n >= 2 && line[0] == DOT && line[1] == DOT {
        1
    } else {
        0
    };
    let ghost content = unstuffed(line@);
    assert(content =~= line@.subrange(start as int, n as int));
    let mut i: usize = start;
    assert(old(body)@ + line@.subrange(start as int, start as int) =~= old(body)@);
    while i < n
        invariant
            start <= i <= n <= line.len(),
            body@ == old(body)@ + line@.subrange(start as int, i as int),
        decreases n - i,
    {
        body.push(line[i]);
        assert(line@.subrange(start as int, i as int).push(line@[i as int]) =~= line@.subrange(
            start as int,
            i + 1,
        ));
        i = i + 1;
    }
    body.push(LF);
}

/// Appends the bytes of `src` to `out`.
pub fn append_bytes(out: &mut Vec<u8>, src: &[u8])
    ensures
        final(out)@ == old(out)@ + src@,
{
    let mut i: usize = 0;
    assert(old(out)@ + src@.take(0) =~= old(out)@);
    while i < src.len()
        invariant
            i <= src.len(),
            out@ == old(out)@ + src@.take(i as int),
        decreases src.len() - i,
    {
        out.push(src[i]);
        assert(src@.take(i as int).push(src@[i as int]) =~= src@.take(i + 1));
        i = i + 1;
    }
    assert(src@.take(src@.len() as int) =~= src@);
}

/// The end of a command line: `CR LF`.
pub open spec fn crlf() -> Seq<u8> {
    seq![CR, LF]
}

/// `GROUP name`.
pub open spec fn group_command(name: Seq<u8>) -> Seq<u8> {
    seq![0x47u8, 0x52u8, 0x4Fu8, 0x55u8, 0x50u8, 0x20u8] + name + crlf()
}

/// `BODY <id>`.
pub open spec fn body_command(id: Seq<u8>) -> Seq<u8> {
    seq![0x42u8, 0x4Fu8, 0x44u8, 0x59u8, 0x20u8, 0x3Cu8] + id + seq![0x3Eu8] + crlf()
}

/// `STAT <id>`.
pub open spec fn stat_command(id: Seq<u8>) -> Seq<u8> {
    seq![0x53u8, 0x54u8, 0x41u8, 0x54u8, 0x20u8, 0x3Cu8] + id + seq![0x3Eu8] + crlf()
}

/// `AUTHINFO USER name`.
pub open spec fn auth_user_command(name: Seq<u8>) -> Seq<u8> {
    seq![
        0x41u8,
        0x55u8,
        0x54u8,
        0x48u8,
        0x49u8,
        0x4Eu8,
        0x46u8,
        0x4Fu8,
        0x20u8,
        0x55u8,
        0x53u8,
        0x45u8,
        0x52u8,
        0x20u8,
    ] + name + crlf()
}

/// `AUTHINFO PASS secret`.
pub open spec fn auth_pass_command(secret: Seq<u8>) -> Seq<u8> {
    seq![
        0x41u8,
        0x55u8,
        0x54u8,
        0x48u8,
        0x49u8,
        0x4Eu8,
        0x46u8,
        0x4Fu8,
        0x20u8,
        0x50u8,
        0x41u8,
        0x53u8,
        0x53u8,
        0x20u8,
    ] + secret + crlf()
}

/// `NOOP`.
pub open spec fn noop_command() -> Seq<u8> {
    seq![0x4Eu8, 0x4Fu8, 0x4Fu8, 0x50u8] + crlf()
}

/// `QUIT`.
pub open spec fn quit_command() -> Seq<u8> {
    seq![0x51u8, 0x55u8, 0x49u8, 0x54u8] + crlf()
}

/// Appends `GROUP name` and its line end to `out`.
pub fn write_group(out: &mut Vec<u8>, name: &[u8])
    ensures
        final(out)@ == old(out)@ + group_command(name@),
{
    let ghost before = out@;
    out.push(0x47);
    out.push(0x52);
    out.push(0x4F);
    out.push(0x55);
    out.push(0x50);
    out.push(0x20);
    append_bytes(out, name);
    out.push(CR);
    out.push(LF);
    assert(out@ =~= before + group_command(name@));
}

/// Appends `BODY <id>` and its line end to `out`.
pub fn write_body(out: &mut Vec<u8>, id: &[u8])
    ensures
        final(out)@ == old(out)@ + body_command(id@),
{
    let ghost before = out@;
    out.push(0x42);
    out.push(0x4F);
    out.push(0x44);
    out.push(0x59);
    out.push(0x20);
    out.push(0x3C);
    append_bytes(out, id);
    out.push(0x3E);
    out.push(CR);
    out.push(LF);
    assert(out@ =~= before + body_command(id@));
}

/// Appends `STAT <id>` and its line end to `out`.
pub fn write_stat(out: &mut Vec<u8>, id: &[u8])
    ensures
        final(out)@ == old(out)@ + stat_command(id@),
{
    let ghost before = out@;
    out.push(0x53);
    out.push(0x54);
    out.push(0x41);
    out.push(0x54);
    out.push(0x20);
    out.push(0x3C);
    append_bytes(out, id);
    out.push(0x3E);
    out.push(CR);
    out.push(LF);
    assert(out@ =~= before + stat_command(id@));
}

/// The command that names the user.
pub fn auth_user(name: &[u8]) -> (out: Vec<u8>)
    ensures
        out@ == auth_user_command(name@),
{
    let mut out: Vec<u8> = Vec::new();
    out.push(0x41);
    out.push(0x55);
    out.push(0x54);
    out.push(0x48);
    out.push(0x49);
    out.push(0x4E);
    out.push(0x46);
    out.push(0x4F);
    out.push(0x20);
    out.push(0x55);
    out.push(0x53);
    out.push(0x45);
    out.push(0x52);
    out.push(0x20);
    append_bytes(&mut out, name);
    out.push(CR);
    out.push(LF);
    assert(out@ =~= auth_user_command(name@));
    out
}

/// The command that gives the password.
pub fn auth_pass(secret: &[u8]) -> (out: Vec<u8>)
    ensures
        out@ == auth_pass_command(secret@),
{
    let mut out: Vec<u8> = Vec::new();
    out.push(0x41);
    out.push(0x55);
    out.push(0x54);
    out.push(0x48);
    out.push(0x49);
    out.push(0x4E);
    out.push(0x46);
    out.push(0x4F);
    out.push(0x20);
    out.push(0x50);
    out.push(0x41);
    out.push(0x53);
    out.push(0x53);
    out.push(0x20);
    append_bytes(&mut out, secret);
    out.push(CR);
    out.push(LF);
    assert(out@ =~= auth_pass_command(secret@));
    out
}

/// The command of the health check.
pub fn noop() -> (out: Vec<u8>)
    ensures
        out@ == noop_command(),
{
    let mut out: Vec<u8> = Vec::new();
    out.push(0x4E);
    out.push(0x4F);
    out.push(0x4F);
    out.push(0x50);
    out.push(CR);
    out.push(LF);
    assert(out@ =~= noop_command());
    out
}

/// The command that ends a session.
pub fn quit() -> (out: Vec<u8>)
    ensures
        out@ == quit_command(),
{
    let mut out: Vec<u8> = Vec::new();
    out.push(0x51);
    out.push(0x55);
    out.push(0x49);
    out.push(0x54);
    out.push(CR);
    out.push(LF);
    assert(out@ =~= quit_command());
    out
}

/// Whether a reply to `NOOP` shows a healthy connection: code 200.
pub fn is_healthy_reply(line: &[u8]) -> (healthy: bool)
    ensures
        healthy == (reply_code(line@) == Some(200nat)),
{
    has_code(line, 200)
}

/// A line of a body as it goes over the wire: a dot put before a line that
/// begins with one, and `CR LF` at the end.
pub open spec fn stuffed(content: Seq<u8>) -> Seq<u8> {
    if content.len() > 0 && content[0] == DOT {
        seq![DOT] + content + crlf()
    } else {
        content + crlf()
    }
}

/// Dot-stuffing is undone exactly: the content of the wire form of a line
/// is the line, and the wire form of no line ends a body.
pub proof fn lemma_stuffing_round_trip(content: Seq<u8>)
    ensures
        unstuffed(stuffed(content)) == content,
        !is_terminator(stuffed(content)),
{
    let wire = stuffed(content);
    if content.len() > 0 && content[0] == DOT {
        assert(trimmed(wire) =~= seq![DOT] + content);
        assert(trimmed(wire).skip(1) =~= content);
        assert(trimmed(wire).len() >= 2);
    } else {
        assert(trimmed(wire) =~= content);
        if content.len() >= 1 {
            assert(trimmed(wire)[0] == content[0]);
        }
    }
}

} // verus!
