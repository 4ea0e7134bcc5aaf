//! The decisions of one NNTP connection: the handshake, which group is
//! selected, and the commands of a batch.
//!
//! The transport itself is the caller's: it sends the bytes that these
//! functions build and hands back the lines that it reads.

use crate::error::NntpError;
use crate::protocol::{
    body_command,
    group_command,
    parse_reply_code,
    reply_code,
    stat_command,
    write_body,
    write_group,
    write_stat,
};
use crate::text::{decimal, decimal_text, join2};
use vstd::prelude::*;
use vstd::string::*;
use vstd::utf8::encode_utf8;

verus! {

/// One article to fetch.
#[derive(Debug, Clone)]
pub struct SegmentRequest {
    pub message_id: String,
    pub group: String,
    pub segment_number: u32,
}

/// Where the handshake stands.
#[derive(Clone, Copy, Debug)]
pub enum HandshakeState {
    /// The greeting of the server is awaited.
    Greeting,
    /// The reply to `AUTHINFO USER` is awaited.
    User,
    /// The reply to `AUTHINFO PASS` is awaited.
    Pass,
    /// The connection is authenticated.
    Ready,
    /// The server refused: the connection is of no use.
    Failed,
}

/// What to do after a reply of the handshake.
#[derive(Clone, Copy, Debug)]
pub enum HandshakeAction {
    /// Send `AUTHINFO USER`.
    SendUser,
    /// Send `AUTHINFO PASS`.
    SendPass,
    /// Nothing more: the connection is ready.
    Ready,
    /// The greeting was not `200` or `201`; the reply code, if the line had
    /// one.
    RefuseGreeting(Option<u16>),
    /// The server did not accept the credentials; the reply code, if the
    /// line had one.
    RefuseAuth(Option<u16>),
    /// The handshake was over before this line came.
    Nothing,
}

/// The reply code of a line as a 16-bit value.
pub open spec fn code16(line: Seq<u8>) -> Option<u16> {
    match reply_code(line) {
        Some(c) => Some(c as u16),
        None => None,
    }
}

/// The next state and the action after a reply with the code `code`.
pub open spec fn handshake_step(state: HandshakeState, code: Option<u16>) -> (
    HandshakeState,
    HandshakeAction,
) {
    match state {
        HandshakeState::Greeting => if code == Some(200u16) || code == Some(201u16) {
            (HandshakeState::User, HandshakeAction::SendUser)
        } else {
            (HandshakeState::Failed, HandshakeAction::RefuseGreeting(code))
        },
        HandshakeState::User => if code == Some(381u16) {
            (HandshakeState::Pass, HandshakeAction::SendPass)
        } else if code == Some(281u16) {
            (HandshakeState::Ready, HandshakeAction::Ready)
        } else {
            (HandshakeState::Failed, HandshakeAction::RefuseAuth(code))
        },
        HandshakeState::Pass => if code == Some(281u16) {
            (HandshakeState::Ready, HandshakeAction::Ready)
        } else {
            (HandshakeState::Failed, HandshakeAction::RefuseAuth(code))
        },
        HandshakeState::Ready => (HandshakeState::Ready, HandshakeAction::Nothing),
        HandshakeState::Failed => (HandshakeState::Failed, HandshakeAction::Nothing),
    }
}

/// Takes one reply of the handshake and says what comes next.
pub fn on_handshake_reply(state: HandshakeState, line: &[u8]) -> (next: (
    HandshakeState,
    HandshakeAction,
))
    ensures
        next == handshake_step(state, code16(line@)),
{
    let code: Option<u16> = parse_reply_code(line);
    match state {
        HandshakeState::Greeting => match code {
            Some(200) => (HandshakeState::User, HandshakeAction::SendUser),
            Some(201) => (HandshakeState::User, HandshakeAction::SendUser),
            _ => (HandshakeState::Failed, HandshakeAction::RefuseGreeting(code)),
        },
        HandshakeState::User => match code {
            Some(381) => (HandshakeState::Pass, HandshakeAction::SendPass),
            Some(281) => (HandshakeState::Ready, HandshakeAction::Ready),
            _ => (HandshakeState::Failed, HandshakeAction::RefuseAuth(code)),
        },
        HandshakeState::Pass => match code {
            Some(281) => (HandshakeState::Ready, HandshakeAction::Ready),
            _ => (HandshakeState::Failed, HandshakeAction::RefuseAuth(code)),
        },
        HandshakeState::Ready => (HandshakeState::Ready, HandshakeAction::Nothing),
        HandshakeState::Failed => (HandshakeState::Failed, HandshakeAction::Nothing),
    }
}

/// The only thing an error of the handshake says of the reply: its code in
/// decimal, or that it had none.
pub open spec fn code_text(code: Option<u16>) -> Seq<char> {
    match code {
        Some(c) => decimal_text(c as nat),
        None => "no reply code"@,
    }
}

/// Writes a reply code for an error message.
pub fn code_string(code: Option<u16>) -> (s: String)
    ensures
        s@ == code_text(code),
{
    match code {
        Some(c) => decimal(c as u64),
        None => String::from_str("no reply code"),
    }
}

/// The error that a refusal stands for, or `None` where the action is no
/// refusal. Its text holds the reply code and nothing else of the exchange:
/// no part of the reply line, no user name, no password.
pub fn refusal_error(action: HandshakeAction) -> (error: Option<NntpError>)
    ensures
        match action {
            HandshakeAction::RefuseGreeting(code) => error matches Some(
                NntpError::ProtocolError(text),
            ) && text@ == "Server greeting failed: "@ + code_text(code),
            HandshakeAction::RefuseAuth(code) => error matches Some(NntpError::AuthFailed(text))
                && text@ == code_text(code),
            _ => error.is_none(),
        },
{
    match action {
        HandshakeAction::RefuseGreeting(code) => {
            let number: String = code_string(code);
            Some(NntpError::ProtocolError(join2("Server greeting failed: ", number.as_str())))
        },
        HandshakeAction::RefuseAuth(code) => Some(NntpError::AuthFailed(code_string(code))),
        _ => None,
    }
}

/// Whether two byte strings are equal.
pub fn bytes_equal(a: &[u8], b: &[u8]) -> (same: bool)
    ensures
        same == (a@ == b@),
{
    if a.len() != b.len() {
        return false;
    }
    let mut i: usize = 0;
    while i < a.len()
        invariant
            i <= a.len(),
            a.len() == b.len(),
            forall|k: int| 0 <= k < i ==> a@[k] == b@[k],
        decreases a.len() - i,
    {
        if a[i] != b[i] {
            return false;
        }
        i = i + 1;
    }
    assert(a@ =~= b@);
    true
}

/// Whether a `GROUP` command must lead the next request: the group wanted is
/// not the one that the connection has selected.
pub fn needs_group(current: &Option<String>, wanted: &str) -> (needed: bool)
    ensures
        needed == !(current.is_some() && encode_utf8(current.unwrap()@) == encode_utf8(wanted@)),
{
    match current {
        Some(group) => !bytes_equal(group.as_str().as_bytes(), wanted.as_bytes()),
        None => true,
    }
}

/// The commands for the requests `first..`, one `BODY` each.
pub open spec fn body_commands(requests: Seq<SegmentRequest>, first: int) -> Seq<u8>
    decreases requests.len() - first,
{
    if first >= requests.len() || first < 0 {
        Seq::empty()
    } else {
        body_command(encode_utf8(requests[first].message_id@)) + body_commands(requests, first + 1)
    }
}

/// What is written for a batch: a `GROUP` command for the group of the
/// first request where `select_group`, then a `BODY` command for every
/// request, in order.
pub open spec fn batch_commands(requests: Seq<SegmentRequest>, select_group: bool) -> Seq<u8> {
    if select_group && requests.len() > 0 {
        group_command(encode_utf8(requests[0].group@)) + body_commands(requests, 0)
    } else {
        body_commands(requests, 0)
    }
}

/// Appending the command of one more request to the commands of those
/// before it.
proof fn lemma_body_commands_split(requests: Seq<SegmentRequest>, first: int, upto: int)
    requires
        0 <= first <= upto < requests.len(),
    ensures
        body_commands(requests.take(upto + 1), first) == body_commands(requests.take(upto), first)
            + body_command(encode_utf8(requests[upto].message_id@)),
    decreases upto - first,
{
    let longer = requests.take(upto + 1);
    let shorter = requests.take(upto);
    let last = body_command(encode_utf8(requests[upto].message_id@));
    if first == upto {
        assert(body_commands(longer, first + 1) =~= Seq::<u8>::empty());
        assert(body_commands(shorter, first) =~= Seq::<u8>::empty());
        assert(longer[first] == requests[upto]);
        assert(body_commands(longer, first) =~= last);
        assert(body_commands(shorter, first) + last =~= last);
    } else {
        lemma_body_commands_split(requests, first + 1, upto);
        assert(longer[first] == shorter[first]);
        let head = body_command(encode_utf8(requests[first].message_id@));
        assert(head + (body_commands(shorter, first + 1) + last) =~= (head + body_commands(
            shorter,
            first + 1,
        )) + last);
    }
}

/// Builds all the bytes to write for a batch, before any reply is read.
pub fn write_batch(requests: &Vec<SegmentRequest>, select_group: bool) -> (out: Vec<u8>)
    ensures
        out@ == batch_commands(requests@, select_group),
{
    let mut out: Vec<u8> = Vec::new();
    if select_group && requests.len() > 0 {
        write_group(&mut out, requests[0].group.as_str().as_bytes());
    }
    let ghost head = out@;
    let mut i: usize = 0;
    assert(body_commands(requests@.take(0), 0) =~= Seq::<u8>::empty());
    assert(head + body_commands(requests@.take(0), 0) =~= head);
    while i < requests.len()
        invariant
            i <= requests.len(),
            out@ == head + body_commands(requests@.take(i as int), 0),
        decreases requests.len() - i,
    {
        proof {
            lemma_body_commands_split(requests@, 0, i as int);
        }
        write_body(&mut out, requests[i].message_id.as_str().as_bytes());
        assert(out@ =~= head + (body_commands(requests@.take(i as int), 0) + body_command(
            encode_utf8(requests@[i as int].message_id@),
        )));
        i = i + 1;
    }
    assert(requests@.take(requests@.len() as int) =~= requests@);
    out
}

/// Whether a reply to `STAT` says that the article exists: code 223.
pub fn article_exists(line: &[u8]) -> (exists: bool)
    ensures
        exists == (reply_code(line@) == Some(223nat)),
{
    match parse_reply_code(line) {
        Some(223) => true,
        _ => false,
    }
}

/// The bytes to write to ask for one article by its message id.
pub fn write_stat_request(out: &mut Vec<u8>, message_id: &str)
    ensures
        final(out)@ == old(out)@ + stat_command(encode_utf8(message_id@)),
{
    write_stat(out, message_id.as_bytes());
}

/// What the replies to a pipelined run of `STAT` commands say: answer `k`
/// is whether reply `k` carries code 223. A request whose reply never came,
/// because the transport failed, counts as missing.
pub open spec fn stat_answers(requests: nat, replies: Seq<Seq<u8>>) -> Seq<bool> {
    Seq::new(requests, |k: int| k < replies.len() && reply_code(replies[k]) == Some(223nat))
}

/// The views of a list of lines.
pub open spec fn lines_of(replies: Seq<Vec<u8>>) -> Seq<Seq<u8>> {
    Seq::new(replies.len(), |k: int| replies[k]@)
}

/// Reads the replies to `requests` pipelined `STAT` commands, in request
/// order. Replies beyond the number of requests are not looked at.
pub fn check_replies(requests: usize, replies: &Vec<Vec<u8>>) -> (answers: Vec<bool>)
    ensures
        answers@ == stat_answers(requests as nat, lines_of(replies@)),
{
    let mut answers: Vec<bool> = Vec::new();
    let mut k: usize = 0;
    while k < requests
        invariant
            k <= requests,
            answers@.len() == k,
            forall|j: int|
                0 <= j < k ==> answers@[j] == (j < replies@.len() && reply_code(replies@[j]@)
                    == Some(223nat)),
        decreases requests - k,
    {
        let exists: bool = if k < replies.len() {
            article_exists(replies[k].as_slice())
        } else {
            false
        };
        answers.push(exists);
        k = k + 1;
    }
    assert(answers@ =~= stat_answers(requests as nat, lines_of(replies@)));
    answers
}

} // verus!
