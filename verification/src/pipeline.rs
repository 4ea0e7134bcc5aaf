//! One pipelined batch on one connection, as a state machine.
//!
//! The caller writes every command of the batch, then hands the machine each
//! line that the server sends, in order, and tells it when the transport
//! fails. The machine says what each request came to and when the last reply
//! has been read: the caller reads no line beyond that one, so nothing of a
//! later exchange is consumed.

use crate::error::{DlNzbError, NntpError};
use crate::protocol::{
    is_terminator,
    line_is_terminator,
    parse_reply_code,
    push_body_line,
    reply_code,
    unstuffed,
};
use crate::yenc::{decode, decode_fast, LF};
use vstd::prelude::*;
use vstd::string::*;

verus! {

/// Where a batch stands.
#[derive(Clone, Copy, Debug)]
pub enum Phase {
    /// The reply to `GROUP` is awaited.
    Group,
    /// The status line of the next request is awaited.
    Status,
    /// The lines of an article body are being read.
    Body,
    /// The lines after an unexpected status are being passed over, up to the
    /// line that ends them.
    Drain,
    /// Every reply has been read in full: the connection can be used again.
    Done,
    /// The exchange failed: the connection must be discarded.
    Broken,
}

/// The state of a batch as a plain value.
pub struct Session {
    /// The number of requests of the batch.
    pub total: nat,
    pub phase: Phase,
    /// The body read so far, while in `Phase::Body`.
    pub body: Seq<u8>,
    /// What each request answered so far came to, in request order.
    pub results: Seq<Option<Seq<u8>>>,
}

/// `count` failures in a row.
pub open spec fn failures(count: nat) -> Seq<Option<Seq<u8>>> {
    Seq::new(count, |i: int| None::<Seq<u8>>)
}

impl Session {
    /// The state before any reply: `select_group` says whether a `GROUP`
    /// command leads the batch.
    pub open spec fn start(total: nat, select_group: bool) -> Session {
        Session {
            total,
            phase: if total == 0 {
                Phase::Done
            } else if select_group {
                Phase::Group
            } else {
                Phase::Status
            },
            body: Seq::empty(),
            results: Seq::empty(),
        }
    }

    /// Whether nothing more is to be read.
    pub open spec fn finished(self) -> bool {
        self.phase is Done || self.phase is Broken
    }

    /// The state is consistent: a finished batch has one result per request,
    /// an unfinished one has fewer, and a body is held only while one is
    /// being read.
    pub open spec fn wf(self) -> bool {
        &&& self.finished() ==> self.results.len() == self.total
        &&& !self.finished() ==> self.results.len() < self.total
        &&& !(self.phase is Body) ==> self.body.len() == 0
    }

    /// The state after the current request came to `result`.
    pub open spec fn answer(self, result: Option<Seq<u8>>) -> Session {
        Session {
            total: self.total,
            phase: if self.results.len() + 1 >= self.total {
                Phase::Done
            } else {
                Phase::Status
            },
            body: Seq::empty(),
            results: self.results.push(result),
        }
    }

    /// The state after the transport failed: every request not answered yet
    /// has failed, and the connection is broken. A batch that was done stays
    /// done.
    pub open spec fn fail(self) -> Session {
        if self.finished() {
            self
        } else {
            Session {
                total: self.total,
                phase: Phase::Broken,
                body: Seq::empty(),
                results: self.results + failures((self.total - self.results.len()) as nat),
            }
        }
    }

    /// The state after one more line from the server.
    pub open spec fn step(self, line: Seq<u8>) -> Session {
        match self.phase {
            Phase::Group => if reply_code(line) == Some(211nat) {
                Session { phase: Phase::Status, ..self }
            } else {
                self.fail()
            },
            Phase::Status => if reply_code(line) == Some(222nat) {
                Session { phase: Phase::Body, body: Seq::empty(), ..self }
            } else if reply_code(line) == Some(430nat) || reply_code(line) == Some(423nat) {
                self.answer(None)
            } else {
                Session { phase: Phase::Drain, ..self }
            },
            Phase::Body => if is_terminator(line) {
                self.answer(decode(self.body))
            } else {
                Session { body: self.body + unstuffed(line) + seq![LF], ..self }
            },
            Phase::Drain => if is_terminator(line) {
                self.answer(None)
            } else {
                self
            },
            Phase::Done => self,
            Phase::Broken => self,
        }
    }

    /// The state after a run of lines.
    pub open spec fn run(self, lines: Seq<Seq<u8>>) -> Session
        decreases lines.len(),
    {
        if lines.len() == 0 {
            self
        } else {
            self.step(lines[0]).run(lines.skip(1))
        }
    }
}

/// The body that a run of lines makes: the content of each, one per line.
pub open spec fn frame_body(lines: Seq<Seq<u8>>) -> Seq<u8>
    decreases lines.len(),
{
    if lines.len() == 0 {
        Seq::empty()
    } else {
        frame_body(lines.drop_last()) + unstuffed(lines.last()) + seq![LF]
    }
}

/// Every step keeps the state consistent, keeps what was answered before,
/// and answers at most one request.
pub proof fn lemma_step_wf(s: Session, line: Seq<u8>)
    requires
        s.wf(),
    ensures
        s.step(line).wf(),
        s.step(line).total == s.total,
        s.results.is_prefix_of(s.step(line).results),
        s.step(line).phase is Broken || s.step(line).results.len() <= s.results.len() + 1,
{
    let t = s.step(line);
    assert(s.results =~= t.results.take(s.results.len() as int));
}

/// A transport failure leaves what was answered, fails every request that
/// was not, and breaks the connection unless the batch was done.
pub proof fn lemma_fail(s: Session)
    requires
        s.wf(),
    ensures
        s.fail().wf(),
        s.fail().finished(),
        s.fail().results.len() == s.total,
        forall|i: int| 0 <= i < s.results.len() ==> s.fail().results[i] == s.results[i],
        forall|i: int| s.results.len() <= i < s.total ==> s.fail().results[i].is_none(),
        !s.finished() ==> s.fail().phase is Broken,
{
}

/// A batch that is done has read the reply of every request to its last
/// line and holds no pending body: the next line on the connection
/// belongs to the next exchange. A broken one is never done.
pub proof fn lemma_done_is_drained(s: Session)
    requires
        s.wf(),
        s.phase is Done,
    ensures
        s.results.len() == s.total,
        s.body.len() == 0,
        forall|line: Seq<u8>| s.step(line) == s,
        s.fail() == s,
{
}

/// Once finished, a batch takes no further line: whatever follows is left
/// unread.
pub proof fn lemma_finished_ignores(s: Session, lines: Seq<Seq<u8>>)
    requires
        s.finished(),
    ensures
        s.run(lines) == s,
    decreases lines.len(),
{
    if lines.len() > 0 {
        lemma_finished_ignores(s, lines.skip(1));
    }
}

/// Reading body lines accumulates their framed content.
pub proof fn lemma_body_lines(s: Session, lines: Seq<Seq<u8>>)
    requires
        s.phase is Body,
        forall|i: int| 0 <= i < lines.len() ==> !is_terminator(lines[i]),
    ensures
        s.run(lines) == (Session { body: s.body + frame_body(lines), ..s }),
    decreases lines.len(),
{
    if lines.len() == 0 {
        assert(s.body + frame_body(lines) =~= s.body);
    } else {
        let next = s.step(lines[0]);
        let rest = lines.skip(1);
        assert forall|i: int| 0 <= i < rest.len() implies !is_terminator(rest[i]) by {
            assert(rest[i] == lines[i + 1]);
        }
        lemma_body_lines(next, rest);
        lemma_frame_body_front(lines);
        assert(next.body + frame_body(rest) =~= s.body + frame_body(lines));
    }
}

/// The framed body of a run of lines is the content of the first line, then
/// the framed body of the rest.
pub proof fn lemma_frame_body_front(lines: Seq<Seq<u8>>)
    requires
        lines.len() > 0,
    ensures
        frame_body(lines) == unstuffed(lines[0]) + seq![LF] + frame_body(lines.skip(1)),
    decreases lines.len(),
{
    if lines.len() == 1 {
        assert(lines.drop_last() =~= Seq::<Seq<u8>>::empty());
        assert(lines.skip(1) =~= Seq::<Seq<u8>>::empty());
        assert(frame_body(lines) =~= unstuffed(lines[0]) + seq![LF] + frame_body(lines.skip(1)));
    } else {
        let init = lines.drop_last();
        lemma_frame_body_front(init);
        assert(init.skip(1) =~= lines.skip(1).drop_last());
        assert(init[0] == lines[0]);
        assert(lines.skip(1).last() == lines.last());
        assert(frame_body(lines) =~= unstuffed(lines[0]) + seq![LF] + frame_body(lines.skip(1)));
    }
}

/// One article read in full: from the state that awaits a status, a `222`
/// line, body lines and the line that ends them answer the request with
/// what the framed body decodes to, and consume exactly those lines.
pub proof fn lemma_article_reply(
    s: Session,
    status: Seq<u8>,
    lines: Seq<Seq<u8>>,
    terminator: Seq<u8>,
)
    requires
        s.wf(),
        s.phase is Status,
        reply_code(status) == Some(222nat),
        forall|i: int| 0 <= i < lines.len() ==> !is_terminator(lines[i]),
        is_terminator(terminator),
    ensures
        s.run(seq![status] + lines + seq![terminator]) == s.answer(decode(frame_body(lines))),
        !s.run(seq![status] + lines).finished(),
{
    let all = seq![status] + lines + seq![terminator];
    let opened = s.step(status);
    assert(all[0] == status);
    assert(all.skip(1) =~= lines + seq![terminator]);
    lemma_run_append(opened, lines, seq![terminator]);
    lemma_body_lines(opened, lines);
    let filled = opened.run(lines);
    assert(filled.body =~= frame_body(lines));
    lemma_run_one(filled, terminator);
    assert((seq![status] + lines)[0] == status);
    assert((seq![status] + lines).skip(1) =~= lines);
}

/// A missing article: from the state that awaits a status, a `430` or `423`
/// line alone answers the request with a failure; no body line is read.
pub proof fn lemma_missing_reply(s: Session, status: Seq<u8>)
    requires
        s.wf(),
        s.phase is Status,
        reply_code(status) == Some(430nat) || reply_code(status) == Some(423nat),
    ensures
        s.run(seq![status]) == s.answer(None),
{
    lemma_run_one(s, status);
}

/// A run of one line is one step.
pub proof fn lemma_run_one(s: Session, line: Seq<u8>)
    ensures
        s.run(seq![line]) == s.step(line),
{
    let rest = seq![line].skip(1);
    assert(rest.len() == 0);
    assert(s.step(line).run(rest) == s.step(line));
}

/// Running two runs of lines in a row is running the first, then the second.
pub proof fn lemma_run_append(s: Session, first: Seq<Seq<u8>>, second: Seq<Seq<u8>>)
    ensures
        s.run(first + second) == s.run(first).run(second),
    decreases first.len(),
{
    if first.len() == 0 {
        assert(first + second =~= second);
    } else {
        assert((first + second)[0] == first[0]);
        assert((first + second).skip(1) =~= first.skip(1) + second);
        lemma_run_append(s.step(first[0]), first.skip(1), second);
    }
}

/// What a request came to, as a plain value.
pub open spec fn result_view(result: Option<Vec<u8>>) -> Option<Seq<u8>> {
    match result {
        Some(bytes) => Some(bytes@),
        None => None,
    }
}

/// The results of a batch as plain values.
pub open spec fn results_view(results: Seq<Option<Vec<u8>>>) -> Seq<Option<Seq<u8>>> {
    Seq::new(results.len(), |i: int| result_view(results[i]))
}

/// The reader of one pipelined batch.
#[derive(Debug)]
pub struct Pipeline {
    total: usize,
    phase: Phase,
    body: Vec<u8>,
    results: Vec<Option<Vec<u8>>>,
}

impl View for Pipeline {
    type V = Session;

    closed spec fn view(&self) -> Session {
        Session {
            total: self.total as nat,
            phase: self.phase,
            body: self.body@,
            results: results_view(self.results@),
        }
    }
}

impl Pipeline {
    /// A reader for a batch of `total` requests. `select_group` says whether
    /// a `GROUP` command was written before the requests.
    pub fn new(total: usize, select_group: bool) -> (p: Pipeline)
        ensures
            p@ == Session::start(total as nat, select_group),
            p@.wf(),
    {
        let phase: Phase = if total == 0 {
            Phase::Done
        } else if select_group {
            Phase::Group
        } else {
            Phase::Status
        };
        let p = Pipeline { total, phase, body: Vec::new(), results: Vec::new() };
        assert(p@.results =~= Seq::<Option<Seq<u8>>>::empty());
        assert(p@.body =~= Seq::<u8>::empty());
        p
    }

    /// Whether nothing more is to be read: the batch is done or broken.
    pub fn is_finished(&self) -> (finished: bool)
        ensures
            finished == self@.finished(),
    {
        match self.phase {
            Phase::Done => true,
            Phase::Broken => true,
            _ => false,
        }
    }

    /// Whether the connection can go back to the pool: every reply was read
    /// in full and nothing failed on the way.
    pub fn is_reusable(&self) -> (reusable: bool)
        ensures
            reusable == (self@.phase is Done),
    {
        match self.phase {
            Phase::Done => true,
            _ => false,
        }
    }

    /// The number of requests answered so far.
    pub fn answered(&self) -> (count: usize)
        ensures
            count == self@.results.len(),
    {
        self.results.len()
    }

    /// Closes the current request with `result`.
    fn answer(&mut self, result: Option<Vec<u8>>)
        requires
            old(self)@.wf(),
            !old(self)@.finished(),
        ensures
            final(self)@ == old(self)@.answer(result_view(result)),
    {
        self.results.push(result);
        self.body = Vec::new();
        if self.results.len() >= self.total {
            self.phase = Phase::Done;
        } else {
            self.phase = Phase::Status;
        }
        assert(self@.results =~= old(self)@.results.push(result_view(result)));
        assert(self@.body =~= Seq::<u8>::empty());
    }

    /// Takes note that the transport failed: a timeout, a reset, or the end
    /// of the stream before the last reply. Every request not answered yet
    /// has failed.
    pub fn on_failure(&mut self)
        requires
            old(self)@.wf(),
        ensures
            final(self)@ == old(self)@.fail(),
            final(self)@.wf(),
    {
        if self.is_finished() {
            return ;
        }
        let ghost before = self@.results;
        while self.results.len() < self.total
            invariant
                self.total == old(self).total,
                before == old(self)@.results,
                before.len() <= self.results@.len() <= self.total,
                self@.results == before + failures((self.results@.len() - before.len()) as nat),
            decreases self.total - self.results.len(),
        {
            let ghost so_far = self@.results;
            self.results.push(None);
            assert(self@.results =~= so_far.push(None));
            assert(self@.results =~= before + failures(
                (self.results@.len() - before.len()) as nat,
            ));
        }
        self.body = Vec::new();
        self.phase = Phase::Broken;
        assert(self@.body =~= Seq::<u8>::empty());
    }

    /// Takes one line from the server, line end included.
    pub fn on_line(&mut self, line: &[u8])
        requires
            old(self)@.wf(),
        ensures
            final(self)@ == old(self)@.step(line@),
            final(self)@.wf(),
    {
        proof {
            lemma_step_wf(self@, line@);
        }
        match self.phase {
            Phase::Group => {
                match parse_reply_code(line) {
                    Some(211) => {
                        self.phase = Phase::Status;
                    },
                    _ => {
                        self.on_failure();
                    },
                }
            },
            Phase::Status => {
                match parse_reply_code(line) {
                    Some(222) => {
                        self.body = Vec::new();
                        self.phase = Phase::Body;
                        assert(self@.body =~= Seq::<u8>::empty());
                    },
                    Some(430) => {
                        self.answer(None);
                    },
                    Some(423) => {
                        self.answer(None);
                    },
                    _ => {
                        self.phase = Phase::Drain;
                    },
                }
            },
            Phase::Body => {
                if line_is_terminator(line) {
                    let decoded: Option<Vec<u8>> = decode_fast(self.body.as_slice());
                    self.answer(decoded);
                } else {
                    push_body_line(&mut self.body, line);
                }
            },
            Phase::Drain => {
                if line_is_terminator(line) {
                    self.answer(None);
                }
            },
            Phase::Done => {},
            Phase::Broken => {},
        }
    }

    /// Hands out what each request came to, in request order: the decoded
    /// bytes, or `None` where the request failed.
    pub fn into_results(self) -> (results: Vec<Option<Vec<u8>>>)
        requires
            self@.wf(),
            self@.finished(),
        ensures
            results@.len() == self@.total,
            results_view(results@) == self@.results,
    {
        self.results
    }
}

/// A batch of one request is the fetch of a single segment: a `222` reply
/// with its body comes to what the body decodes to, a `430` or `423` reply
/// to a failure, and either way the batch is done with the last line of the
/// reply and nothing beyond it is read.
pub proof fn lemma_single_request(
    select_group: bool,
    status: Seq<u8>,
    lines: Seq<Seq<u8>>,
    terminator: Seq<u8>,
)
    requires
        !select_group,
        forall|i: int| 0 <= i < lines.len() ==> !is_terminator(lines[i]),
        is_terminator(terminator),
    ensures
        reply_code(status) == Some(222nat) ==> {
            let end = Session::start(1, select_group).run(seq![status] + lines + seq![terminator]);
            &&& end.phase is Done
            &&& end.results == seq![decode(frame_body(lines))]
            &&& !Session::start(1, select_group).run(seq![status] + lines).finished()
        },
        reply_code(status) == Some(430nat) || reply_code(status) == Some(423nat) ==> {
            let end = Session::start(1, select_group).run(seq![status]);
            &&& end.phase is Done
            &&& end.results == seq![None::<Seq<u8>>]
        },
{
    let s = Session::start(1, select_group);
    if reply_code(status) == Some(222nat) {
        lemma_article_reply(s, status, lines, terminator);
        assert(s.answer(decode(frame_body(lines))).results =~= seq![decode(frame_body(lines))]);
    }
    if reply_code(status) == Some(430nat) || reply_code(status) == Some(423nat) {
        lemma_missing_reply(s, status);
        assert(s.answer(None).results =~= seq![None::<Seq<u8>>]);
    }
}

/// The result of the fetch of a single segment, from the results of its
/// batch of one: the decoded bytes, or the error that the article could not
/// be had.
pub fn segment_result(results: Vec<Option<Vec<u8>>>, message_id: &str) -> (r: Result<
    Vec<u8>,
    DlNzbError,
>)
    requires
        results@.len() == 1,
    ensures
        r.is_ok() == results@[0].is_some(),
        r.is_ok() ==> Some(r.unwrap()) == results@[0],
        r.is_err() ==> (r.unwrap_err() matches DlNzbError::Nntp(
            NntpError::ArticleNotFound { message_id: id },
        ) && id@ == message_id@),
{
    let mut results = results;
    match results.pop().unwrap() {
        Some(data) => Ok(data),
        None => Err(
            DlNzbError::Nntp(
                NntpError::ArticleNotFound { message_id: String::from_str(message_id) },
            ),
        ),
    }
}

} // verus!
