//! Requests: the lines read off a connection and the answer they get.
//!
//! A request is the lines that come before the first empty line, or before
//! the end of the stream. Its first line is the request line and its second
//! the command line; lines after those are ignored.

use crate::command::{
    lemma_reply_status, next_repo, next_step, parse_line, process_command, Step, StepView,
    BODY_BAD_REQUEST,
};
use crate::response::{Response, ResponseView, BAD_REQUEST, NOT_FOUND, OK};
use crate::state::State;
use crate::text::same_text;
use vstd::prelude::*;
use vstd::string::*;

verus! {

/// The only request line that is served.
pub const REQUEST_LINE: &'static str = "GET / HTTP/1.1";

/// Body of the reply to any other request line.
pub const BODY_NOT_FOUND: &'static str = "404";

/// The two lines of a request that the server reads.
#[derive(Debug, Clone, Copy, PartialEq, Eq)]
pub struct Request<'a> {
    pub request_line: &'a str,
    pub command_line: &'a str,
}

/// Why lines do not make a request.
#[derive(Debug, Clone, Copy, PartialEq, Eq)]
pub enum ParseError {
    /// There is no line before the end of the request.
    NoRequestLine,
    /// There is a request line, but no line after it.
    NoCommandLine,
}

/// Collects the lines of one request as they are read off a connection.
///
/// Lines are kept in the order they came in, up to the first empty line,
/// which ends the request and is not kept. Once the request has ended,
/// further lines are dropped.
#[derive(Debug)]
pub struct RequestReader {
    lines: Vec<String>,
    done: bool,
}

/// The mathematical content of a `RequestReader`: the lines kept so far, and
/// whether the empty line was seen.
pub ghost struct ReaderView {
    pub lines: Seq<Seq<char>>,
    pub done: bool,
}

impl View for RequestReader {
    type V = ReaderView;

    closed spec fn view(&self) -> ReaderView {
        ReaderView { lines: texts(self.lines@), done: self.done }
    }
}

/// The characters of each line.
pub open spec fn texts(lines: Seq<String>) -> Seq<Seq<char>> {
    lines.map_values(|line: String| line@)
}

/// A reader that has seen no line.
pub open spec fn fresh_reader() -> ReaderView {
    ReaderView { lines: Seq::empty(), done: false }
}

/// The reader after one more line.
pub open spec fn feed(reader: ReaderView, line: Seq<char>) -> ReaderView {
    if reader.done {
        reader
    } else if line.len() == 0 {
        ReaderView { lines: reader.lines, done: true }
    } else {
        ReaderView { lines: reader.lines.push(line), done: false }
    }
}

/// The reader after all of `lines`, in order.
pub open spec fn feed_all(reader: ReaderView, lines: Seq<Seq<char>>) -> ReaderView
    decreases lines.len(),
{
    if lines.len() == 0 {
        reader
    } else {
        feed_all(feed(reader, lines[0]), lines.drop_first())
    }
}

/// The number of lines before the first empty line, or the number of all
/// lines where none is empty.
pub open spec fn header_len(lines: Seq<Seq<char>>) -> nat
    decreases lines.len(),
{
    if lines.len() == 0 || lines[0].len() == 0 {
        0
    } else {
        1 + header_len(lines.drop_first())
    }
}

/// The lines that make up the request: those before the first empty line.
pub open spec fn header(lines: Seq<Seq<char>>) -> Seq<Seq<char>> {
    lines.take(header_len(lines) as int)
}

/// What the server does for the request that `lines` starts with, when its
/// repository is `repo`.
pub open spec fn answer(lines: Seq<Seq<char>>, repo: Seq<char>) -> StepView {
    if header_len(lines) < 2 {
        StepView::Reply(ResponseView { status: BAD_REQUEST@, body: BODY_BAD_REQUEST@ })
    } else if lines[0] != REQUEST_LINE@ {
        StepView::Reply(ResponseView { status: NOT_FOUND@, body: BODY_NOT_FOUND@ })
    } else {
        next_step(parse_line(lines[1]), repo)
    }
}

/// The server's repository after the request that `lines` starts with, when
/// it was `repo` before.
pub open spec fn repo_after(lines: Seq<Seq<char>>, repo: Seq<char>) -> Seq<char> {
    if header_len(lines) >= 2 && lines[0] == REQUEST_LINE@ {
        next_repo(parse_line(lines[1]), repo)
    } else {
        repo
    }
}

/// `header_len` counts non-empty lines only, and stops at an empty line or
/// at the end.
pub proof fn lemma_header_len(lines: Seq<Seq<char>>)
    ensures
        header_len(lines) <= lines.len(),
        forall|i: int| 0 <= i < header_len(lines) ==> (#[trigger] lines[i]).len() > 0,
        header_len(lines) < lines.len() ==> lines[header_len(lines) as int].len() == 0,
    decreases lines.len(),
{
    if lines.len() == 0 || lines[0].len() == 0 {
    } else {
        let rest = lines.drop_first();
        lemma_header_len(rest);
        assert forall|i: int| 0 <= i < header_len(lines) implies (#[trigger] lines[i]).len()
            > 0 by {
            if i > 0 {
                assert(lines[i] == rest[i - 1]);
            }
        }
    }
}

/// Whether at least `n` lines come before the first empty line.
pub open spec fn has_header_lines(lines: Seq<Seq<char>>, n: nat) -> bool {
    n <= lines.len() && forall|i: int| 0 <= i < n ==> (#[trigger] lines[i]).len() > 0
}

/// `header_len` is at least `n` exactly when the first `n` lines are there
/// and none of them is empty.
pub proof fn lemma_header_len_at_least(lines: Seq<Seq<char>>, n: nat)
    ensures
        header_len(lines) >= n <==> has_header_lines(lines, n),
    decreases n,
{
    if n == 0 {
    } else if lines.len() == 0 || lines[0].len() == 0 {
        if has_header_lines(lines, n) {
            assert(lines[0].len() > 0);
        }
    } else {
        let rest = lines.drop_first();
        lemma_header_len_at_least(rest, (n - 1) as nat);
        if has_header_lines(lines, n) {
            assert forall|i: int| 0 <= i < n - 1 implies (#[trigger] rest[i]).len() > 0 by {
                assert(rest[i] == lines[i + 1]);
            }
        }
        if has_header_lines(rest, (n - 1) as nat) {
            assert forall|i: int| 0 <= i < n implies (#[trigger] lines[i]).len() > 0 by {
                if i > 0 {
                    assert(lines[i] == rest[i - 1]);
                }
            }
        }
    }
}

/// Lines that lack a request line or a command line are a bad request, and
/// leave the repository as it was.
pub proof fn lemma_short_request_is_bad(lines: Seq<Seq<char>>, repo: Seq<char>)
    requires
        !has_header_lines(lines, 2),
    ensures
        answer(lines, repo) == StepView::Reply(
            ResponseView { status: BAD_REQUEST@, body: BODY_BAD_REQUEST@ },
        ),
        repo_after(lines, repo) == repo,
{
    lemma_header_len_at_least(lines, 2);
}

/// A request line other than `GET / HTTP/1.1` is not found and leaves the
/// repository as it was, whatever the command line holds.
pub proof fn lemma_other_request_line_is_not_found(lines: Seq<Seq<char>>, repo: Seq<char>)
    requires
        has_header_lines(lines, 2),
        lines[0] != REQUEST_LINE@,
    ensures
        answer(lines, repo) == StepView::Reply(
            ResponseView { status: NOT_FOUND@, body: BODY_NOT_FOUND@ },
        ),
        repo_after(lines, repo) == repo,
{
    lemma_header_len_at_least(lines, 2);
}

/// Every reply carries one of the three status lines.
pub proof fn lemma_answer_status(lines: Seq<Seq<char>>, repo: Seq<char>)
    ensures
        answer(lines, repo) matches StepView::Reply(reply) ==> reply.status == OK@ || reply.status
            == BAD_REQUEST@ || reply.status == NOT_FOUND@,
{
    if header_len(lines) >= 2 && lines[0] == REQUEST_LINE@ {
        lemma_reply_status(parse_line(lines[1]), repo);
    }
}

/// After the served request line, the command line alone decides, and lines
/// after it change nothing.
pub proof fn lemma_command_line_decides(lines: Seq<Seq<char>>, repo: Seq<char>)
    requires
        has_header_lines(lines, 2),
        lines[0] == REQUEST_LINE@,
    ensures
        answer(lines, repo) == next_step(parse_line(lines[1]), repo),
        repo_after(lines, repo) == next_repo(parse_line(lines[1]), repo),
{
    lemma_header_len_at_least(lines, 2);
}

/// A reader that has seen the empty line keeps what it has.
pub proof fn lemma_feed_all_when_done(reader: ReaderView, lines: Seq<Seq<char>>)
    requires
        reader.done,
    ensures
        feed_all(reader, lines) == reader,
    decreases lines.len(),
{
    if lines.len() > 0 {
        lemma_feed_all_when_done(reader, lines.drop_first());
    }
}

/// A reader that is fed lines keeps those before the first empty line, after
/// what it had, and has ended where there is an empty line.
pub proof fn lemma_feed_all(kept: Seq<Seq<char>>, lines: Seq<Seq<char>>)
    ensures
        feed_all(ReaderView { lines: kept, done: false }, lines) == (ReaderView {
            lines: kept + header(lines),
            done: header_len(lines) < lines.len(),
        }),
    decreases lines.len(),
{
    let reader = ReaderView { lines: kept, done: false };
    if lines.len() == 0 {
        assert(kept + header(lines) =~= kept);
    } else if lines[0].len() == 0 {
        lemma_feed_all_when_done(feed(reader, lines[0]), lines.drop_first());
        assert(kept + header(lines) =~= kept);
    } else {
        let rest = lines.drop_first();
        lemma_feed_all(kept.push(lines[0]), rest);
        lemma_header_len(rest);
        assert(kept.push(lines[0]) + header(rest) =~= kept + header(lines));
    }
}

/// A fresh reader that is fed lines holds the request that they start with.
pub proof fn lemma_reader_keeps_header(lines: Seq<Seq<char>>)
    ensures
        feed_all(fresh_reader(), lines).lines == header(lines),
        feed_all(fresh_reader(), lines).done <==> header_len(lines) < lines.len(),
{
    lemma_feed_all(Seq::empty(), lines);
    assert(Seq::<Seq<char>>::empty() + header(lines) =~= header(lines));
}

/// The answer to a request depends on the lines before the first empty line
/// alone.
pub proof fn lemma_answer_reads_header(lines: Seq<Seq<char>>, repo: Seq<char>)
    ensures
        answer(header(lines), repo) == answer(lines, repo),
        repo_after(header(lines), repo) == repo_after(lines, repo),
{
    lemma_header_len(lines);
    lemma_header_len_at_least(lines, 2);
    lemma_header_len_at_least(header(lines), 2);
    if has_header_lines(lines, 2) {
        assert(header(lines)[0] == lines[0]);
        assert(header(lines)[1] == lines[1]);
    }
    if has_header_lines(header(lines), 2) {
        assert(header(lines)[0] == lines[0]);
        assert(header(lines)[1] == lines[1]);
    }
}

impl RequestReader {
    /// A reader that has seen no line.
    pub fn new() -> (reader: RequestReader)
        ensures
            reader@ == fresh_reader(),
    {
        let reader = RequestReader { lines: Vec::new(), done: false };
        assert(texts(reader.lines@) =~= Seq::<Seq<char>>::empty());
        reader
    }

    /// Takes the next line read. Says whether the request goes on: `false`
    /// once the empty line has come.
    pub fn push(&mut self, line: String) -> (more: bool)
        ensures
            final(self)@ == feed(old(self)@, line@),
            more == !final(self)@.done,
    {
        if self.done {
            return false;
        }
        if ends_request(line.as_str()) {
            self.done = true;
            return false;
        }
        self.lines.push(line);
        assert(texts(self.lines@) =~= texts(old(self).lines@).push(line@));
        true
    }

    /// Whether the empty line has come.
    pub fn is_done(&self) -> (done: bool)
        ensures
            done == self@.done,
    {
        self.done
    }

    /// The lines kept, in the order they came in.
    pub fn into_lines(self) -> (lines: Vec<String>)
        ensures
            texts(lines@) == self@.lines,
    {
        self.lines
    }
}

/// Whether `line` ends a request: it is the empty line.
pub fn ends_request(line: &str) -> (ends: bool)
    ensures
        ends == (line@.len() == 0),
{
    line.is_empty()
}

/// Picks the request line and the command line out of the lines read.
///
/// Fails when fewer than two lines come before the first empty line.
pub fn parse_request<'a>(lines: &'a Vec<String>) -> (parsed: Result<Request<'a>, ParseError>)
    ensures
        match parsed {
            Ok(request) => {
                &&& header_len(texts(lines@)) >= 2
                &&& request.request_line@ == lines@[0]@
                &&& request.command_line@ == lines@[1]@
            },
            Err(ParseError::NoRequestLine) => header_len(texts(lines@)) == 0,
            Err(ParseError::NoCommandLine) => header_len(texts(lines@)) == 1,
        },
{
    proof {
        lemma_header_len_at_least(texts(lines@), 1);
        lemma_header_len_at_least(texts(lines@), 2);
    }
    if lines.len() == 0 {
        return Err(ParseError::NoRequestLine);
    }
    let request_line: &'a str = lines[0].as_str();
    assert(texts(lines@)[0] == lines@[0]@);
    if ends_request(request_line) {
        return Err(ParseError::NoRequestLine);
    }
    if lines.len() == 1 {
        return Err(ParseError::NoCommandLine);
    }
    let command_line: &'a str = lines[1].as_str();
    assert(texts(lines@)[1] == lines@[1]@);
    if ends_request(command_line) {
        return Err(ParseError::NoCommandLine);
    }
    Ok(Request { request_line, command_line })
}

/// Answers the request that `lines` starts with.
///
/// Fewer than two lines are a bad request. A request line other than
/// `GET / HTTP/1.1` is not found, whatever the command line holds. Otherwise
/// the command line decides.
pub fn handle_request(lines: &Vec<String>, state: &mut State) -> (step: Step)
    ensures
        step@ == answer(texts(lines@), old(state).repo@),
        final(state).repo@ == repo_after(texts(lines@), old(state).repo@),
{
    match parse_request(lines) {
        Err(_) => Step::Reply(Response::new(BAD_REQUEST, BODY_BAD_REQUEST)),
        Ok(request) => {
            proof {
                lemma_header_len(texts(lines@));
            }
            if same_text(request.request_line, REQUEST_LINE) {
                process_command(request.command_line, state)
            } else {
                Step::Reply(Response::new(NOT_FOUND, BODY_NOT_FOUND))
            }
        },
    }
}

} // verus!
