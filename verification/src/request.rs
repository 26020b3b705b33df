//! Reading one request off a connection.
//!
//! The reader never touches a socket. It is a state machine: the caller hands
//! it what it has just read, a line or the body, and is told what to read
//! next, or that the request is complete, or that the connection is to be
//! refused or closed. One connection carries one request.

use crate::text::{
    chars_of, copy_range, find_char, has_prefix_ignoring_case, is_blank, is_solid,
    is_whitespace, lemma_leading_white_space, lemma_token, parse_int, parse_unsigned, scan_for,
    scan_token, scan_whitespace, skip_token, skip_whitespace, starts_with_ignoring_case, trim,
    trimmed,
};
use vstd::prelude::*;
use vstd::string::*;

verus! {

/// One request, as far as the routes and handlers look at it.
pub struct Request {
    pub method: String,
    pub path: String,
    pub body: String,
}

/// The mathematical content of a [`Request`].
pub struct RequestView {
    pub method: Seq<char>,
    pub path: Seq<char>,
    pub body: Seq<char>,
}

impl View for Request {
    type V = RequestView;

    open spec fn view(&self) -> RequestView {
        RequestView { method: self.method@, path: self.path@, body: self.body@ }
    }
}

/// The name of the header that gives the length of the body, in lower case
/// and with its colon.
pub open spec fn length_header_name() -> Seq<char> {
    "content-length:"@
}

/// The method and the path of a request line: its first two runs of
/// characters other than white space. `None` where the line has fewer than
/// two.
pub open spec fn request_line_of(line: Seq<char>) -> Option<(Seq<char>, Seq<char>)> {
    let method_start = skip_whitespace(line, 0);
    let method_end = skip_token(line, method_start);
    let path_start = skip_whitespace(line, method_end);
    let path_end = skip_token(line, path_start);
    if method_start < method_end && path_start < path_end {
        Some((line.subrange(method_start, method_end), line.subrange(path_start, path_end)))
    } else {
        None
    }
}

/// The body length that a header line announces, or `None` where the line is
/// no length header.
///
/// A length header begins with `content-length:` in any mix of upper and
/// lower case. Its value runs up to the next colon or the end of the line,
/// white space around it left out. A value that is no number, or one that
/// does not fit `usize`, counts as 0.
pub open spec fn announced_length(line: Seq<char>) -> Option<usize> {
    if starts_with_ignoring_case(line, length_header_name()) {
        let start = length_header_name().len() as int;
        let end = find_char(line, ':', start);
        match parse_int(trim(line.subrange(start, end)), false, 0, usize::MAX as int) {
            Some(n) => Some(n as usize),
            None => Some(0usize),
        }
    } else {
        None
    }
}

/// Splits a request line into method and path.
pub fn parse_request_line(line: &str) -> (r: Option<(String, String)>)
    ensures
        match r {
            Some((method, path)) => request_line_of(line@) == Some((method@, path@)),
            None => request_line_of(line@) is None,
        },
{
    let cs = chars_of(line);
    let method_start = scan_whitespace(&cs, 0);
    let method_end = scan_token(&cs, method_start);
    let path_start = scan_whitespace(&cs, method_end);
    let path_end = scan_token(&cs, path_start);
    if method_start < method_end && path_start < path_end {
        let method = line.substring_char(method_start, method_end).to_owned();
        let path = line.substring_char(path_start, path_end).to_owned();
        Some((method, path))
    } else {
        None
    }
}

/// Reads the body length off a header line, if the line is a length header.
pub fn parse_length_header(line: &str) -> (r: Option<usize>)
    ensures
        r == announced_length(line@),
{
    let cs = chars_of(line);
    let name = chars_of("content-length:");
    proof {
        reveal_strlit("content-length:");
    }
    if !has_prefix_ignoring_case(&cs, &name) {
        return None;
    }
    let start: usize = name.len();
    let end = scan_for(&cs, ':', start);
    let value = copy_range(&cs, start, end);
    let digits = trimmed(&value);
    match parse_unsigned(&digits, usize::MAX as u64) {
        Some(n) => Some(n as usize),
        None => Some(0),
    }
}

/// Where the reader stands.
pub enum Reader {
    /// Nothing has been read; the request line comes first.
    Start,
    /// The request line is in. Header lines follow, up to an empty line.
    Headers { method: String, path: String, content_length: usize },
    /// The empty line is in. The body follows.
    Body { method: String, path: String },
    /// Nothing more is read from this connection.
    Done,
}

/// What the caller has just read.
pub enum Input {
    /// One line, without its line ending.
    Line(String),
    /// The whole body, decoded.
    Body(String),
    /// The read failed: the peer closed the connection, sent too few bytes,
    /// or sent bytes that are no text.
    Failed,
}

/// What the caller does next.
pub enum Action {
    /// Read one more line.
    ReadLine,
    /// Read exactly this many bytes of body.
    ReadBody(usize),
    /// The request is complete: answer it.
    Serve(Request),
    /// The request line is malformed: answer with a client error.
    Refuse,
    /// Close the connection without an answer.
    Close,
}

/// The mathematical content of a [`Reader`].
pub enum ReaderView {
    Start,
    Headers { method: Seq<char>, path: Seq<char>, content_length: usize },
    Body { method: Seq<char>, path: Seq<char> },
    Done,
}

/// The mathematical content of an [`Input`].
pub enum InputView {
    Line(Seq<char>),
    Body(Seq<char>),
    Failed,
}

/// The mathematical content of an [`Action`].
pub enum ActionView {
    ReadLine,
    ReadBody(usize),
    Serve(RequestView),
    Refuse,
    Close,
}

impl View for Reader {
    type V = ReaderView;

    open spec fn view(&self) -> ReaderView {
        match self {
            Reader::Start => ReaderView::Start,
            Reader::Headers { method, path, content_length } => ReaderView::Headers {
                method: method@,
                path: path@,
                content_length: *content_length,
            },
            Reader::Body { method, path } => ReaderView::Body { method: method@, path: path@ },
            Reader::Done => ReaderView::Done,
        }
    }
}

impl View for Input {
    type V = InputView;

    open spec fn view(&self) -> InputView {
        match self {
            Input::Line(line) => InputView::Line(line@),
            Input::Body(body) => InputView::Body(body@),
            Input::Failed => InputView::Failed,
        }
    }
}

impl View for Action {
    type V = ActionView;

    open spec fn view(&self) -> ActionView {
        match self {
            Action::ReadLine => ActionView::ReadLine,
            Action::ReadBody(n) => ActionView::ReadBody(*n),
            Action::Serve(request) => ActionView::Serve(request@),
            Action::Refuse => ActionView::Refuse,
            Action::Close => ActionView::Close,
        }
    }
}

/// The reader's transition: the state and action that follow from a state
/// and an input.
///
/// * At the start, a line with a method and a path opens the headers with an
///   announced length of 0; any other line is refused.
/// * Among the headers, an empty line asks for the body, of the length that
///   the last length header announced; any other line is scanned for a
///   length header and the next line is asked for.
/// * The body completes the request.
/// * A failed read, or an input that the state does not expect, closes the
///   connection.
pub open spec fn advance_spec(state: ReaderView, input: InputView) -> (ReaderView, ActionView) {
    match (state, input) {
        (ReaderView::Start, InputView::Line(line)) => match request_line_of(line) {
            Some((method, path)) => (
                ReaderView::Headers { method, path, content_length: 0 },
                ActionView::ReadLine,
            ),
            None => (ReaderView::Done, ActionView::Refuse),
        },
        (ReaderView::Headers { method, path, content_length }, InputView::Line(line)) => {
            if line.len() == 0 {
                (ReaderView::Body { method, path }, ActionView::ReadBody(content_length))
            } else {
                match announced_length(line) {
                    Some(n) => (
                        ReaderView::Headers { method, path, content_length: n },
                        ActionView::ReadLine,
                    ),
                    None => (
                        ReaderView::Headers { method, path, content_length },
                        ActionView::ReadLine,
                    ),
                }
            }
        },
        (ReaderView::Body { method, path }, InputView::Body(body)) => (
            ReaderView::Done,
            ActionView::Serve(RequestView { method, path, body }),
        ),
        _ => (ReaderView::Done, ActionView::Close),
    }
}

impl Reader {
    /// A reader that has read nothing yet. Its first action is to read a
    /// line.
    pub fn new() -> (r: Reader)
        ensures
            r@ == ReaderView::Start,
    {
        Reader::Start
    }

    /// Takes what the caller has read and says what to do next.
    pub fn advance(self, input: Input) -> (r: (Reader, Action))
        ensures
            (r.0@, r.1@) == advance_spec(self@, input@),
    {
        match (self, input) {
            (Reader::Start, Input::Line(line)) => match parse_request_line(line.as_str()) {
                Some((method, path)) => (
                    Reader::Headers { method, path, content_length: 0 },
                    Action::ReadLine,
                ),
                None => (Reader::Done, Action::Refuse),
            },
            (Reader::Headers { method, path, content_length }, Input::Line(line)) => {
                if line.as_str().is_empty() {
                    (Reader::Body { method, path }, Action::ReadBody(content_length))
                } else {
                    match parse_length_header(line.as_str()) {
                        Some(n) => (
                            Reader::Headers { method, path, content_length: n },
                            Action::ReadLine,
                        ),
                        None => (Reader::Headers { method, path, content_length }, Action::ReadLine),
                    }
                }
            },
            (Reader::Body { method, path }, Input::Body(body)) => (
                Reader::Done,
                Action::Serve(Request { method, path, body }),
            ),
            _ => (Reader::Done, Action::Close),
        }
    }
}

/// Whatever the first line of a connection holds, the reader has an answer
/// to it, and a line without a method or without a path is refused: the
/// reader is done with the connection, which gets a client error, and asks
/// for nothing more. A line misses its method or its path exactly if it
/// holds fewer than two runs of characters other than white space.
pub proof fn law_malformed_request_line_is_refused(line: Seq<char>)
    ensures
        request_line_of(line) is None <==> advance_spec(
            ReaderView::Start,
            InputView::Line(line),
        ) == (ReaderView::Done, ActionView::Refuse),
        request_line_of(line) is None <==> {
            let method_start = skip_whitespace(line, 0);
            let path_start = skip_whitespace(line, skip_token(line, method_start));
            method_start >= line.len() || path_start >= line.len()
        },
        forall|input: InputView|
            (#[trigger] advance_spec(ReaderView::Done, input)) == (
                ReaderView::Done,
                ActionView::Close,
            ),
{
    let method_start = skip_whitespace(line, 0);
    lemma_leading_white_space(line, 0);
    let method_end = skip_token(line, method_start);
    lemma_token(line, method_start);
    let path_start = skip_whitespace(line, method_end);
    lemma_leading_white_space(line, method_end);
    lemma_token(line, path_start);
}

/// The method and the path of a request line are its first two runs of
/// characters other than white space: before the method stands white space
/// only, between method and path white space and nothing else, and behind
/// the path white space or the end of the line.
pub proof fn law_request_line_splits_at_white_space(line: Seq<char>)
    ensures
        match request_line_of(line) {
            Some((method, path)) => {
                &&& method.len() > 0
                &&& path.len() > 0
                &&& is_solid(method)
                &&& is_solid(path)
                &&& exists|a: int, b: int, c: int, d: int|
                    {
                        &&& 0 <= a < b < c < d <= line.len()
                        &&& is_blank(line.subrange(0, a))
                        &&& #[trigger] line.subrange(a, b) == method
                        &&& is_blank(line.subrange(b, c))
                        &&& #[trigger] line.subrange(c, d) == path
                        &&& d < line.len() ==> is_whitespace(line[d])
                    }
            },
            None => true,
        },
{
    let a = skip_whitespace(line, 0);
    lemma_leading_white_space(line, 0);
    let b = skip_token(line, a);
    lemma_token(line, a);
    let c = skip_whitespace(line, b);
    lemma_leading_white_space(line, b);
    let d = skip_token(line, c);
    lemma_token(line, c);
    match request_line_of(line) {
        Some((method, path)) => {
            assert(is_whitespace(line[b]));
            assert(line.subrange(a, b) == method);
            assert(line.subrange(c, d) == path);
        },
        None => {},
    }
}

} // verus!
