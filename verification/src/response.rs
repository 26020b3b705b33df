//! Responses: the status lines and content types of the service, and the
//! bytes that go on the wire.

use crate::route::{FileKind, StaticFile};
use crate::text::{decimal, push_decimal};
use vstd::prelude::*;
use vstd::string::*;
use vstd::utf8::encode_utf8;

verus! {

pub const OK: &'static str = "HTTP/1.1 200 OK";

pub const CREATED: &'static str = "HTTP/1.1 201 Created";

pub const BAD_REQUEST: &'static str = "HTTP/1.1 400 Bad Request";

pub const UNAUTHORIZED: &'static str = "HTTP/1.1 401 Unauthorized";

pub const NOT_FOUND: &'static str = "HTTP/1.1 404 Not Found";

/// The status line of a static asset that is missing, of a borrow record
/// that is missing, and of a request that no route matches.
pub const NOT_FOUND_UPPER: &'static str = "HTTP/1.1 404 NOT FOUND";

pub const CONFLICT: &'static str = "HTTP/1.1 409 Conflict";

pub const INTERNAL_SERVER_ERROR: &'static str = "HTTP/1.1 500 Internal Server Error";

pub const JSON: &'static str = "application/json";

pub const HTML: &'static str = "text/html";

pub const JAVASCRIPT: &'static str = "application/javascript";

pub const CSS: &'static str = "text/css";

/// The body that stands in for a page that is missing.
pub const MISSING_PAGE: &'static str = "<h1>404 Page Not Found</h1>";

/// The body that stands in for a script that is missing.
pub const MISSING_SCRIPT: &'static str = "console.error('JS file not found');";

/// The body that stands in for a style sheet that is missing.
pub const MISSING_STYLE: &'static str = "/* CSS file not found */";

/// The body of the answer to a request line without method or path.
pub const MALFORMED_REQUEST: &'static str = "{\"success\": false, \"message\": \"Malformed request\"}";

/// One response.
#[derive(Debug)]
pub struct Response {
    pub status_line: &'static str,
    pub content_type: &'static str,
    pub body: String,
}

/// The mathematical content of a [`Response`].
pub struct ResponseView {
    pub status_line: Seq<char>,
    pub content_type: Seq<char>,
    pub body: Seq<char>,
}

impl View for Response {
    type V = ResponseView;

    open spec fn view(&self) -> ResponseView {
        ResponseView {
            status_line: self.status_line@,
            content_type: self.content_type@,
            body: self.body@,
        }
    }
}

impl ResponseView {
    /// The response as it goes on the wire: the status line, the content
    /// type, the length of the body in bytes, an empty line, the body.
    pub open spec fn wire(self) -> Seq<char> {
        self.status_line + "\r\nContent-Type: "@ + self.content_type + "\r\nContent-Length: "@
            + decimal(encode_utf8(self.body).len()) + "\r\n\r\n"@ + self.body
    }
}

/// The content type of a static asset.
pub open spec fn content_type_of(kind: FileKind) -> &'static str {
    match kind {
        FileKind::Page => HTML,
        FileKind::Script => JAVASCRIPT,
        FileKind::Style => CSS,
    }
}

/// The body that stands in for a static asset that is missing.
pub open spec fn missing_body_of(kind: FileKind) -> &'static str {
    match kind {
        FileKind::Page => MISSING_PAGE,
        FileKind::Script => MISSING_SCRIPT,
        FileKind::Style => MISSING_STYLE,
    }
}

/// The response that serves a static asset: its content if the file could
/// be read, else a stand-in that says that it is missing.
pub open spec fn file_response_of(file: StaticFile, content: Option<Seq<char>>) -> ResponseView {
    match content {
        Some(text) => ResponseView {
            status_line: OK@,
            content_type: content_type_of(file.kind)@,
            body: text,
        },
        None => ResponseView {
            status_line: NOT_FOUND_UPPER@,
            content_type: content_type_of(file.kind)@,
            body: missing_body_of(file.kind)@,
        },
    }
}

impl Response {
    /// A response with a JSON body.
    pub fn json(status_line: &'static str, body: String) -> (r: Response)
        ensures
            r@ == (ResponseView { status_line: status_line@, content_type: JSON@, body: body@ }),
    {
        Response { status_line, content_type: JSON, body }
    }

    /// The answer to a request line without method or path: a client error.
    pub fn malformed() -> (r: Response)
        ensures
            r@ == (ResponseView {
                status_line: BAD_REQUEST@,
                content_type: JSON@,
                body: MALFORMED_REQUEST@,
            }),
    {
        Response::json(BAD_REQUEST, MALFORMED_REQUEST.to_owned())
    }

    /// The response that serves the static asset `file`; `content` is what
    /// the file holds, or `None` where it could not be read.
    pub fn file(file: StaticFile, content: Option<String>) -> (r: Response)
        ensures
            r@ == file_response_of(
                file,
                match content {
                    Some(text) => Some(text@),
                    None => None,
                },
            ),
    {
        let content_type = match file.kind {
            FileKind::Page => HTML,
            FileKind::Script => JAVASCRIPT,
            FileKind::Style => CSS,
        };
        match content {
            Some(body) => Response { status_line: OK, content_type, body },
            None => {
                let missing = match file.kind {
                    FileKind::Page => MISSING_PAGE,
                    FileKind::Script => MISSING_SCRIPT,
                    FileKind::Style => MISSING_STYLE,
                };
                Response { status_line: NOT_FOUND_UPPER, content_type, body: missing.to_owned() }
            },
        }
    }

    /// The response as it goes on the wire.
    pub fn render(&self) -> (r: String)
        ensures
            r@ == self@.wire(),
    {
        let mut out = self.status_line.to_owned();
        out.append("\r\nContent-Type: ");
        out.append(self.content_type);
        out.append("\r\nContent-Length: ");
        let length: usize = self.body.as_str().as_bytes().len();
        push_decimal(&mut out, length as u64);
        out.append("\r\n\r\n");
        out.append(self.body.as_str());
        assert(out@ =~= self@.wire());
        out
    }
}

} // verus!
