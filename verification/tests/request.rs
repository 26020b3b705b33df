use lending_library::request::{
    parse_length_header, parse_request_line, Action, Input, Reader, Request,
};
use lending_library::response::{Response, BAD_REQUEST};

fn pair(method: &str, path: &str) -> Option<(String, String)> {
    Some((method.to_string(), path.to_string()))
}

/// The request line as the standard library splits it.
fn split_by_std(line: &str) -> Option<(String, String)> {
    let mut parts = line.split_whitespace();
    let method = parts.next()?;
    let path = parts.next()?;
    Some((method.to_string(), path.to_string()))
}

/// The body length as the standard library's string functions find it.
fn length_by_std(line: &str) -> Option<usize> {
    if line.to_lowercase().starts_with("content-length:") {
        Some(line.split(':').nth(1).unwrap().trim().parse().unwrap_or(0))
    } else {
        None
    }
}

#[test]
fn request_line_gives_method_and_path() {
    assert_eq!(parse_request_line("GET /api/books HTTP/1.1"), pair("GET", "/api/books"));
    assert_eq!(parse_request_line("POST /api/borrow"), pair("POST", "/api/borrow"));
    assert_eq!(parse_request_line("  DELETE \t /api/books/7   x y z"), pair("DELETE", "/api/books/7"));
    assert_eq!(parse_request_line("GET\u{a0}/p\u{e9}"), pair("GET", "/p\u{e9}"));
}

#[test]
fn request_line_without_method_or_path_is_malformed() {
    assert_eq!(parse_request_line(""), None);
    assert_eq!(parse_request_line("   "), None);
    assert_eq!(parse_request_line("GET"), None);
    assert_eq!(parse_request_line("  GET  "), None);
    assert_eq!(parse_request_line("\t\r"), None);
}

#[test]
fn request_line_is_split_as_the_standard_library_splits_it() {
    let lines = [
        "",
        " ",
        "GET",
        "GET /",
        "GET / HTTP/1.1",
        " GET  /a  b ",
        "\tPOST\t/api/login\tHTTP/1.1\t",
        "GET\u{2003}/x",
        "\u{3000}",
        "a\u{200b}b c",
        "PATCH /api/books/3 HTTP/1.1",
    ];
    for line in lines {
        assert_eq!(parse_request_line(line), split_by_std(line), "{:?}", line);
    }
}

#[test]
fn length_header_gives_the_length() {
    assert_eq!(parse_length_header("Content-Length: 12"), Some(12));
    assert_eq!(parse_length_header("content-length:7"), Some(7));
    assert_eq!(parse_length_header("CONTENT-LENGTH:   0042  "), Some(42));
    assert_eq!(parse_length_header("Content-Length: +5"), Some(5));
    assert_eq!(parse_length_header("Content-Length: 5:6"), Some(5));
}

#[test]
fn length_that_is_no_number_counts_as_zero() {
    assert_eq!(parse_length_header("Content-Length: abc"), Some(0));
    assert_eq!(parse_length_header("Content-Length: -1"), Some(0));
    assert_eq!(parse_length_header("Content-Length:"), Some(0));
    assert_eq!(parse_length_header("Content-Length: 1 2"), Some(0));
    assert_eq!(parse_length_header("Content-Length: 99999999999999999999999999"), Some(0));
}

#[test]
fn other_headers_announce_no_length() {
    assert_eq!(parse_length_header("Content-Type: application/json"), None);
    assert_eq!(parse_length_header("Content-Length"), None);
    assert_eq!(parse_length_header(" Content-Length: 3"), None);
    assert_eq!(parse_length_header("X-Content-Length: 3"), None);
    assert_eq!(parse_length_header(""), None);
}

#[test]
fn length_header_is_read_as_the_standard_library_reads_it() {
    let lines = [
        "Content-Length: 12",
        "content-length:12",
        "CoNtEnT-lEnGtH:\t12\t",
        "Content-Length: 12: 13",
        "Content-Length::12",
        "Content-Length: 0",
        "Content-Length: 00",
        "Content-Length: +0",
        "Content-Length: -0",
        "Content-Length: 1e3",
        "Content-Length: \u{a0}8\u{a0}",
        "Content-Length",
        "Content-Type: text/html",
        "Host: localhost:7878",
        "",
        "content-length\u{ff1a}5",
        "\u{212a}ontent-length: 5",
    ];
    for line in lines {
        assert_eq!(parse_length_header(line), length_by_std(line), "{:?}", line);
    }
}

#[test]
fn reader_reads_a_request_with_a_body() {
    let reader = Reader::new();
    let (reader, action) = reader.advance(Input::Line("POST /api/borrow HTTP/1.1".to_string()));
    assert!(matches!(action, Action::ReadLine));
    let (reader, action) = reader.advance(Input::Line("Host: localhost".to_string()));
    assert!(matches!(action, Action::ReadLine));
    let (reader, action) = reader.advance(Input::Line("Content-Length: 27".to_string()));
    assert!(matches!(action, Action::ReadLine));
    let (reader, action) = reader.advance(Input::Line("".to_string()));
    assert!(matches!(action, Action::ReadBody(27)));
    let (reader, action) =
        reader.advance(Input::Body("{\"user_id\":1,\"book_id\":2}  ".to_string()));
    match action {
        Action::Serve(Request { method, path, body }) => {
            assert_eq!(method, "POST");
            assert_eq!(path, "/api/borrow");
            assert_eq!(body, "{\"user_id\":1,\"book_id\":2}  ");
        }
        _ => panic!("the request is complete"),
    }
    assert!(matches!(reader, Reader::Done));
}

#[test]
fn reader_asks_for_an_empty_body_without_a_length_header() {
    let (reader, _) = Reader::new().advance(Input::Line("GET /api/books HTTP/1.1".to_string()));
    let (reader, action) = reader.advance(Input::Line("".to_string()));
    assert!(matches!(action, Action::ReadBody(0)));
    let (_, action) = reader.advance(Input::Body(String::new()));
    match action {
        Action::Serve(request) => {
            assert_eq!(request.method, "GET");
            assert_eq!(request.path, "/api/books");
            assert_eq!(request.body, "");
        }
        _ => panic!("the request is complete"),
    }
}

#[test]
fn reader_takes_the_last_length_header() {
    let (reader, _) = Reader::new().advance(Input::Line("POST /x HTTP/1.1".to_string()));
    let (reader, _) = reader.advance(Input::Line("Content-Length: 5".to_string()));
    let (reader, _) = reader.advance(Input::Line("Content-Length: 9".to_string()));
    let (reader, _) = reader.advance(Input::Line("Accept: */*".to_string()));
    let (_, action) = reader.advance(Input::Line("".to_string()));
    assert!(matches!(action, Action::ReadBody(9)));
}

#[test]
fn reader_refuses_a_malformed_request_line() {
    for line in ["", "GET", "   ", " /only-a-path "] {
        let (reader, action) = Reader::new().advance(Input::Line(line.to_string()));
        assert!(matches!(action, Action::Refuse), "{:?}", line);
        assert!(matches!(reader, Reader::Done));
    }
    let answer = Response::malformed();
    assert_eq!(answer.status_line, BAD_REQUEST);
    assert!(answer.status_line.starts_with("HTTP/1.1 4"));
}

#[test]
fn reader_closes_on_a_failed_read() {
    let (reader, action) = Reader::new().advance(Input::Failed);
    assert!(matches!(action, Action::Close));
    assert!(matches!(reader, Reader::Done));
    let (reader, _) = Reader::new().advance(Input::Line("GET / HTTP/1.1".to_string()));
    let (_, action) = reader.advance(Input::Failed);
    assert!(matches!(action, Action::Close));
    let (reader, _) = Reader::new().advance(Input::Line("GET / HTTP/1.1".to_string()));
    let (reader, _) = reader.advance(Input::Line("".to_string()));
    let (_, action) = reader.advance(Input::Failed);
    assert!(matches!(action, Action::Close));
}

#[test]
fn reader_closes_on_an_input_that_it_did_not_ask_for() {
    let (_, action) = Reader::new().advance(Input::Body("x".to_string()));
    assert!(matches!(action, Action::Close));
    let (reader, _) = Reader::new().advance(Input::Line("GET / HTTP/1.1".to_string()));
    let (_, action) = reader.advance(Input::Body("x".to_string()));
    assert!(matches!(action, Action::Close));
    let (reader, _) = Reader::new().advance(Input::Line("GET / HTTP/1.1".to_string()));
    let (reader, _) = reader.advance(Input::Line("".to_string()));
    let (reader, action) = reader.advance(Input::Line("more".to_string()));
    assert!(matches!(action, Action::Close));
    let (_, action) = reader.advance(Input::Line("GET / HTTP/1.1".to_string()));
    assert!(matches!(action, Action::Close));
}
