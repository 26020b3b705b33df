use lending_library::response::{
    Response, BAD_REQUEST, CONFLICT, CREATED, CSS, HTML, INTERNAL_SERVER_ERROR, JAVASCRIPT, JSON,
    MALFORMED_REQUEST, MISSING_PAGE, MISSING_SCRIPT, MISSING_STYLE, NOT_FOUND, NOT_FOUND_UPPER, OK,
    UNAUTHORIZED,
};
use lending_library::route::{FileKind, StaticFile};

#[test]
fn status_lines() {
    assert_eq!(OK, "HTTP/1.1 200 OK");
    assert_eq!(CREATED, "HTTP/1.1 201 Created");
    assert_eq!(BAD_REQUEST, "HTTP/1.1 400 Bad Request");
    assert_eq!(UNAUTHORIZED, "HTTP/1.1 401 Unauthorized");
    assert_eq!(NOT_FOUND, "HTTP/1.1 404 Not Found");
    assert_eq!(NOT_FOUND_UPPER, "HTTP/1.1 404 NOT FOUND");
    assert_eq!(CONFLICT, "HTTP/1.1 409 Conflict");
    assert_eq!(INTERNAL_SERVER_ERROR, "HTTP/1.1 500 Internal Server Error");
}

#[test]
fn a_response_goes_on_the_wire_with_its_length() {
    let r = Response::json(OK, "{\"a\":1}".to_string());
    assert_eq!(
        r.render(),
        "HTTP/1.1 200 OK\r\nContent-Type: application/json\r\nContent-Length: 7\r\n\r\n{\"a\":1}"
    );
}

#[test]
fn the_length_counts_bytes() {
    let r = Response { status_line: OK, content_type: HTML, body: "\u{e9}\u{4e2d}\u{1f600}".to_string() };
    assert_eq!(
        r.render(),
        "HTTP/1.1 200 OK\r\nContent-Type: text/html\r\nContent-Length: 9\r\n\r\n\u{e9}\u{4e2d}\u{1f600}"
    );
}

#[test]
fn an_empty_body_has_length_zero() {
    let r = Response { status_line: NOT_FOUND, content_type: CSS, body: String::new() };
    assert_eq!(
        r.render(),
        "HTTP/1.1 404 Not Found\r\nContent-Type: text/css\r\nContent-Length: 0\r\n\r\n"
    );
}

#[test]
fn a_long_body_has_a_length_of_several_digits() {
    let body = "x".repeat(12_345);
    let r = Response { status_line: OK, content_type: JAVASCRIPT, body: body.clone() };
    assert_eq!(
        r.render(),
        format!(
            "HTTP/1.1 200 OK\r\nContent-Type: application/javascript\r\nContent-Length: 12345\r\n\r\n{}",
            body
        )
    );
}

#[test]
fn a_file_that_was_read_is_served() {
    let file = StaticFile { file: "frontend/login.html", kind: FileKind::Page };
    let r = Response::file(file, Some("<p>hi</p>".to_string()));
    assert_eq!((r.status_line, r.content_type, r.body.as_str()), (OK, "text/html", "<p>hi</p>"));
    let file = StaticFile { file: "frontend/js/auth.js", kind: FileKind::Script };
    let r = Response::file(file, Some("let a;".to_string()));
    assert_eq!((r.status_line, r.content_type, r.body.as_str()), (OK, "application/javascript", "let a;"));
    let file = StaticFile { file: "frontend/styles.css", kind: FileKind::Style };
    let r = Response::file(file, Some(String::new()));
    assert_eq!((r.status_line, r.content_type, r.body.as_str()), (OK, "text/css", ""));
}

#[test]
fn a_file_that_is_missing_gets_a_stand_in() {
    let file = StaticFile { file: "frontend/login.html", kind: FileKind::Page };
    let r = Response::file(file, None);
    assert_eq!(
        (r.status_line, r.content_type, r.body.as_str()),
        ("HTTP/1.1 404 NOT FOUND", "text/html", "<h1>404 Page Not Found</h1>")
    );
    let file = StaticFile { file: "frontend/js/auth.js", kind: FileKind::Script };
    let r = Response::file(file, None);
    assert_eq!(
        (r.status_line, r.content_type, r.body.as_str()),
        ("HTTP/1.1 404 NOT FOUND", "application/javascript", "console.error('JS file not found');")
    );
    let file = StaticFile { file: "frontend/styles.css", kind: FileKind::Style };
    let r = Response::file(file, None);
    assert_eq!(
        (r.status_line, r.content_type, r.body.as_str()),
        ("HTTP/1.1 404 NOT FOUND", "text/css", "/* CSS file not found */")
    );
    assert_eq!(MISSING_PAGE, "<h1>404 Page Not Found</h1>");
    assert_eq!(MISSING_SCRIPT, "console.error('JS file not found');");
    assert_eq!(MISSING_STYLE, "/* CSS file not found */");
}

#[test]
fn a_malformed_request_gets_a_client_error() {
    let r = Response::malformed();
    assert_eq!(r.status_line, "HTTP/1.1 400 Bad Request");
    assert_eq!(r.content_type, JSON);
    assert_eq!(r.body, MALFORMED_REQUEST);
    assert_eq!(
        r.render(),
        "HTTP/1.1 400 Bad Request\r\nContent-Type: application/json\r\nContent-Length: 50\r\n\r\n{\"success\": false, \"message\": \"Malformed request\"}"
    );
}
