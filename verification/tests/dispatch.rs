use lending_library::db::Database;
use lending_library::dispatch::{changes_ledger, handle_connection, serve, Reply};
use lending_library::request::Request;
use lending_library::route::{FileKind, Route, RouteTable, StaticFile};

const NOW: u64 = 1_700_000_000;

fn request(method: &str, path: &str, body: &str) -> Request {
    Request { method: method.to_string(), path: path.to_string(), body: body.to_string() }
}

/// Sends a request and gives the status line, the content type and the body
/// of the answer.
fn send(db: &mut Database, method: &str, path: &str, body: &str) -> (String, String, String) {
    let routes = RouteTable::new();
    match handle_connection(&request(method, path, body), &routes, db, NOW, Some("k")) {
        Reply::Answer(r) => (r.status_line.to_string(), r.content_type.to_string(), r.body),
        Reply::File(file) => panic!("an answer was expected, not the file {:?}", file),
    }
}

fn json(status: &str, body: &str) -> (String, String, String) {
    (status.to_string(), "application/json".to_string(), body.to_string())
}

fn library() -> Database {
    let mut db = Database::new();
    assert_eq!(db.add_user("ann", Some("h".to_string())), Ok(true));
    assert_eq!(db.add_user("bob", Some("h".to_string())), Ok(true));
    assert_eq!(db.add_book("Dune", "Frank Herbert", "9780441013593", "1965", "SF", 1), Ok(true));
    db
}

#[test]
fn two_users_ask_for_the_last_copy() {
    let mut db = library();
    let first = send(&mut db, "POST", "/api/borrow", "{\"user_id\": 1, \"book_id\": 1}");
    let second = send(&mut db, "POST", "/api/borrow", "{\"user_id\": 2, \"book_id\": 1}");
    assert_eq!(
        first,
        json("HTTP/1.1 201 Created", "{\"success\": true, \"message\": \"Book borrowed successfully\"}")
    );
    assert_eq!(
        second,
        json("HTTP/1.1 409 Conflict", "{\"success\": false, \"message\": \"Book or User doesn't exist\"}")
    );
    assert_eq!(
        send(&mut db, "GET", "/api/books/1", ""),
        json(
            "HTTP/1.1 200 OK",
            "{\"id\":1,\"title\":\"Dune\",\"author\":\"Frank Herbert\",\"isbn\":\"9780441013593\",\"publication_year\":\"1965\",\"genre\":\"SF\",\"number_of_copies\":0}"
        )
    );
}

#[test]
fn the_last_copy_goes_to_whoever_comes_first() {
    let mut db = library();
    let first = send(&mut db, "POST", "/api/borrow", "{\"user_id\": 2, \"book_id\": 1}");
    let second = send(&mut db, "POST", "/api/borrow", "{\"user_id\": 1, \"book_id\": 1}");
    assert_eq!(first.0, "HTTP/1.1 201 Created");
    assert_eq!(second.0, "HTTP/1.1 409 Conflict");
    assert_eq!(db.records().len(), 1);
    assert_eq!(db.records()[0].user_id, 2);
}

#[test]
fn a_book_goes_through_the_routes() {
    let mut db = library();
    let added = send(
        &mut db,
        "POST",
        "/api/books",
        "{\"title\": \"Emma\", \"author\": \"Jane Austen\", \"isbn\": \"9780141439587\", \"publication_year\": \"1815\", \"genre\": \"Novel\", \"number_of_copies\": 2}",
    );
    assert_eq!(added, json("HTTP/1.1 201 Created", "{\"success\": true, \"message\": \"Book added successfully\"}"));
    let edited = send(&mut db, "PATCH", "/api/books/2", "{\"genre\": \"Classic\"}");
    assert_eq!(edited, json("HTTP/1.1 200 OK", "{ \"success\": true, \"message\": \"Book updated successfully\" }"));
    assert_eq!(
        send(&mut db, "GET", "/api/books/2", ""),
        json(
            "HTTP/1.1 200 OK",
            "{\"id\":2,\"title\":\"Emma\",\"author\":\"Jane Austen\",\"isbn\":\"9780141439587\",\"publication_year\":\"1815\",\"genre\":\"Classic\",\"number_of_copies\":2}"
        )
    );
    assert_eq!(send(&mut db, "POST", "/api/borrow", "{\"user_id\": 1, \"book_id\": 2}").0, "HTTP/1.1 201 Created");
    assert_eq!(
        send(&mut db, "GET", "/api/borrow/1", ""),
        json(
            "HTTP/1.1 200 OK",
            "[{\"borrowed_id\":1,\"user_id\":1,\"username\":\"ann\",\"due_date\":\"2023-11-21 22:13:20\",\"book\":{\"id\":2,\"title\":\"Emma\",\"author\":\"Jane Austen\",\"isbn\":\"9780141439587\",\"publication_year\":\"1815\",\"genre\":\"Classic\",\"number_of_copies\":1}}]"
        )
    );
    assert_eq!(send(&mut db, "GET", "/api/borrow/2", ""), json("HTTP/1.1 200 OK", "[]"));
    assert_eq!(send(&mut db, "GET", "/api/borrow", "").2, send(&mut db, "GET", "/api/borrow/1", "").2);
    assert_eq!(
        send(&mut db, "DELETE", "/api/books/2", ""),
        json("HTTP/1.1 404 Not Found", "{ \"success\": false, \"message\": \"Book not found\" }")
    );
    assert_eq!(
        send(&mut db, "DELETE", "/api/borrow/1/2", ""),
        json("HTTP/1.1 200 OK", "{\"success\": true, \"message\":\"Book returned successfully\"}")
    );
    assert_eq!(
        send(&mut db, "DELETE", "/api/borrow/1/2", ""),
        json("HTTP/1.1 404 NOT FOUND", "{\"success\": false, \"message\": \"Borrow details not found\"}")
    );
    assert_eq!(
        send(&mut db, "DELETE", "/api/books/2", ""),
        json("HTTP/1.1 200 OK", "{ \"success\": true, \"message\": \"Book deleted successfully\" }")
    );
    assert_eq!(
        send(&mut db, "GET", "/api/books/2", ""),
        json("HTTP/1.1 404 Not Found", "{\"success\": false, \"message\": \"Book not found\"}")
    );
    assert_eq!(
        send(&mut db, "GET", "/api/books", ""),
        json(
            "HTTP/1.1 200 OK",
            "[{\"id\":1,\"title\":\"Dune\",\"author\":\"Frank Herbert\",\"isbn\":\"9780441013593\",\"publication_year\":\"1965\",\"genre\":\"SF\",\"number_of_copies\":1}]"
        )
    );
    assert_eq!(
        send(&mut db, "GET", "/api/users", ""),
        json("HTTP/1.1 200 OK", "[{\"username\":\"ann\"},{\"username\":\"bob\"}]")
    );
}

#[test]
fn users_sign_up_and_log_in_through_the_routes() {
    let mut db = Database::new();
    assert_eq!(
        send(&mut db, "POST", "/api/signup", "{\"username\": \"cat\", \"password\": \"meow meow\"}"),
        json("HTTP/1.1 201 Created", "{\"success\": true, \"message\": \"User 'cat' created successfully\"}")
    );
    let (status, content_type, body) =
        send(&mut db, "POST", "/api/login", "{\"username\": \"cat\", \"password\": \"meow meow\"}");
    assert_eq!((status.as_str(), content_type.as_str()), ("HTTP/1.1 200 OK", "application/json"));
    assert!(body.starts_with(
        "{\"success\": true, \"message\": \"Login successful\", \"userId\": \"1\", \"username\": \"cat\", \"role\": \"user\", \"jwt\": \"eyJ0eXAiOiJKV1QiLCJhbGciOiJIUzI1NiJ9."
    ));
    assert_eq!(
        send(&mut db, "POST", "/api/login", "{\"username\": \"cat\", \"password\": \"woof\"}"),
        json("HTTP/1.1 401 Unauthorized", "{\"success\": false, \"message\": \"Invalid username or password\"}")
    );
}

#[test]
fn a_login_without_a_secret_fails() {
    let mut db = Database::new();
    assert_eq!(
        db.add_user("ann", Some("$2a$04$UuTkLRZZ6QofpDOlMz32MuuxEHA43WOemOYHPz6.SjsVsyO1tDU96".to_string())),
        Ok(true)
    );
    let routes = RouteTable::new();
    let r = handle_connection(
        &request("POST", "/api/login", "{\"username\": \"ann\", \"password\": \"password\"}"),
        &routes,
        &mut db,
        NOW,
        None,
    );
    match r {
        Reply::Answer(r) => assert_eq!(
            (r.status_line, r.body.as_str()),
            ("HTTP/1.1 500 Internal Server Error", "{\"success\": false, \"message\": \"Internal server error\"}")
        ),
        Reply::File(_) => panic!("an answer was expected"),
    }
}

#[test]
fn paths_with_ids_that_are_no_numbers_are_refused() {
    let mut db = library();
    let invalid_id = json("HTTP/1.1 400 Bad Request", "{ \"success\": false, \"message\": \"Invalid ID\" }");
    assert_eq!(send(&mut db, "GET", "/api/books/one", ""), invalid_id);
    assert_eq!(send(&mut db, "PATCH", "/api/books/", "{\"title\": \"X\"}"), invalid_id);
    assert_eq!(send(&mut db, "DELETE", "/api/books/1x", ""), invalid_id);
    assert_eq!(send(&mut db, "GET", "/api/borrow/me", ""), invalid_id);
    assert_eq!(
        send(&mut db, "DELETE", "/api/borrow/1/x", ""),
        json("HTTP/1.1 400 Bad Request", "{\"success\":false, \"message\":\"Invalid IDs\"}")
    );
    assert_eq!(
        send(&mut db, "DELETE", "/api/borrow/1", ""),
        json("HTTP/1.1 400 Bad Request", "{\"success\": false, \"message\": \"Invalid path\"}")
    );
    assert_eq!(db.fetch_books().len(), 1);
}

#[test]
fn a_request_that_no_route_matches_is_not_found() {
    let mut db = library();
    let not_found = json("HTTP/1.1 404 NOT FOUND", "{\"error\": \"Not Found\"}");
    assert_eq!(send(&mut db, "GET", "/", ""), not_found);
    assert_eq!(send(&mut db, "PUT", "/api/books/1", "{}"), not_found);
    assert_eq!(send(&mut db, "GET", "/nothing.html", ""), not_found);
}

#[test]
fn a_static_asset_is_left_to_the_caller() {
    let mut db = library();
    let routes = RouteTable::new();
    match handle_connection(&request("GET", "/js/auth.js", ""), &routes, &mut db, NOW, None) {
        Reply::File(file) => {
            assert_eq!(file, StaticFile { file: "frontend/js/auth.js", kind: FileKind::Script })
        }
        Reply::Answer(r) => panic!("a file was expected, not {:?}", r),
    }
}

#[test]
fn serve_answers_a_route() {
    let mut db = library();
    match serve(Route::FetchBook(1), "", &mut db, NOW, None) {
        Reply::Answer(r) => {
            assert_eq!(r.status_line, "HTTP/1.1 200 OK");
            assert_eq!(r.content_type, "application/json");
            assert!(r.body.starts_with("{\"id\":1,\"title\":\"Dune\""));
        }
        Reply::File(_) => panic!("an answer was expected"),
    }
    match serve(Route::DeleteBook(1), "ignored", &mut db, NOW, None) {
        Reply::Answer(r) => assert_eq!(r.status_line, "HTTP/1.1 200 OK"),
        Reply::File(_) => panic!("an answer was expected"),
    }
    assert!(db.fetch_books().is_empty());
    match serve(Route::NotFound, "", &mut db, NOW, None) {
        Reply::Answer(r) => assert_eq!(r.render(), "HTTP/1.1 404 NOT FOUND\r\nContent-Type: application/json\r\nContent-Length: 22\r\n\r\n{\"error\": \"Not Found\"}"),
        Reply::File(_) => panic!("an answer was expected"),
    }
}

#[test]
fn a_custom_table_routes_to_the_same_handlers() {
    let mut db = library();
    let mut routes = RouteTable::empty();
    routes.add("GET", "/books", false, lending_library::route::Handler::FetchBooks);
    let r = handle_connection(&request("GET", "/books", ""), &routes, &mut db, NOW, None);
    match r {
        Reply::Answer(r) => assert!(r.body.starts_with("[{\"id\":1,")),
        Reply::File(_) => panic!("an answer was expected"),
    }
    let r = handle_connection(&request("GET", "/api/books", ""), &routes, &mut db, NOW, None);
    match r {
        Reply::Answer(r) => assert_eq!(r.status_line, "HTTP/1.1 404 NOT FOUND"),
        Reply::File(_) => panic!("an answer was expected"),
    }
}

#[test]
fn only_some_routes_may_change_the_ledger() {
    let file = StaticFile { file: "frontend/styles.css", kind: FileKind::Style };
    for route in [
        Route::Signup,
        Route::AddBook,
        Route::EditBook(1),
        Route::DeleteBook(1),
        Route::Borrow,
        Route::ReturnBook(1, 1),
    ] {
        assert!(changes_ledger(route), "{:?}", route);
    }
    for route in [
        Route::Login,
        Route::FetchUsers,
        Route::FetchBooks,
        Route::FetchBook(1),
        Route::FetchBorrowed(1),
        Route::FetchAllBorrowed,
        Route::File(file),
        Route::InvalidId,
        Route::InvalidIds,
        Route::InvalidPath,
        Route::NotFound,
    ] {
        assert!(!changes_ledger(route), "{:?}", route);
    }
}

#[test]
fn a_route_that_may_not_change_the_ledger_leaves_it_as_it_was() {
    let mut db = library();
    assert_eq!(db.borrow_book(1, 1, NOW), Ok(true));
    let before = (db.next_ids(), db.records(), db.fetch_users(), db.fetch_books().len());
    for (method, path, body) in [
        ("GET", "/api/books", ""),
        ("GET", "/api/books/1", ""),
        ("GET", "/api/users", ""),
        ("GET", "/api/borrow", ""),
        ("GET", "/api/borrow/1", ""),
        ("POST", "/api/login", "{\"username\": \"ann\", \"password\": \"x\"}"),
        ("GET", "/api/books/x", ""),
        ("GET", "/nowhere", ""),
    ] {
        let routes = RouteTable::new();
        assert!(!changes_ledger(routes.resolve(method, path)));
        send(&mut db, method, path, body);
        let after = (db.next_ids(), db.records(), db.fetch_users(), db.fetch_books().len());
        assert_eq!(after, before, "{} {}", method, path);
    }
}

#[test]
fn an_edit_through_the_routes_is_answered_by_what_became_of_it() {
    let mut db = library();
    assert_eq!(db.add_book("Emma", "Jane Austen", "9780141439587", "1815", "Novel", 2), Ok(true));
    assert_eq!(
        send(&mut db, "PATCH", "/api/books/9", "{\"title\": \"X\"}"),
        json("HTTP/1.1 404 Not Found", "{ \"success\": false, \"message\": \"Book not found or not updated\" }")
    );
    assert_eq!(
        send(&mut db, "PATCH", "/api/books/2", "{\"isbn\": \"9780441013593\"}"),
        json("HTTP/1.1 409 Conflict", "{ \"success\": false, \"message\": \"Book with this ISBN already exists\" }")
    );
    assert_eq!(
        send(&mut db, "PATCH", "/api/books/2", "{\"number_of_copies\": -3}"),
        json("HTTP/1.1 400 Bad Request", "{ \"success\": false, \"message\": \"Number of copies must not be negative\" }")
    );
    assert_eq!(
        send(&mut db, "DELETE", "/api/borrow/1/1", ""),
        json("HTTP/1.1 404 NOT FOUND", "{\"success\": false, \"message\": \"Borrow details not found\"}")
    );
    assert_eq!(db.fetch_book(2).expect("the book").isbn, "9780141439587");
}
