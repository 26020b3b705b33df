//! The dispatcher: from one request to one answer. It routes the request,
//! calls the handler that the route names with the parameters that the path
//! gave, and wraps what the handler gives into a response. A static asset is
//! not read here: the answer names the file, and whoever has read it makes
//! the response with [`Response::file`].

use crate::db::{is_hash_of, option_str_view, Database, Ledger};
use crate::handlers::{
    add_book_reply, borrow_book_reply, delete_book_reply, edit_book_reply, fetch_book_reply,
    fetch_books_reply, fetch_borrowed_reply, fetch_users_reply, handle_add_book,
    handle_borrow_book, handle_delete_book, handle_edit_book, handle_fetch_all_borrowed_books,
    handle_fetch_book, handle_fetch_books, handle_fetch_borrowed_books, handle_fetch_users,
    handle_login, handle_return_book, handle_signup, login_reply, reply_view, return_book_reply,
    signup_password, signup_reply,
};
use crate::request::Request;
use crate::response::{Response, ResponseView, BAD_REQUEST, JSON, NOT_FOUND_UPPER};
use crate::route::{route_of, Route, RouteTable, StaticFile};
use vstd::prelude::*;
use vstd::string::*;

verus! {

pub const INVALID_ID: &'static str = "{ \"success\": false, \"message\": \"Invalid ID\" }";

pub const INVALID_IDS: &'static str = "{\"success\":false, \"message\":\"Invalid IDs\"}";

pub const INVALID_PATH: &'static str = "{\"success\": false, \"message\": \"Invalid path\"}";

pub const NO_ROUTE: &'static str = "{\"error\": \"Not Found\"}";

/// What the dispatcher makes of a request.
#[derive(Debug)]
pub enum Reply {
    /// The response to send.
    Answer(Response),
    /// The static asset to read and send.
    File(StaticFile),
}

/// The mathematical content of a [`Reply`].
pub enum ReplyView {
    Answer(ResponseView),
    File(StaticFile),
}

impl View for Reply {
    type V = ReplyView;

    open spec fn view(&self) -> ReplyView {
        match self {
            Reply::Answer(response) => ReplyView::Answer(response@),
            Reply::File(file) => ReplyView::File(*file),
        }
    }
}

/// The answer with a JSON body that a handler's status line and body make.
pub open spec fn answer(reply: (Seq<char>, Seq<char>)) -> ReplyView {
    ReplyView::Answer(ResponseView { status_line: reply.0, content_type: JSON@, body: reply.1 })
}

/// The ledger that a request leaves and the answer that it gets, by its
/// route. `body` is the request's body, `now` the time, `secret` what signs
/// tokens, and `hashed` the hash of the password of a sign-up.
pub open spec fn route_reply(
    route: Route,
    body: Seq<char>,
    ledger: Ledger,
    now: u64,
    secret: Option<Seq<char>>,
    hashed: Option<Seq<char>>,
) -> (Ledger, ReplyView) {
    match route {
        Route::Signup => {
            let done = signup_reply(body, ledger, hashed);
            (done.0, answer(done.1))
        },
        Route::Login => (ledger, answer(login_reply(body, ledger, now, secret))),
        Route::FetchUsers => (ledger, answer(fetch_users_reply(ledger))),
        Route::AddBook => {
            let done = add_book_reply(body, ledger);
            (done.0, answer(done.1))
        },
        Route::FetchBooks => (ledger, answer(fetch_books_reply(ledger))),
        Route::FetchBook(id) => (ledger, answer(fetch_book_reply(id, ledger))),
        Route::EditBook(id) => {
            let done = edit_book_reply(id, body, ledger);
            (done.0, answer(done.1))
        },
        Route::DeleteBook(id) => {
            let done = delete_book_reply(id, ledger);
            (done.0, answer(done.1))
        },
        Route::Borrow => {
            let done = borrow_book_reply(body, ledger, now);
            (done.0, answer(done.1))
        },
        Route::FetchBorrowed(user) => (ledger, answer(fetch_borrowed_reply(Some(user), ledger))),
        Route::FetchAllBorrowed => (ledger, answer(fetch_borrowed_reply(None, ledger))),
        Route::ReturnBook(record, book) => {
            let done = return_book_reply(record, book, ledger);
            (done.0, answer(done.1))
        },
        Route::File(file) => (ledger, ReplyView::File(file)),
        Route::InvalidId => (ledger, answer((BAD_REQUEST@, INVALID_ID@))),
        Route::InvalidIds => (ledger, answer((BAD_REQUEST@, INVALID_IDS@))),
        Route::InvalidPath => (ledger, answer((BAD_REQUEST@, INVALID_PATH@))),
        Route::NotFound => (ledger, answer((NOT_FOUND_UPPER@, NO_ROUTE@))),
    }
}

/// Whether a request with this route may change the ledger: a sign-up, and
/// the adding, editing, deleting, borrowing and returning of a book.
pub open spec fn may_change_ledger(route: Route) -> bool {
    route is Signup || route is AddBook || route is EditBook || route is DeleteBook
        || route is Borrow || route is ReturnBook
}

/// Tests whether a request with this route may change the ledger. Where it
/// may not, the ledger need not be written back after the request.
pub fn changes_ledger(route: Route) -> (r: bool)
    ensures
        r == may_change_ledger(route),
{
    match route {
        Route::Signup => true,
        Route::AddBook => true,
        Route::EditBook(_) => true,
        Route::DeleteBook(_) => true,
        Route::Borrow => true,
        Route::ReturnBook(_, _) => true,
        _ => false,
    }
}

/// A request whose route may not change the ledger leaves it as it was,
/// whatever its body, the time and the secret.
pub proof fn law_reading_keeps_the_ledger(
    route: Route,
    body: Seq<char>,
    ledger: Ledger,
    now: u64,
    secret: Option<Seq<char>>,
    hashed: Option<Seq<char>>,
)
    requires
        !may_change_ledger(route),
    ensures
        route_reply(route, body, ledger, now, secret, hashed).0 == ledger,
{
}

/// Wraps what a handler gives into an answer.
fn wrap(reply: (&'static str, String)) -> (r: Reply)
    ensures
        r@ == answer(reply_view(reply)),
{
    Reply::Answer(Response::json(reply.0, reply.1))
}

/// Answers a request that has been routed.
///
/// Only a sign-up draws on chance, for the salt of the password's hash: its
/// answer is that of [`route_reply`] for some hash that the password
/// matches, or for none. Every other route's answer is that of
/// [`route_reply`] whatever the hash.
pub fn serve(route: Route, body: &str, db: &mut Database, now: u64, secret: Option<&str>) -> (r:
    Reply)
    requires
        old(db).wf(),
    ensures
        final(db).wf(),
        exists|hashed: Option<Seq<char>>|
            (final(db)@, r@) == #[trigger] route_reply(
                route,
                body@,
                old(db)@,
                now,
                option_str_view(secret),
                hashed,
            ) && is_hash_of(hashed, signup_password(body@)),
        !(route is Signup) ==> (final(db)@, r@) == route_reply(
            route,
            body@,
            old(db)@,
            now,
            option_str_view(secret),
            None,
        ),
{
    let ghost before = db@;
    let ghost key = option_str_view(secret);
    match route {
        Route::Signup => {
            let reply = handle_signup(body, db);
            let ghost hashed = choose|hashed: Option<Seq<char>>|
                (db@, reply_view(reply)) == #[trigger] signup_reply(body@, before, hashed)
                    && is_hash_of(hashed, signup_password(body@));
            let r = wrap(reply);
            assert((db@, r@) == route_reply(route, body@, before, now, key, hashed));
            r
        },
        Route::Login => {
            let r = wrap(handle_login(body, db, now, secret));
            assert((db@, r@) == route_reply(route, body@, before, now, key, None));
            r
        },
        Route::FetchUsers => {
            let r = wrap(handle_fetch_users(db));
            assert((db@, r@) == route_reply(route, body@, before, now, key, None));
            r
        },
        Route::AddBook => {
            let r = wrap(handle_add_book(body, db));
            assert((db@, r@) == route_reply(route, body@, before, now, key, None));
            r
        },
        Route::FetchBooks => {
            let r = wrap(handle_fetch_books(db));
            assert((db@, r@) == route_reply(route, body@, before, now, key, None));
            r
        },
        Route::FetchBook(id) => {
            let r = wrap(handle_fetch_book(id, db));
            assert((db@, r@) == route_reply(route, body@, before, now, key, None));
            r
        },
        Route::EditBook(id) => {
            let r = wrap(handle_edit_book(id, body, db));
            assert((db@, r@) == route_reply(route, body@, before, now, key, None));
            r
        },
        Route::DeleteBook(id) => {
            let r = wrap(handle_delete_book(id, db));
            assert((db@, r@) == route_reply(route, body@, before, now, key, None));
            r
        },
        Route::Borrow => {
            let r = wrap(handle_borrow_book(body, db, now));
            assert((db@, r@) == route_reply(route, body@, before, now, key, None));
            r
        },
        Route::FetchBorrowed(user) => {
            let r = wrap(handle_fetch_borrowed_books(user, db));
            assert((db@, r@) == route_reply(route, body@, before, now, key, None));
            r
        },
        Route::FetchAllBorrowed => {
            let r = wrap(handle_fetch_all_borrowed_books(db));
            assert((db@, r@) == route_reply(route, body@, before, now, key, None));
            r
        },
        Route::ReturnBook(record, book) => {
            let r = wrap(handle_return_book(record, book, db));
            assert((db@, r@) == route_reply(route, body@, before, now, key, None));
            r
        },
        Route::File(file) => {
            let r = Reply::File(file);
            assert((db@, r@) == route_reply(route, body@, before, now, key, None));
            r
        },
        Route::InvalidId => {
            let r = wrap((BAD_REQUEST, INVALID_ID.to_owned()));
            assert((db@, r@) == route_reply(route, body@, before, now, key, None));
            r
        },
        Route::InvalidIds => {
            let r = wrap((BAD_REQUEST, INVALID_IDS.to_owned()));
            assert((db@, r@) == route_reply(route, body@, before, now, key, None));
            r
        },
        Route::InvalidPath => {
            let r = wrap((BAD_REQUEST, INVALID_PATH.to_owned()));
            assert((db@, r@) == route_reply(route, body@, before, now, key, None));
            r
        },
        Route::NotFound => {
            let r = wrap((NOT_FOUND_UPPER, NO_ROUTE.to_owned()));
            assert((db@, r@) == route_reply(route, body@, before, now, key, None));
            r
        },
    }
}

/// Answers one request: the first route of `routes` that matches its method
/// and path decides who answers. `now` is the time, in seconds since the
/// start of 1970; `secret` signs login tokens, and `None` stands for a
/// secret that is not set.
pub fn handle_connection(
    request: &Request,
    routes: &RouteTable,
    db: &mut Database,
    now: u64,
    secret: Option<&str>,
) -> (r: Reply)
    requires
        old(db).wf(),
    ensures
        final(db).wf(),
        exists|hashed: Option<Seq<char>>|
            (final(db)@, r@) == #[trigger] route_reply(
                route_of(routes.entries(), request.method@, request.path@),
                request.body@,
                old(db)@,
                now,
                option_str_view(secret),
                hashed,
            ) && is_hash_of(hashed, signup_password(request.body@)),
        !(route_of(routes.entries(), request.method@, request.path@) is Signup) ==> (
            final(db)@,
            r@,
        ) == route_reply(
            route_of(routes.entries(), request.method@, request.path@),
            request.body@,
            old(db)@,
            now,
            option_str_view(secret),
            None,
        ),
{
    let route = routes.resolve(request.method.as_str(), request.path.as_str());
    serve(route, request.body.as_str(), db, now, secret)
}

} // verus!
