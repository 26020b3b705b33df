//! The handlers: one per route. A handler reads what it needs from the
//! request body, asks the ledger, and gives the status line and the body of
//! the answer.
//!
//! Each handler is stated by a function of the same name with `_reply` at its
//! end, over the document that the body holds and the ledger's state.

use crate::db::{
    is_hash_of, new_book, option_str_view, option_view, plain_usernames, BookUpdate, Database,
    EditOutcome, Ledger,
};
use crate::encode::{
    book_json, books_json, borrowed_list_json, encode_book, encode_books, encode_borrowed_list,
    encode_users, users_json,
};
use crate::json::{
    is_object, json_document, json_is_object, json_members, member, parse, Member, MemberView,
};
use crate::response::{
    BAD_REQUEST, CONFLICT, CREATED, INTERNAL_SERVER_ERROR, NOT_FOUND, NOT_FOUND_UPPER, OK,
    UNAUTHORIZED,
};
use crate::rules::BookUpdateView;
use crate::text::{
    all_digits, blank, char_is_digit, chars_of, decimal, decimal_int, is_blank, parse_int,
    parse_unsigned, push_decimal, push_decimal_int,
};
use vstd::prelude::*;
use vstd::string::*;
use vstd::utf8::encode_utf8;

verus! {

pub const INVALID_JSON: &'static str = "{\"success\": false, \"message\": \"Invalid JSON\"}";

pub const ALL_FIELDS: &'static str =
    "{\"success\": false, \"message\": \"Please provide all the fields\"}";

pub const USERNAME_LENGTH: &'static str =
    "{\"success\": false, \"message\": \"Username must be between 3 and 50 characters\"}";

pub const PASSWORD_LENGTH: &'static str =
    "{\"success\": false, \"message\": \"Password must be at least 6 characters long\"}";

pub const USERNAME_EXISTS: &'static str =
    "{\"success\": false, \"message\": \"Username already exists\"}";

pub const INTERNAL_ERROR: &'static str =
    "{\"success\": false, \"message\": \"Internal server error\"}";

pub const CREDENTIALS_MISSING: &'static str =
    "{\"success\": false, \"message\": \"Please provide username and password\"}";

pub const CREDENTIALS_WRONG: &'static str =
    "{\"success\": false, \"message\": \"Invalid username or password\"}";

pub const ISBN_FORMAT: &'static str =
    "{\"success\": false, \"message\": \"ISBN must be exactly 13 digits\"}";

pub const YEAR_RANGE: &'static str =
    "{\"success\": false, \"message\": \"Publication year must be a valid year between 1500 and 2024\"}";

pub const COPIES_POSITIVE: &'static str =
    "{\"success\": false, \"message\": \"Number of copies must be a positive integer\"}";

pub const BOOK_ADDED: &'static str = "{\"success\": true, \"message\": \"Book added successfully\"}";

pub const ISBN_EXISTS: &'static str =
    "{\"success\": false, \"message\": \"Book with this ISBN already exists\"}";

pub const DATABASE_ERROR_OCCURRED: &'static str =
    "{\"success\": false, \"message\": \"Database error occurred\"}";

pub const BOOK_NOT_FOUND: &'static str = "{\"success\": false, \"message\": \"Book not found\"}";

pub const INVALID_JSON_BODY: &'static str =
    "{ \"success\": false, \"message\": \"Invalid JSON body\" }";

pub const NO_VALID_FIELDS: &'static str =
    "{ \"success\": false, \"message\": \"No valid fields provided to update\" }";

pub const BOOK_UPDATED: &'static str =
    "{ \"success\": true, \"message\": \"Book updated successfully\" }";

pub const BOOK_NOT_UPDATED: &'static str =
    "{ \"success\": false, \"message\": \"Book not found or not updated\" }";

pub const UPDATE_ISBN_EXISTS: &'static str =
    "{ \"success\": false, \"message\": \"Book with this ISBN already exists\" }";

pub const UPDATE_COPIES_NEGATIVE: &'static str =
    "{ \"success\": false, \"message\": \"Number of copies must not be negative\" }";

pub const UPDATE_ERROR: &'static str =
    "{ \"success\": false, \"message\": \"Database error during update\" }";

pub const BOOK_DELETED: &'static str =
    "{ \"success\": true, \"message\": \"Book deleted successfully\" }";

pub const BOOK_NOT_FOUND_SPACED: &'static str =
    "{ \"success\": false, \"message\": \"Book not found\" }";

pub const USER_ID_INVALID: &'static str =
    "{\"success\": false, \"message\": \"Missing or invalid user_id\"}";

pub const BOOK_ID_INVALID: &'static str =
    "{\"success\": false, \"message\": \"Missing or invalid book_id\"}";

pub const BOOK_BORROWED: &'static str =
    "{\"success\": true, \"message\": \"Book borrowed successfully\"}";

pub const BORROW_REFUSED: &'static str =
    "{\"success\": false, \"message\": \"Book or User doesn't exist\"}";

pub const BOOK_RETURNED: &'static str =
    "{\"success\": true, \"message\":\"Book returned successfully\"}";

pub const BORROW_NOT_FOUND: &'static str =
    "{\"success\": false, \"message\": \"Borrow details not found\"}";

pub const DATABASE_ERROR: &'static str = "{\"success\": false, \"message\": \"Database error\"}";

/// The earliest year of publication that the catalogue takes.
pub const FIRST_YEAR: u64 = 1500;

/// The latest year of publication that the catalogue takes.
pub const LAST_YEAR: u64 = 2024;

/// The member of `value` with the name `name`, if `value` is an object that
/// has one.
pub open spec fn member_of(value: serde_json::Value, name: Seq<char>) -> Option<MemberView> {
    if json_members(value).contains_key(name) {
        Some(json_members(value)[name])
    } else {
        None
    }
}

/// The member of `value` with the name `name`, if it is a string.
pub open spec fn text_of(value: serde_json::Value, name: Seq<char>) -> Option<Seq<char>> {
    match member_of(value, name) {
        Some(MemberView::Text(s)) => Some(s),
        _ => None,
    }
}

/// The member of `value` with the name `name`, if it is an integer.
pub open spec fn integer_of(value: serde_json::Value, name: Seq<char>) -> Option<i64> {
    match member_of(value, name) {
        Some(MemberView::Integer(i)) => Some(i),
        _ => None,
    }
}

/// The member of `value` with the name `name`, if it is `true` or `false`.
pub open spec fn flag_of(value: serde_json::Value, name: Seq<char>) -> Option<bool> {
    match member_of(value, name) {
        Some(MemberView::Flag(b)) => Some(b),
        _ => None,
    }
}

/// The member of `value` with the name `name` if it is a string, else the
/// empty string.
pub open spec fn text_or_empty(value: serde_json::Value, name: Seq<char>) -> Seq<char> {
    match text_of(value, name) {
        Some(s) => s,
        None => Seq::empty(),
    }
}

/// The edit that `value` asks for: the fields of a book that it names with a
/// value of the field's kind.
pub open spec fn update_of(value: serde_json::Value) -> BookUpdateView {
    BookUpdateView {
        title: text_of(value, "title"@),
        author: text_of(value, "author"@),
        isbn: text_of(value, "isbn"@),
        publication_year: text_of(value, "publication_year"@),
        genre: text_of(value, "genre"@),
        number_of_copies: integer_of(value, "number_of_copies"@),
        available: flag_of(value, "available"@),
    }
}

/// Whether `value` names a field of a book, with a value of whatever kind.
pub open spec fn names_a_field(value: serde_json::Value) -> bool {
    member_of(value, "title"@) is Some || member_of(value, "author"@) is Some || member_of(
        value,
        "isbn"@,
    ) is Some || member_of(value, "publication_year"@) is Some || member_of(value, "genre"@)
        is Some || member_of(value, "number_of_copies"@) is Some || member_of(
        value,
        "available"@,
    ) is Some
}

/// How many bytes `text` takes.
pub open spec fn byte_length(text: Seq<char>) -> nat {
    encode_utf8(text).len()
}

/// The password that a sign-up gives; the empty one where it gives none.
pub open spec fn signup_password(body: Seq<char>) -> Seq<char> {
    match json_document(body) {
        Some(doc) => text_or_empty(doc, "password"@),
        None => Seq::empty(),
    }
}

/// The answer to a sign-up; `hashed` is the hash of the password, or `None`
/// where it could not be hashed.
pub open spec fn signup_reply(body: Seq<char>, ledger: Ledger, hashed: Option<Seq<char>>) -> (
    Ledger,
    (Seq<char>, Seq<char>),
) {
    match json_document(body) {
        None => (ledger, (BAD_REQUEST@, INVALID_JSON@)),
        Some(doc) => {
            let username = text_or_empty(doc, "username"@);
            let password = text_or_empty(doc, "password"@);
            if is_blank(username) || is_blank(password) {
                (ledger, (BAD_REQUEST@, ALL_FIELDS@))
            } else if byte_length(username) < 3 || byte_length(username) > 50 {
                (ledger, (BAD_REQUEST@, USERNAME_LENGTH@))
            } else if byte_length(password) < 6 {
                (ledger, (BAD_REQUEST@, PASSWORD_LENGTH@))
            } else {
                let done = ledger.add_user(username, hashed);
                match done.1 {
                    Ok(true) => (
                        done.0,
                        (
                            CREATED@,
                            "{\"success\": true, \"message\": \"User '"@ + username
                                + "' created successfully\"}"@,
                        ),
                    ),
                    Ok(false) => (done.0, (CONFLICT@, USERNAME_EXISTS@)),
                    Err(_) => (done.0, (INTERNAL_SERVER_ERROR@, INTERNAL_ERROR@)),
                }
            }
        },
    }
}

/// The answer to a login at the time `now`, with the secret that signs
/// tokens.
pub open spec fn login_reply(body: Seq<char>, ledger: Ledger, now: u64, secret: Option<Seq<char>>)
    -> (Seq<char>, Seq<char>) {
    match json_document(body) {
        None => (BAD_REQUEST@, INVALID_JSON@),
        Some(doc) => {
            let username = text_or_empty(doc, "username"@);
            let password = text_or_empty(doc, "password"@);
            if is_blank(username) || is_blank(password) {
                (BAD_REQUEST@, CREDENTIALS_MISSING@)
            } else {
                match ledger.login(username, password, now, secret) {
                    Ok(Some((id, name, role, token))) => (
                        OK@,
                        "{\"success\": true, \"message\": \"Login successful\", \"userId\": \""@
                            + decimal_int(id as int) + "\", \"username\": \""@ + name
                            + "\", \"role\": \""@ + role + "\", \"jwt\": \""@ + token + "\"}"@,
                    ),
                    Ok(None) => (UNAUTHORIZED@, CREDENTIALS_WRONG@),
                    Err(_) => (INTERNAL_SERVER_ERROR@, INTERNAL_ERROR@),
                }
            }
        },
    }
}

/// The answer to the request to add a book.
pub open spec fn add_book_reply(body: Seq<char>, ledger: Ledger) -> (
    Ledger,
    (Seq<char>, Seq<char>),
) {
    match json_document(body) {
        None => (ledger, (BAD_REQUEST@, INVALID_JSON@)),
        Some(doc) => {
            let title = text_or_empty(doc, "title"@);
            let author = text_or_empty(doc, "author"@);
            let isbn = text_or_empty(doc, "isbn"@);
            let year = text_or_empty(doc, "publication_year"@);
            let genre = text_or_empty(doc, "genre"@);
            let copies = match integer_of(doc, "number_of_copies"@) {
                Some(n) => n,
                None => -1i64,
            };
            if is_blank(title) || is_blank(author) || is_blank(isbn) || is_blank(year) || is_blank(
                genre,
            ) || copies <= 0 {
                (ledger, (BAD_REQUEST@, ALL_FIELDS@))
            } else if !(isbn.len() == 13 && all_digits(isbn)) {
                (ledger, (BAD_REQUEST@, ISBN_FORMAT@))
            } else {
                match parse_int(year, false, FIRST_YEAR as int, LAST_YEAR as int) {
                    None => (ledger, (BAD_REQUEST@, YEAR_RANGE@)),
                    Some(y) => if copies > i32::MAX {
                        (ledger, (BAD_REQUEST@, COPIES_POSITIVE@))
                    } else {
                        let done = ledger.add_book(
                            new_book(title, author, isbn, decimal(y as nat), genre, copies as i32),
                        );
                        match done.1 {
                            Ok(true) => (done.0, (CREATED@, BOOK_ADDED@)),
                            Ok(false) => (done.0, (CONFLICT@, ISBN_EXISTS@)),
                            Err(_) => (done.0, (INTERNAL_SERVER_ERROR@, DATABASE_ERROR_OCCURRED@)),
                        }
                    },
                }
            }
        },
    }
}

/// The answer to the request for the catalogue.
pub open spec fn fetch_books_reply(ledger: Ledger) -> (Seq<char>, Seq<char>) {
    (OK@, books_json(ledger.books))
}

/// The answer to the request for one book.
pub open spec fn fetch_book_reply(book_id: i64, ledger: Ledger) -> (Seq<char>, Seq<char>) {
    if ledger.has_book(book_id as int) {
        (OK@, book_json(ledger.books[ledger.book_index(book_id as int)]))
    } else {
        (NOT_FOUND@, BOOK_NOT_FOUND@)
    }
}

/// The answer to the request to edit a book.
pub open spec fn edit_book_reply(book_id: i64, body: Seq<char>, ledger: Ledger) -> (
    Ledger,
    (Seq<char>, Seq<char>),
) {
    match json_document(body) {
        Some(doc) if json_is_object(doc) => {
            if !names_a_field(doc) {
                (ledger, (BAD_REQUEST@, NO_VALID_FIELDS@))
            } else {
                let done = ledger.edit_book(book_id, update_of(doc));
                match done.1 {
                    Ok(EditOutcome::Done) => (done.0, (OK@, BOOK_UPDATED@)),
                    Ok(EditOutcome::NothingToDo) => (done.0, (NOT_FOUND@, BOOK_NOT_UPDATED@)),
                    Ok(EditOutcome::NotFound) => (done.0, (NOT_FOUND@, BOOK_NOT_UPDATED@)),
                    Ok(EditOutcome::DuplicateIsbn) => (done.0, (CONFLICT@, UPDATE_ISBN_EXISTS@)),
                    Ok(EditOutcome::NegativeCopies) => (
                        done.0,
                        (BAD_REQUEST@, UPDATE_COPIES_NEGATIVE@),
                    ),
                    Err(_) => (done.0, (INTERNAL_SERVER_ERROR@, UPDATE_ERROR@)),
                }
            }
        },
        _ => (ledger, (BAD_REQUEST@, INVALID_JSON_BODY@)),
    }
}

/// The answer to the request to delete a book.
pub open spec fn delete_book_reply(book_id: i64, ledger: Ledger) -> (
    Ledger,
    (Seq<char>, Seq<char>),
) {
    let done = ledger.delete_book(book_id);
    if done.1 {
        (done.0, (OK@, BOOK_DELETED@))
    } else {
        (done.0, (NOT_FOUND@, BOOK_NOT_FOUND_SPACED@))
    }
}

/// The answer to the request for the users.
pub open spec fn fetch_users_reply(ledger: Ledger) -> (Seq<char>, Seq<char>) {
    (OK@, users_json(plain_usernames(ledger.users)))
}

/// The answer to the request to borrow a book at the time `now`.
pub open spec fn borrow_book_reply(body: Seq<char>, ledger: Ledger, now: u64) -> (
    Ledger,
    (Seq<char>, Seq<char>),
) {
    match json_document(body) {
        None => (ledger, (BAD_REQUEST@, INVALID_JSON@)),
        Some(doc) => match integer_of(doc, "user_id"@) {
            None => (ledger, (BAD_REQUEST@, USER_ID_INVALID@)),
            Some(user_id) => match integer_of(doc, "book_id"@) {
                None => (ledger, (BAD_REQUEST@, BOOK_ID_INVALID@)),
                Some(book_id) => {
                    let done = ledger.borrow_book(user_id, book_id, now);
                    match done.1 {
                        Ok(true) => (done.0, (CREATED@, BOOK_BORROWED@)),
                        Ok(false) => (done.0, (CONFLICT@, BORROW_REFUSED@)),
                        Err(_) => (done.0, (INTERNAL_SERVER_ERROR@, DATABASE_ERROR_OCCURRED@)),
                    }
                },
            },
        },
    }
}

/// The answer to the request for what a user has borrowed, or, with `user`
/// unset, for what all users have borrowed.
pub open spec fn fetch_borrowed_reply(user: Option<i64>, ledger: Ledger) -> (
    Seq<char>,
    Seq<char>,
) {
    (OK@, borrowed_list_json(ledger.borrowed_by(ledger.records, user)))
}

/// The answer to the request to return a book.
pub open spec fn return_book_reply(borrowed_id: i64, book_id: i64, ledger: Ledger) -> (
    Ledger,
    (Seq<char>, Seq<char>),
) {
    let done = ledger.return_book(borrowed_id, book_id);
    match done.1 {
        Ok(true) => (done.0, (OK@, BOOK_RETURNED@)),
        Ok(false) => (done.0, (NOT_FOUND_UPPER@, BORROW_NOT_FOUND@)),
        Err(_) => (done.0, (INTERNAL_SERVER_ERROR@, DATABASE_ERROR@)),
    }
}

/// The views of a status line and a body.
pub open spec fn reply_view(r: (&'static str, String)) -> (Seq<char>, Seq<char>) {
    (r.0@, r.1@)
}

/// The member of `value` with the name `name`, if it is a string.
fn text_member(value: &serde_json::Value, name: &str) -> (r: Option<String>)
    ensures
        option_view(r) == text_of(*value, name@),
{
    match member(value, name) {
        Some(Member::Text(s)) => Some(s),
        _ => None,
    }
}

/// The member of `value` with the name `name` if it is a string, else the
/// empty string.
fn text_member_or_empty(value: &serde_json::Value, name: &str) -> (r: String)
    ensures
        r@ == text_or_empty(*value, name@),
{
    match text_member(value, name) {
        Some(s) => s,
        None => String::new(),
    }
}

/// The member of `value` with the name `name`, if it is an integer.
fn integer_member(value: &serde_json::Value, name: &str) -> (r: Option<i64>)
    ensures
        r == integer_of(*value, name@),
{
    match member(value, name) {
        Some(Member::Integer(i)) => Some(i),
        _ => None,
    }
}

/// The member of `value` with the name `name`, if it is `true` or `false`.
fn flag_member(value: &serde_json::Value, name: &str) -> (r: Option<bool>)
    ensures
        r == flag_of(*value, name@),
{
    match member(value, name) {
        Some(Member::Flag(b)) => Some(b),
        _ => None,
    }
}

/// Tests whether `value` has a member with the name `name`.
fn has_member(value: &serde_json::Value, name: &str) -> (r: bool)
    ensures
        r == member_of(*value, name@) is Some,
{
    member(value, name).is_some()
}

/// How many bytes `text` takes.
fn bytes_of(text: &str) -> (r: usize)
    ensures
        r == byte_length(text@),
{
    text.as_bytes().len()
}

/// Tests whether `text` is made of thirteen digits.
fn thirteen_digits(text: &str) -> (r: bool)
    ensures
        r == (text@.len() == 13 && all_digits(text@)),
{
    let cs = chars_of(text);
    if cs.len() != 13 {
        return false;
    }
    let mut i: usize = 0;
    while i < cs.len()
        invariant
            i <= cs.len(),
            cs@ == text@,
            forall|k: int| 0 <= k < i ==> crate::text::is_digit(#[trigger] cs@[k]),
        decreases cs.len() - i,
    {
        if !char_is_digit(cs[i]) {
            return false;
        }
        i += 1;
    }
    true
}

/// A status line with a body that is a constant.
fn fixed(status_line: &'static str, body: &'static str) -> (r: (&'static str, String))
    ensures
        reply_view(r) == (status_line@, body@),
{
    (status_line, body.to_owned())
}

/// Signs a user up.
///
/// The password is hashed with a salt drawn at random, so the answer is that
/// of [`signup_reply`] for some hash that the password matches, or for none
/// where the password could not be hashed.
pub fn handle_signup(request_body: &str, db: &mut Database) -> (r: (&'static str, String))
    requires
        old(db).wf(),
    ensures
        final(db).wf(),
        exists|hashed: Option<Seq<char>>|
            (final(db)@, reply_view(r)) == #[trigger] signup_reply(
                request_body@,
                old(db)@,
                hashed,
            ) && is_hash_of(hashed, signup_password(request_body@)),
{
    let ghost none: Option<Seq<char>> = None;
    let doc = match parse(request_body) {
        Ok(doc) => doc,
        Err(_) => {
            assert((db@, (BAD_REQUEST@, INVALID_JSON@)) == signup_reply(request_body@, db@, none)
                && is_hash_of(none, signup_password(request_body@)));
            return fixed(BAD_REQUEST, INVALID_JSON);
        },
    };
    let username = text_member_or_empty(&doc, "username");
    let password = text_member_or_empty(&doc, "password");
    if blank(username.as_str()) || blank(password.as_str()) {
        assert((db@, (BAD_REQUEST@, ALL_FIELDS@)) == signup_reply(request_body@, db@, none)
            && is_hash_of(none, signup_password(request_body@)));
        return fixed(BAD_REQUEST, ALL_FIELDS);
    }
    let length = bytes_of(username.as_str());
    if length < 3 || length > 50 {
        assert((db@, (BAD_REQUEST@, USERNAME_LENGTH@)) == signup_reply(request_body@, db@, none)
            && is_hash_of(none, signup_password(request_body@)));
        return fixed(BAD_REQUEST, USERNAME_LENGTH);
    }
    if bytes_of(password.as_str()) < 6 {
        assert((db@, (BAD_REQUEST@, PASSWORD_LENGTH@)) == signup_reply(request_body@, db@, none)
            && is_hash_of(none, signup_password(request_body@)));
        return fixed(BAD_REQUEST, PASSWORD_LENGTH);
    }
    let done = db.create_user(username.as_str(), password.as_str());
    let ghost hashed = choose|hashed: Option<Seq<char>>|
        (db@, done) == #[trigger] old(db)@.add_user(username@, hashed) && is_hash_of(
            hashed,
            password@,
        );
    let r = match done {
        Ok(true) => {
            let mut body = "{\"success\": true, \"message\": \"User '".to_owned();
            body.append(username.as_str());
            body.append("' created successfully\"}");
            (CREATED, body)
        },
        Ok(false) => fixed(CONFLICT, USERNAME_EXISTS),
        Err(_) => fixed(INTERNAL_SERVER_ERROR, INTERNAL_ERROR),
    };
    assert((db@, reply_view(r)) == signup_reply(request_body@, old(db)@, hashed) && is_hash_of(
        hashed,
        signup_password(request_body@),
    ));
    r
}

/// Logs a user in at the time `now`, in seconds since the start of 1970.
/// `secret` signs the token; `None` stands for a secret that is not set.
pub fn handle_login(request_body: &str, db: &Database, now: u64, secret: Option<&str>) -> (r: (
    &'static str,
    String,
))
    requires
        db.wf(),
    ensures
        reply_view(r) == login_reply(request_body@, db@, now, option_str_view(secret)),
{
    let doc = match parse(request_body) {
        Ok(doc) => doc,
        Err(_) => {
            return fixed(BAD_REQUEST, INVALID_JSON);
        },
    };
    let username = text_member_or_empty(&doc, "username");
    let password = text_member_or_empty(&doc, "password");
    if blank(username.as_str()) || blank(password.as_str()) {
        return fixed(BAD_REQUEST, CREDENTIALS_MISSING);
    }
    match db.verify_user(username.as_str(), password.as_str(), now, secret) {
        Ok(Some((id, name, role, token))) => {
            let mut body =
                "{\"success\": true, \"message\": \"Login successful\", \"userId\": \"".to_owned();
            push_decimal_int(&mut body, id as i64);
            body.append("\", \"username\": \"");
            body.append(name.as_str());
            body.append("\", \"role\": \"");
            body.append(role.as_str());
            body.append("\", \"jwt\": \"");
            body.append(token.as_str());
            body.append("\"}");
            (OK, body)
        },
        Ok(None) => fixed(UNAUTHORIZED, CREDENTIALS_WRONG),
        Err(_) => fixed(INTERNAL_SERVER_ERROR, INTERNAL_ERROR),
    }
}

/// Adds a book to the catalogue.
pub fn handle_add_book(request_body: &str, db: &mut Database) -> (r: (&'static str, String))
    requires
        old(db).wf(),
    ensures
        final(db).wf(),
        (final(db)@, reply_view(r)) == add_book_reply(request_body@, old(db)@),
{
    let doc = match parse(request_body) {
        Ok(doc) => doc,
        Err(_) => {
            return fixed(BAD_REQUEST, INVALID_JSON);
        },
    };
    let title = text_member_or_empty(&doc, "title");
    let author = text_member_or_empty(&doc, "author");
    let isbn = text_member_or_empty(&doc, "isbn");
    let year = text_member_or_empty(&doc, "publication_year");
    let genre = text_member_or_empty(&doc, "genre");
    let copies: i64 = match integer_member(&doc, "number_of_copies") {
        Some(n) => n,
        None => -1,
    };
    if blank(title.as_str()) || blank(author.as_str()) || blank(isbn.as_str()) || blank(
        year.as_str(),
    ) || blank(genre.as_str()) || copies <= 0 {
        return fixed(BAD_REQUEST, ALL_FIELDS);
    }
    if !thirteen_digits(isbn.as_str()) {
        return fixed(BAD_REQUEST, ISBN_FORMAT);
    }
    let year_chars = chars_of(year.as_str());
    let published: u64 = match parse_unsigned(&year_chars, LAST_YEAR) {
        Some(y) => y,
        None => {
            return fixed(BAD_REQUEST, YEAR_RANGE);
        },
    };
    if published < FIRST_YEAR {
        return fixed(BAD_REQUEST, YEAR_RANGE);
    }
    if copies > i32::MAX as i64 {
        return fixed(BAD_REQUEST, COPIES_POSITIVE);
    }
    let mut year_text = String::new();
    push_decimal(&mut year_text, published);
    assert(year_text@ =~= decimal(published as nat));
    match db.add_book(
        title.as_str(),
        author.as_str(),
        isbn.as_str(),
        year_text.as_str(),
        genre.as_str(),
        copies as i32,
    ) {
        Ok(true) => fixed(CREATED, BOOK_ADDED),
        Ok(false) => fixed(CONFLICT, ISBN_EXISTS),
        Err(_) => fixed(INTERNAL_SERVER_ERROR, DATABASE_ERROR_OCCURRED),
    }
}

/// Gives the catalogue.
pub fn handle_fetch_books(db: &Database) -> (r: (&'static str, String))
    ensures
        reply_view(r) == fetch_books_reply(db@),
{
    let books = db.fetch_books();
    (OK, encode_books(&books))
}

/// Gives one book.
pub fn handle_fetch_book(book_id: i64, db: &Database) -> (r: (&'static str, String))
    requires
        db.wf(),
    ensures
        reply_view(r) == fetch_book_reply(book_id, db@),
{
    match db.fetch_book(book_id) {
        Some(book) => (OK, encode_book(&book)),
        None => fixed(NOT_FOUND, BOOK_NOT_FOUND),
    }
}

/// Reads the edit that `value` asks for.
fn read_update(value: &serde_json::Value) -> (r: BookUpdate)
    ensures
        r@ == update_of(*value),
{
    BookUpdate {
        title: text_member(value, "title"),
        author: text_member(value, "author"),
        isbn: text_member(value, "isbn"),
        publication_year: text_member(value, "publication_year"),
        genre: text_member(value, "genre"),
        number_of_copies: integer_member(value, "number_of_copies"),
        available: flag_member(value, "available"),
    }
}

/// Edits a book.
pub fn handle_edit_book(id: i64, request_body: &str, db: &mut Database) -> (r: (
    &'static str,
    String,
))
    requires
        old(db).wf(),
    ensures
        final(db).wf(),
        (final(db)@, reply_view(r)) == edit_book_reply(id, request_body@, old(db)@),
{
    let doc = match parse(request_body) {
        Ok(doc) => doc,
        Err(_) => {
            return fixed(BAD_REQUEST, INVALID_JSON_BODY);
        },
    };
    if !is_object(&doc) {
        return fixed(BAD_REQUEST, INVALID_JSON_BODY);
    }
    let named = has_member(&doc, "title") || has_member(&doc, "author") || has_member(&doc, "isbn")
        || has_member(&doc, "publication_year") || has_member(&doc, "genre") || has_member(
        &doc,
        "number_of_copies",
    ) || has_member(&doc, "available");
    if !named {
        return fixed(BAD_REQUEST, NO_VALID_FIELDS);
    }
    let update = read_update(&doc);
    match db.edit_book(id, &update) {
        Ok(EditOutcome::Done) => fixed(OK, BOOK_UPDATED),
        Ok(EditOutcome::NothingToDo) => fixed(NOT_FOUND, BOOK_NOT_UPDATED),
        Ok(EditOutcome::NotFound) => fixed(NOT_FOUND, BOOK_NOT_UPDATED),
        Ok(EditOutcome::DuplicateIsbn) => fixed(CONFLICT, UPDATE_ISBN_EXISTS),
        Ok(EditOutcome::NegativeCopies) => fixed(BAD_REQUEST, UPDATE_COPIES_NEGATIVE),
        Err(_) => fixed(INTERNAL_SERVER_ERROR, UPDATE_ERROR),
    }
}

/// Deletes a book.
pub fn handle_delete_book(id: i64, db: &mut Database) -> (r: (&'static str, String))
    requires
        old(db).wf(),
    ensures
        final(db).wf(),
        (final(db)@, reply_view(r)) == delete_book_reply(id, old(db)@),
{
    if db.delete_book(id) {
        fixed(OK, BOOK_DELETED)
    } else {
        fixed(NOT_FOUND, BOOK_NOT_FOUND_SPACED)
    }
}

/// Gives the names of the plain users.
pub fn handle_fetch_users(db: &Database) -> (r: (&'static str, String))
    ensures
        reply_view(r) == fetch_users_reply(db@),
{
    let users = db.fetch_users();
    (OK, encode_users(&users))
}

/// Lends a book at the time `now`, in seconds since the start of 1970.
pub fn handle_borrow_book(request_body: &str, db: &mut Database, now: u64) -> (r: (
    &'static str,
    String,
))
    requires
        old(db).wf(),
    ensures
        final(db).wf(),
        (final(db)@, reply_view(r)) == borrow_book_reply(request_body@, old(db)@, now),
{
    let doc = match parse(request_body) {
        Ok(doc) => doc,
        Err(_) => {
            return fixed(BAD_REQUEST, INVALID_JSON);
        },
    };
    let user_id = match integer_member(&doc, "user_id") {
        Some(id) => id,
        None => {
            return fixed(BAD_REQUEST, USER_ID_INVALID);
        },
    };
    let book_id = match integer_member(&doc, "book_id") {
        Some(id) => id,
        None => {
            return fixed(BAD_REQUEST, BOOK_ID_INVALID);
        },
    };
    match db.borrow_book(user_id, book_id, now) {
        Ok(true) => fixed(CREATED, BOOK_BORROWED),
        Ok(false) => fixed(CONFLICT, BORROW_REFUSED),
        Err(_) => fixed(INTERNAL_SERVER_ERROR, DATABASE_ERROR_OCCURRED),
    }
}

/// Gives what a user has borrowed.
pub fn handle_fetch_borrowed_books(user_id: i64, db: &Database) -> (r: (&'static str, String))
    requires
        db.wf(),
    ensures
        reply_view(r) == fetch_borrowed_reply(Some(user_id), db@),
{
    let borrowed = db.fetch_borrowed_books(user_id);
    (OK, encode_borrowed_list(&borrowed))
}

/// Takes a book back.
pub fn handle_return_book(borrowed_id: i64, book_id: i64, db: &mut Database) -> (r: (
    &'static str,
    String,
))
    requires
        old(db).wf(),
    ensures
        final(db).wf(),
        (final(db)@, reply_view(r)) == return_book_reply(borrowed_id, book_id, old(db)@),
{
    match db.return_book(borrowed_id, book_id) {
        Ok(true) => fixed(OK, BOOK_RETURNED),
        Ok(false) => fixed(NOT_FOUND_UPPER, BORROW_NOT_FOUND),
        Err(_) => fixed(INTERNAL_SERVER_ERROR, DATABASE_ERROR),
    }
}

/// Gives what all users have borrowed.
pub fn handle_fetch_all_borrowed_books(db: &Database) -> (r: (&'static str, String))
    requires
        db.wf(),
    ensures
        reply_view(r) == fetch_borrowed_reply(None, db@),
{
    let borrowed = db.fetch_all_borrowed_books();
    (OK, encode_borrowed_list(&borrowed))
}

} // verus!
