//! The JSON that the service answers with: books, users and borrow records,
//! one by one and as arrays. Numbers are written here; strings are quoted by
//! [`quote`](crate::json::quote).

use crate::db::{
    book_views, borrowed_views, string_views, Book, BookView, BorrowedBook, BorrowedBookView,
};
use crate::json::{json_quoted, quote};
use crate::text::{decimal_int, push_decimal_int};
use vstd::prelude::*;
use vstd::string::*;

verus! {

/// The JSON object of a book.
pub open spec fn book_json(book: BookView) -> Seq<char> {
    "{\"id\":"@ + decimal_int(book.id as int) + ",\"title\":"@ + json_quoted(book.title)
        + ",\"author\":"@ + json_quoted(book.author) + ",\"isbn\":"@ + json_quoted(book.isbn)
        + ",\"publication_year\":"@ + json_quoted(book.publication_year) + ",\"genre\":"@
        + json_quoted(book.genre) + ",\"number_of_copies\":"@ + decimal_int(
        book.number_of_copies as int,
    ) + "}"@
}

/// The JSON object that names a user.
pub open spec fn user_json(username: Seq<char>) -> Seq<char> {
    "{\"username\":"@ + json_quoted(username) + "}"@
}

/// The JSON object of a borrow record with its user and its book.
pub open spec fn borrowed_json(borrowed: BorrowedBookView) -> Seq<char> {
    "{\"borrowed_id\":"@ + decimal_int(borrowed.borrowed_id as int) + ",\"user_id\":"@
        + decimal_int(borrowed.user_id as int) + ",\"username\":"@ + json_quoted(
        borrowed.username,
    ) + ",\"due_date\":"@ + json_quoted(borrowed.due_date) + ",\"book\":"@ + book_json(
        borrowed.book,
    ) + "}"@
}

/// `items` with commas between them.
pub open spec fn joined(items: Seq<Seq<char>>) -> Seq<char>
    decreases items.len(),
{
    if items.len() == 0 {
        Seq::empty()
    } else if items.len() == 1 {
        items.last()
    } else {
        joined(items.drop_last()) + ","@ + items.last()
    }
}

/// The JSON array of `items`.
pub open spec fn array_json(items: Seq<Seq<char>>) -> Seq<char> {
    "["@ + joined(items) + "]"@
}

/// The JSON array of `books`.
pub open spec fn books_json(books: Seq<BookView>) -> Seq<char> {
    array_json(books.map_values(|b: BookView| book_json(b)))
}

/// The JSON array of objects that name `usernames`.
pub open spec fn users_json(usernames: Seq<Seq<char>>) -> Seq<char> {
    array_json(usernames.map_values(|n: Seq<char>| user_json(n)))
}

/// The JSON array of `borrowed`.
pub open spec fn borrowed_list_json(borrowed: Seq<BorrowedBookView>) -> Seq<char> {
    array_json(borrowed.map_values(|b: BorrowedBookView| borrowed_json(b)))
}

/// Appends `text` in quotes to `out`.
fn push_quoted(out: &mut String, text: &str)
    ensures
        final(out)@ == old(out)@ + json_quoted(text@),
{
    match quote(text) {
        Ok(quoted) => {
            out.append(quoted.as_str());
        },
        Err(_) => {},
    }
}

/// Writes the JSON object of `book`.
pub fn encode_book(book: &Book) -> (r: String)
    ensures
        r@ == book_json(book@),
{
    let mut out = String::new();
    out.append("{\"id\":");
    push_decimal_int(&mut out, book.id as i64);
    out.append(",\"title\":");
    push_quoted(&mut out, book.title.as_str());
    out.append(",\"author\":");
    push_quoted(&mut out, book.author.as_str());
    out.append(",\"isbn\":");
    push_quoted(&mut out, book.isbn.as_str());
    out.append(",\"publication_year\":");
    push_quoted(&mut out, book.publication_year.as_str());
    out.append(",\"genre\":");
    push_quoted(&mut out, book.genre.as_str());
    out.append(",\"number_of_copies\":");
    push_decimal_int(&mut out, book.number_of_copies as i64);
    out.append("}");
    assert(out@ =~= book_json(book@));
    out
}

/// Writes the JSON object that names the user `username`.
pub fn encode_user(username: &str) -> (r: String)
    ensures
        r@ == user_json(username@),
{
    let mut out = String::new();
    out.append("{\"username\":");
    push_quoted(&mut out, username);
    out.append("}");
    assert(out@ =~= user_json(username@));
    out
}

/// Writes the JSON object of `borrowed`.
pub fn encode_borrowed(borrowed: &BorrowedBook) -> (r: String)
    ensures
        r@ == borrowed_json(borrowed@),
{
    let mut out = String::new();
    out.append("{\"borrowed_id\":");
    push_decimal_int(&mut out, borrowed.borrowed_id);
    out.append(",\"user_id\":");
    push_decimal_int(&mut out, borrowed.user_id);
    out.append(",\"username\":");
    push_quoted(&mut out, borrowed.username.as_str());
    out.append(",\"due_date\":");
    push_quoted(&mut out, borrowed.due_date.as_str());
    out.append(",\"book\":");
    let book = encode_book(&borrowed.book);
    out.append(book.as_str());
    out.append("}");
    assert(out@ =~= borrowed_json(borrowed@));
    out
}

/// Writes the JSON array of `items`.
pub fn encode_array(items: &Vec<String>) -> (r: String)
    ensures
        r@ == array_json(string_views(items@)),
{
    let ghost all = string_views(items@);
    let mut out = String::new();
    out.append("[");
    let mut i: usize = 0;
    assert(out@ =~= "["@ + joined(all.take(0)));
    while i < items.len()
        invariant
            i <= items@.len(),
            all == string_views(items@),
            out@ == "["@ + joined(all.take(i as int)),
        decreases items@.len() - i,
    {
        assert(all.take(i + 1).drop_last() =~= all.take(i as int));
        assert(all.take(i + 1).last() == items@[i as int]@);
        if i > 0 {
            out.append(",");
        } else {
            assert(joined(all.take(0)) =~= Seq::<char>::empty());
        }
        out.append(items[i].as_str());
        assert(out@ =~= "["@ + joined(all.take(i + 1)));
        i += 1;
    }
    assert(all.take(i as int) =~= all);
    out.append("]");
    out
}

/// Writes the JSON array of `books`.
pub fn encode_books(books: &Vec<Book>) -> (r: String)
    ensures
        r@ == books_json(book_views(books@)),
{
    let mut items: Vec<String> = Vec::new();
    let mut i: usize = 0;
    while i < books.len()
        invariant
            i <= books@.len(),
            items@.len() == i,
            forall|k: int| 0 <= k < i ==> (#[trigger] items@[k])@ == book_json(books@[k]@),
        decreases books@.len() - i,
    {
        items.push(encode_book(&books[i]));
        i += 1;
    }
    assert(string_views(items@) =~= book_views(books@).map_values(|b: BookView| book_json(b)));
    encode_array(&items)
}

/// Writes the JSON array of objects that name `usernames`.
pub fn encode_users(usernames: &Vec<String>) -> (r: String)
    ensures
        r@ == users_json(string_views(usernames@)),
{
    let mut items: Vec<String> = Vec::new();
    let mut i: usize = 0;
    while i < usernames.len()
        invariant
            i <= usernames@.len(),
            items@.len() == i,
            forall|k: int| 0 <= k < i ==> (#[trigger] items@[k])@ == user_json(usernames@[k]@),
        decreases usernames@.len() - i,
    {
        items.push(encode_user(usernames[i].as_str()));
        i += 1;
    }
    assert(string_views(items@) =~= string_views(usernames@).map_values(
        |n: Seq<char>| user_json(n),
    ));
    encode_array(&items)
}

/// Writes the JSON array of `borrowed`.
pub fn encode_borrowed_list(borrowed: &Vec<BorrowedBook>) -> (r: String)
    ensures
        r@ == borrowed_list_json(borrowed_views(borrowed@)),
{
    let mut items: Vec<String> = Vec::new();
    let mut i: usize = 0;
    while i < borrowed.len()
        invariant
            i <= borrowed@.len(),
            items@.len() == i,
            forall|k: int|
                0 <= k < i ==> (#[trigger] items@[k])@ == borrowed_json(borrowed@[k]@),
        decreases borrowed@.len() - i,
    {
        items.push(encode_borrowed(&borrowed[i]));
        i += 1;
    }
    assert(string_views(items@) =~= borrowed_views(borrowed@).map_values(
        |b: BorrowedBookView| borrowed_json(b),
    ));
    encode_array(&items)
}

} // verus!
