//! The rules of the ledger, as functions from one state to the next.
//!
//! Each operation of the [`Database`](crate::db::Database) is stated here
//! over the mathematical [`Ledger`]: what it answers and which ledger it
//! leaves. The lemmas show that every operation keeps the ledger's invariant.

use crate::credentials::{password_check, signed_token};
use crate::datetime::{LAST_SECOND, LOAN_SECONDS, TOKEN_SECONDS};
use crate::db::{
    user_role, BookView, BorrowRecord, EditOutcome, Ledger, StoreError, UserView,
};
use vstd::prelude::*;

verus! {

/// The fields of a book that an edit names, each with its new value.
pub struct BookUpdateView {
    pub title: Option<Seq<char>>,
    pub author: Option<Seq<char>>,
    pub isbn: Option<Seq<char>>,
    pub publication_year: Option<Seq<char>>,
    pub genre: Option<Seq<char>>,
    pub number_of_copies: Option<i64>,
    pub available: Option<bool>,
}

impl BookUpdateView {
    /// Whether the edit names no field at all.
    pub open spec fn is_empty(self) -> bool {
        self.title is None && self.author is None && self.isbn is None
            && self.publication_year is None && self.genre is None
            && self.number_of_copies is None && self.available is None
    }

    /// The book that the edit makes of `book`: the fields that it names get
    /// their new values, the others stay.
    pub open spec fn apply(self, book: BookView) -> BookView {
        BookView {
            id: book.id,
            title: match self.title {
                Some(t) => t,
                None => book.title,
            },
            author: match self.author {
                Some(a) => a,
                None => book.author,
            },
            isbn: match self.isbn {
                Some(i) => i,
                None => book.isbn,
            },
            publication_year: match self.publication_year {
                Some(y) => y,
                None => book.publication_year,
            },
            genre: match self.genre {
                Some(g) => g,
                None => book.genre,
            },
            number_of_copies: match self.number_of_copies {
                Some(c) => c as i32,
                None => book.number_of_copies,
            },
        }
    }
}

impl Ledger {
    /// The ledger with the copies of the book at `i` set to `copies`.
    pub open spec fn with_copies(self, i: int, copies: i32) -> Ledger {
        Ledger {
            books: self.books.update(i, BookView { number_of_copies: copies, ..self.books[i] }),
            ..self
        }
    }

    /// Whether a book other than the one at `except` has the ISBN `isbn`.
    pub open spec fn isbn_taken(self, isbn: Seq<char>, except: int) -> bool {
        exists|k: int|
            0 <= k < self.books.len() && k != except && (#[trigger] self.books[k]).isbn == isbn
    }

    /// Signing up `username` with the password hash `hashed`; `None` stands
    /// for a password that could not be hashed.
    ///
    /// A name that is taken, or a password without a hash, is turned down.
    /// Else the user gets the next id and the role of a plain user.
    pub open spec fn add_user(self, username: Seq<char>, hashed: Option<Seq<char>>) -> (
        Ledger,
        Result<bool, StoreError>,
    ) {
        if self.has_username(username) || hashed is None {
            (self, Ok(false))
        } else if self.next_user_id >= i32::MAX {
            (self, Err(StoreError::Full))
        } else {
            (
                Ledger {
                    users: self.users.push(
                        UserView {
                            id: self.next_user_id,
                            username,
                            password: hashed->0,
                            role: user_role(),
                        },
                    ),
                    next_user_id: (self.next_user_id + 1) as i64,
                    ..self
                },
                Ok(true),
            )
        }
    }

    /// Adding a book to the catalogue.
    ///
    /// A book with an ISBN that the catalogue holds, or with a negative
    /// number of copies, is turned down. Else the book gets the next id.
    pub open spec fn add_book(self, book: BookView) -> (Ledger, Result<bool, StoreError>) {
        if self.has_isbn(book.isbn) || book.number_of_copies < 0 {
            (self, Ok(false))
        } else if self.next_book_id >= i32::MAX {
            (self, Err(StoreError::Full))
        } else {
            (
                Ledger {
                    books: self.books.push(BookView { id: self.next_book_id, ..book }),
                    next_book_id: (self.next_book_id + 1) as i32,
                    ..self
                },
                Ok(true),
            )
        }
    }

    /// Editing the book with the id `book_id`.
    ///
    /// An edit that names `available` fails: the catalogue keeps no such
    /// column, a book is available while it has copies. So does one that
    /// sets a number of copies beyond `i32`, which the ledger cannot hold.
    /// Every other edit is answered, and changes the ledger only where it is
    /// done: an edit that names no field has nothing to do; an edit of a
    /// book that does not exist finds no book; an ISBN that another book
    /// has, and a negative number of copies, are turned down.
    pub open spec fn edit_book(self, book_id: i64, update: BookUpdateView) -> (
        Ledger,
        Result<EditOutcome, StoreError>,
    ) {
        if update.is_empty() {
            (self, Ok(EditOutcome::NothingToDo))
        } else if update.available is Some {
            (self, Err(StoreError::NoSuchColumn))
        } else if !self.has_book(book_id as int) {
            (self, Ok(EditOutcome::NotFound))
        } else {
            let i = self.book_index(book_id as int);
            if update.isbn is Some && self.isbn_taken(update.isbn->0, i) {
                (self, Ok(EditOutcome::DuplicateIsbn))
            } else if update.number_of_copies is Some && update.number_of_copies->0 < 0 {
                (self, Ok(EditOutcome::NegativeCopies))
            } else if update.number_of_copies is Some && update.number_of_copies->0 > i32::MAX {
                (self, Err(StoreError::OutOfRange))
            } else {
                (
                    Ledger { books: self.books.update(i, update.apply(self.books[i])), ..self },
                    Ok(EditOutcome::Done),
                )
            }
        }
    }

    /// Deleting the book with the id `book_id`: done exactly if the book
    /// exists and no borrow record refers to it.
    pub open spec fn delete_book(self, book_id: i64) -> (Ledger, bool) {
        if self.is_borrowed(book_id as int) || !self.has_book(book_id as int) {
            (self, false)
        } else {
            (Ledger { books: self.books.remove(self.book_index(book_id as int)), ..self }, true)
        }
    }

    /// Lending the book with the id `book_id` to the user with the id
    /// `user_id` at the time `now`.
    ///
    /// A user who does not exist is not permitted to borrow; a book without
    /// a copy on the shelf, or no such book, is unavailable. Both are turned
    /// down. Else one borrow record is made, due seven days after `now`, and
    /// the book has one copy less.
    pub open spec fn borrow_book(self, user_id: i64, book_id: i64, now: u64) -> (
        Ledger,
        Result<bool, StoreError>,
    ) {
        if !self.has_user(user_id as int) || self.copies_of(book_id as int) < 1 {
            (self, Ok(false))
        } else if now > LAST_SECOND - LOAN_SECONDS {
            (self, Err(StoreError::OutOfRange))
        } else if self.next_record_id == i64::MAX {
            (self, Err(StoreError::Full))
        } else {
            let i = self.book_index(book_id as int);
            (
                Ledger {
                    records: self.records.push(
                        BorrowRecord {
                            id: self.next_record_id,
                            user_id,
                            book_id,
                            created_at: now,
                            due_date: (now + LOAN_SECONDS) as u64,
                        },
                    ),
                    next_record_id: (self.next_record_id + 1) as i64,
                    ..self
                }.with_copies(i, (self.books[i].number_of_copies - 1) as i32),
                Ok(true),
            )
        }
    }

    /// Whether the borrow record with the id `record_id` exists and stands
    /// for a copy of the book with the id `book_id`.
    pub open spec fn lends(self, record_id: int, book_id: int) -> bool {
        self.has_record(record_id) && self.records[self.record_index(record_id)].book_id
            == book_id
    }

    /// Taking back the copy that the borrow record with the id `record_id`
    /// stands for, a copy of the book with the id `book_id`.
    ///
    /// Without such a record, or where the record stands for a copy of
    /// another book, the return is turned down and nothing changes. Else the
    /// record is deleted and its book has one copy more. A book that holds
    /// `i32::MAX` copies can take no more.
    pub open spec fn return_book(self, record_id: i64, book_id: i64) -> (
        Ledger,
        Result<bool, StoreError>,
    ) {
        if !self.lends(record_id as int, book_id as int) {
            (self, Ok(false))
        } else {
            let i = self.book_index(book_id as int);
            if self.books[i].number_of_copies == i32::MAX {
                (self, Err(StoreError::OutOfRange))
            } else {
                (
                    Ledger {
                        records: self.records.remove(self.record_index(record_id as int)),
                        ..self
                    }.with_copies(i, (self.books[i].number_of_copies + 1) as i32),
                    Ok(true),
                )
            }
        }
    }

    /// Logging in as `username` with `password` at the time `now`, with the
    /// secret that signs tokens, if one is set.
    ///
    /// A name that no user has, or a password that is not the user's, is
    /// turned down. Else the user gets a token that names the user and the
    /// role and expires an hour after `now`, together with id, name and
    /// role. Without a secret, with a stored hash that cannot be read, or
    /// where no token can be signed, the login fails.
    pub open spec fn login(
        self,
        username: Seq<char>,
        password: Seq<char>,
        now: u64,
        secret: Option<Seq<char>>,
    ) -> Result<Option<(i32, Seq<char>, Seq<char>, Seq<char>)>, StoreError> {
        if !self.has_username(username) {
            Ok(None)
        } else {
            let user = self.users[self.username_index(username)];
            match password_check(password, user.password) {
                None => Err(StoreError::InvalidQuery),
                Some(false) => Ok(None),
                Some(true) => if now > LAST_SECOND {
                    Err(StoreError::OutOfRange)
                } else if secret is None {
                    Err(StoreError::InvalidQuery)
                } else {
                    match signed_token(
                        user.username,
                        user.role,
                        (now + TOKEN_SECONDS) as u64,
                        secret->0,
                    ) {
                        None => Err(StoreError::InvalidQuery),
                        Some(token) => Ok(
                            Some((user.id as i32, user.username, user.role, token)),
                        ),
                    }
                },
            }
        }
    }

    /// Putting back a user that was stored, under the id that it had. The
    /// user is taken if its id is not below the next id, leaves room for a
    /// next one, and its name is free.
    pub open spec fn restore_user(self, user: UserView) -> (Ledger, bool) {
        if self.next_user_id <= user.id < i32::MAX && !self.has_username(user.username) {
            (
                Ledger {
                    users: self.users.push(user),
                    next_user_id: (user.id + 1) as i64,
                    ..self
                },
                true,
            )
        } else {
            (self, false)
        }
    }

    /// Putting back a book that was stored, under the id that it had. The
    /// book is taken if its id is not below the next id, leaves room for a
    /// next one, its ISBN is free and its copies are not negative.
    pub open spec fn restore_book(self, book: BookView) -> (Ledger, bool) {
        if self.next_book_id <= book.id < i32::MAX && !self.has_isbn(book.isbn)
            && book.number_of_copies >= 0 {
            (
                Ledger {
                    books: self.books.push(book),
                    next_book_id: (book.id + 1) as i32,
                    ..self
                },
                true,
            )
        } else {
            (self, false)
        }
    }

    /// Putting back a borrow record that was stored, under the id that it
    /// had. The record is taken if its id is not below the next id, leaves
    /// room for a next one, its user and its book exist and it is due seven
    /// days after it was made.
    pub open spec fn restore_record(self, record: BorrowRecord) -> (Ledger, bool) {
        if self.next_record_id <= record.id < i64::MAX && self.has_user(record.user_id as int)
            && self.has_book(record.book_id as int) && record.due_date == record.created_at
            + LOAN_SECONDS {
            (
                Ledger {
                    records: self.records.push(record),
                    next_record_id: (record.id + 1) as i64,
                    ..self
                },
                true,
            )
        } else {
            (self, false)
        }
    }

    /// Raising the ids that the next rows get to at least `user`, `book` and
    /// `record`, so that no id that was ever given out is given out again.
    /// An id that is lower than the next id, or beyond the last id, changes
    /// nothing.
    pub open spec fn skip_ids(self, user: i64, book: i32, record: i64) -> Ledger {
        Ledger {
            next_user_id: if self.next_user_id < user <= i32::MAX {
                user
            } else {
                self.next_user_id
            },
            next_book_id: if self.next_book_id < book {
                book
            } else {
                self.next_book_id
            },
            next_record_id: if self.next_record_id < record {
                record
            } else {
                self.next_record_id
            },
            ..self
        }
    }

    /// Putting a user back keeps the invariant.
    pub proof fn lemma_restore_user_wf(self, user: UserView)
        requires
            self.wf(),
        ensures
            self.restore_user(user).0.wf(),
    {
        let after = self.restore_user(user).0;
        if after != self {
            let n = self.users.len() as int;
            assert forall|i: int| 0 <= i < after.records.len() implies {
                let r = #[trigger] after.records[i];
                after.has_user(r.user_id as int) && after.has_book(r.book_id as int)
            } by {
                let r = self.records[i];
                assert(self.has_user(r.user_id as int) && self.has_book(r.book_id as int));
                let k = self.user_index(r.user_id as int);
                assert(self.users[k].id == r.user_id);
                assert(after.users[k].id == r.user_id);
                self.lemma_same_books(after, r.book_id as int);
            }
            assert forall|i: int, j: int| 0 <= i < j < after.users.len() implies (
            #[trigger] after.users[i]).username != (#[trigger] after.users[j]).username && after.users[i].id
                < after.users[j].id by {
                if j == n {
                    assert(self.users[i].username != user.username);
                    assert(self.users[i].id < self.next_user_id);
                }
            }
        }
    }

    /// Putting a book back keeps the invariant.
    pub proof fn lemma_restore_book_wf(self, book: BookView)
        requires
            self.wf(),
        ensures
            self.restore_book(book).0.wf(),
    {
        let after = self.restore_book(book).0;
        if after != self {
            let n = self.books.len() as int;
            assert forall|i: int| 0 <= i < after.records.len() implies {
                let r = #[trigger] after.records[i];
                after.has_user(r.user_id as int) && after.has_book(r.book_id as int)
            } by {
                let r = self.records[i];
                assert(self.has_user(r.user_id as int) && self.has_book(r.book_id as int));
                let k = self.book_index(r.book_id as int);
                assert(self.books[k].id == r.book_id);
                assert(after.books[k].id == r.book_id);
                self.lemma_same_users(after, r.user_id as int);
            }
            assert forall|i: int, j: int| 0 <= i < j < after.books.len() implies (
            #[trigger] after.books[i]).isbn != (#[trigger] after.books[j]).isbn && after.books[i].id
                < after.books[j].id by {
                if j == n {
                    assert(self.books[i].isbn != book.isbn);
                    assert(self.books[i].id < self.next_book_id);
                }
            }
        }
    }

    /// Putting a borrow record back keeps the invariant.
    pub proof fn lemma_restore_record_wf(self, record: BorrowRecord)
        requires
            self.wf(),
        ensures
            self.restore_record(record).0.wf(),
    {
        let after = self.restore_record(record).0;
        if after != self {
            let n = self.records.len() as int;
            assert forall|i: int| 0 <= i < after.records.len() implies {
                let r = #[trigger] after.records[i];
                after.has_user(r.user_id as int) && after.has_book(r.book_id as int)
            } by {
                let r = after.records[i];
                if i < n {
                    assert(r == self.records[i]);
                }
                assert(self.has_user(r.user_id as int) && self.has_book(r.book_id as int));
                self.lemma_same_users(after, r.user_id as int);
                self.lemma_same_books(after, r.book_id as int);
            }
            assert forall|i: int, j: int| 0 <= i < j < after.records.len() implies (
            #[trigger] after.records[i]).id < (#[trigger] after.records[j]).id by {
                if j == n {
                    assert(self.records[i].id < self.next_record_id);
                }
            }
        }
    }

    /// Raising the next ids keeps the invariant.
    pub proof fn lemma_skip_ids_wf(self, user: i64, book: i32, record: i64)
        requires
            self.wf(),
        ensures
            self.skip_ids(user, book, record).wf(),
    {
        let after = self.skip_ids(user, book, record);
        assert forall|i: int| 0 <= i < after.records.len() implies {
            let r = #[trigger] after.records[i];
            after.has_user(r.user_id as int) && after.has_book(r.book_id as int)
        } by {
            let r = self.records[i];
            assert(self.has_user(r.user_id as int) && self.has_book(r.book_id as int));
            self.lemma_same_users(after, r.user_id as int);
            self.lemma_same_books(after, r.book_id as int);
        }
    }

    /// A book that one table holds is held by any table with the same ids.
    pub proof fn lemma_same_ids_same_books(self, other: Ledger, id: int)
        requires
            self.books.len() == other.books.len(),
            forall|k: int|
                0 <= k < self.books.len() ==> (#[trigger] self.books[k]).id == other.books[k].id,
            self.has_book(id),
        ensures
            other.has_book(id),
    {
        let k = self.book_index(id);
        assert(self.books[k].id == id);
        assert(other.books[k].id == id);
    }

    /// A user of this ledger is a user of any ledger with the same users.
    pub proof fn lemma_same_users(self, other: Ledger, id: int)
        requires
            self.users == other.users,
            self.has_user(id),
        ensures
            other.has_user(id),
    {
        let k = self.user_index(id);
        assert(other.users[k].id == id);
    }

    /// A book of this ledger is a book of any ledger with the same books.
    pub proof fn lemma_same_books(self, other: Ledger, id: int)
        requires
            self.books == other.books,
            self.has_book(id),
        ensures
            other.has_book(id),
    {
        let k = self.book_index(id);
        assert(other.books[k].id == id);
    }

    /// Signing up keeps the invariant.
    pub proof fn lemma_add_user_wf(self, username: Seq<char>, hashed: Option<Seq<char>>)
        requires
            self.wf(),
        ensures
            self.add_user(username, hashed).0.wf(),
    {
        let after = self.add_user(username, hashed).0;
        if after != self {
            let n = self.users.len() as int;
            assert forall|i: int| 0 <= i < after.records.len() implies {
                let r = #[trigger] after.records[i];
                after.has_user(r.user_id as int) && after.has_book(r.book_id as int)
            } by {
                let r = self.records[i];
                assert(self.has_user(r.user_id as int) && self.has_book(r.book_id as int));
                let k = self.user_index(r.user_id as int);
                assert(self.users[k].id == r.user_id);
                assert(after.users[k].id == r.user_id);
                self.lemma_same_books(after, r.book_id as int);
            }
            assert forall|i: int, j: int| 0 <= i < j < after.users.len() implies (
            #[trigger] after.users[i]).username != (#[trigger] after.users[j]).username by {
                if j == n {
                    assert(self.users[i].username != username);
                }
            }
        }
    }

    /// Adding a book keeps the invariant.
    pub proof fn lemma_add_book_wf(self, book: BookView)
        requires
            self.wf(),
        ensures
            self.add_book(book).0.wf(),
    {
        let after = self.add_book(book).0;
        if after != self {
            let n = self.books.len() as int;
            assert forall|i: int| 0 <= i < after.records.len() implies {
                let r = #[trigger] after.records[i];
                after.has_user(r.user_id as int) && after.has_book(r.book_id as int)
            } by {
                let r = self.records[i];
                assert(self.has_user(r.user_id as int) && self.has_book(r.book_id as int));
                let k = self.book_index(r.book_id as int);
                assert(self.books[k].id == r.book_id);
                assert(after.books[k].id == r.book_id);
                self.lemma_same_users(after, r.user_id as int);
            }
            assert forall|i: int, j: int| 0 <= i < j < after.books.len() implies (
            #[trigger] after.books[i]).isbn != (#[trigger] after.books[j]).isbn by {
                if j == n {
                    assert(self.books[i].isbn != book.isbn);
                }
            }
        }
    }

    /// Editing a book keeps the invariant.
    pub proof fn lemma_edit_book_wf(self, book_id: i64, update: BookUpdateView)
        requires
            self.wf(),
        ensures
            self.edit_book(book_id, update).0.wf(),
    {
        let after = self.edit_book(book_id, update).0;
        if after != self {
            let e = self.book_index(book_id as int);
            assert forall|i: int| 0 <= i < after.records.len() implies {
                let r = #[trigger] after.records[i];
                after.has_user(r.user_id as int) && after.has_book(r.book_id as int)
            } by {
                let r = self.records[i];
                assert(self.has_user(r.user_id as int) && self.has_book(r.book_id as int));
                self.lemma_same_ids_same_books(after, r.book_id as int);
                self.lemma_same_users(after, r.user_id as int);
            }
            assert forall|i: int, j: int| 0 <= i < j < after.books.len() implies (
            #[trigger] after.books[i]).isbn != (#[trigger] after.books[j]).isbn by {
                assert(self.books[i].isbn != self.books[j].isbn);
                if update.isbn is Some {
                    if i == e {
                        assert(self.books[j].isbn != update.isbn->0);
                    }
                    if j == e {
                        assert(self.books[i].isbn != update.isbn->0);
                    }
                }
            }
        }
    }

    /// Deleting a book keeps the invariant.
    pub proof fn lemma_delete_book_wf(self, book_id: i64)
        requires
            self.wf(),
        ensures
            self.delete_book(book_id).0.wf(),
    {
        let after = self.delete_book(book_id).0;
        if after != self {
            let d = self.book_index(book_id as int);
            assert forall|i: int| 0 <= i < after.records.len() implies {
                let r = #[trigger] after.records[i];
                after.has_user(r.user_id as int) && after.has_book(r.book_id as int)
            } by {
                let r = self.records[i];
                assert(self.has_user(r.user_id as int) && self.has_book(r.book_id as int));
                self.lemma_same_users(after, r.user_id as int);
                let k = self.book_index(r.book_id as int);
                assert(self.books[k].id == r.book_id);
                assert(r.book_id != book_id);
                if k < d {
                    assert(after.books[k].id == r.book_id);
                } else {
                    assert(after.books[k - 1].id == r.book_id);
                }
            }
            assert forall|i: int, j: int| 0 <= i < j < after.books.len() implies (
            #[trigger] after.books[i]).id < (#[trigger] after.books[j]).id && after.books[i].isbn
                != after.books[j].isbn by {
                let a = if i < d {
                    i
                } else {
                    i + 1
                };
                let b = if j < d {
                    j
                } else {
                    j + 1
                };
                assert(self.books[a].id < self.books[b].id);
                assert(self.books[a].isbn != self.books[b].isbn);
            }
            assert forall|i: int| 0 <= i < after.books.len() implies 1 <= (
            #[trigger] after.books[i]).id < after.next_book_id && after.books[i].number_of_copies
                >= 0 by {
                let a = if i < d {
                    i
                } else {
                    i + 1
                };
                assert(1 <= self.books[a].id < self.next_book_id);
            }
        }
    }

    /// Setting the copies of a book to a number that is not negative keeps
    /// the invariant.
    pub proof fn lemma_with_copies_wf(self, i: int, copies: i32)
        requires
            self.wf(),
            0 <= i < self.books.len(),
            copies >= 0,
        ensures
            self.with_copies(i, copies).wf(),
    {
        let after = self.with_copies(i, copies);
        assert forall|k: int| 0 <= k < after.records.len() implies {
            let r = #[trigger] after.records[k];
            after.has_user(r.user_id as int) && after.has_book(r.book_id as int)
        } by {
            let r = self.records[k];
            assert(self.has_user(r.user_id as int) && self.has_book(r.book_id as int));
            self.lemma_same_ids_same_books(after, r.book_id as int);
            self.lemma_same_users(after, r.user_id as int);
        }
        assert forall|a: int, b: int| 0 <= a < b < after.books.len() implies (
        #[trigger] after.books[a]).isbn != (#[trigger] after.books[b]).isbn by {
            assert(self.books[a].isbn != self.books[b].isbn);
        }
    }

    /// Lending a book keeps the invariant.
    pub proof fn lemma_borrow_book_wf(self, user_id: i64, book_id: i64, now: u64)
        requires
            self.wf(),
        ensures
            self.borrow_book(user_id, book_id, now).0.wf(),
    {
        let after = self.borrow_book(user_id, book_id, now).0;
        if after != self {
            let i = self.book_index(book_id as int);
            let mid = Ledger {
                records: self.records.push(
                    BorrowRecord {
                        id: self.next_record_id,
                        user_id,
                        book_id,
                        created_at: now,
                        due_date: (now + LOAN_SECONDS) as u64,
                    },
                ),
                next_record_id: (self.next_record_id + 1) as i64,
                ..self
            };
            assert(self.books[i].id == book_id);
            assert(mid.wf());
            mid.lemma_with_copies_wf(i, (self.books[i].number_of_copies - 1) as i32);
        }
    }

    /// Taking a book back keeps the invariant.
    pub proof fn lemma_return_book_wf(self, record_id: i64, book_id: i64)
        requires
            self.wf(),
        ensures
            self.return_book(record_id, book_id).0.wf(),
    {
        let after = self.return_book(record_id, book_id).0;
        if after != self {
            let d = self.record_index(record_id as int);
            let mid = Ledger { records: self.records.remove(d), ..self };
            assert forall|k: int| 0 <= k < mid.records.len() implies {
                let r = #[trigger] mid.records[k];
                &&& 1 <= r.id < mid.next_record_id
                &&& mid.has_user(r.user_id as int)
                &&& mid.has_book(r.book_id as int)
                &&& r.due_date == r.created_at + LOAN_SECONDS
            } by {
                let a = if k < d {
                    k
                } else {
                    k + 1
                };
                assert(mid.records[k] == self.records[a]);
            }
            assert forall|a: int, b: int| 0 <= a < b < mid.records.len() implies (
            #[trigger] mid.records[a]).id < (#[trigger] mid.records[b]).id by {
                let x = if a < d {
                    a
                } else {
                    a + 1
                };
                let y = if b < d {
                    b
                } else {
                    b + 1
                };
                assert(self.records[x].id < self.records[y].id);
            }
            assert(mid.wf());
            assert(self.has_book(self.records[d].book_id as int));
            let i = self.book_index(book_id as int);
            mid.lemma_with_copies_wf(i, (self.books[i].number_of_copies + 1) as i32);
        }
    }
}

} // verus!
