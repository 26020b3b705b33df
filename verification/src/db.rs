//! The shared ledger: the users, the catalogue and the borrow records, with
//! the operations that change them.
//!
//! A [`Database`] is one value with one owner. Every operation takes it by
//! reference for its whole sequence of reads and writes, so to every other
//! operation it has either happened or not. Whoever shares the ledger between
//! workers keeps it behind one lock and calls the operations with the lock
//! held.

use crate::credentials::{check_password, hash_password, password_check, sign_token};
use crate::datetime::{
    date_time_text, format_date_time, LAST_SECOND, LOAN_SECONDS, TOKEN_SECONDS,
};
use crate::rules::BookUpdateView;
use crate::text::text_eq;
use vstd::prelude::*;
use vstd::string::*;

verus! {

/// A catalogue item.
#[derive(Debug)]
pub struct Book {
    pub id: i32,
    pub title: String,
    pub author: String,
    pub isbn: String,
    pub publication_year: String,
    pub genre: String,
    pub number_of_copies: i32,
}

/// The mathematical content of a [`Book`].
pub struct BookView {
    pub id: i32,
    pub title: Seq<char>,
    pub author: Seq<char>,
    pub isbn: Seq<char>,
    pub publication_year: Seq<char>,
    pub genre: Seq<char>,
    pub number_of_copies: i32,
}

impl View for Book {
    type V = BookView;

    open spec fn view(&self) -> BookView {
        BookView {
            id: self.id,
            title: self.title@,
            author: self.author@,
            isbn: self.isbn@,
            publication_year: self.publication_year@,
            genre: self.genre@,
            number_of_copies: self.number_of_copies,
        }
    }
}

/// A borrow record, joined with its user and its book.
#[derive(Debug)]
pub struct BorrowedBook {
    pub borrowed_id: i64,
    pub user_id: i64,
    pub username: String,
    pub due_date: String,
    pub book: Book,
}

/// The mathematical content of a [`BorrowedBook`].
pub struct BorrowedBookView {
    pub borrowed_id: i64,
    pub user_id: i64,
    pub username: Seq<char>,
    pub due_date: Seq<char>,
    pub book: BookView,
}

impl View for BorrowedBook {
    type V = BorrowedBookView;

    open spec fn view(&self) -> BorrowedBookView {
        BorrowedBookView {
            borrowed_id: self.borrowed_id,
            user_id: self.user_id,
            username: self.username@,
            due_date: self.due_date@,
            book: self.book@,
        }
    }
}

/// A user. `password` holds the hash of the password, never the password.
#[derive(Debug)]
pub struct User {
    pub id: i64,
    pub username: String,
    pub password: String,
    pub role: String,
}

/// The mathematical content of a [`User`].
pub struct UserView {
    pub id: i64,
    pub username: Seq<char>,
    pub password: Seq<char>,
    pub role: Seq<char>,
}

impl View for User {
    type V = UserView;

    open spec fn view(&self) -> UserView {
        UserView {
            id: self.id,
            username: self.username@,
            password: self.password@,
            role: self.role@,
        }
    }
}

/// Evidence that a user holds a copy of a book. The due date is set when the
/// record is made, seven days after `created_at`, and never changes.
#[derive(Clone, Copy, Debug, PartialEq, Eq)]
pub struct BorrowRecord {
    pub id: i64,
    pub user_id: i64,
    pub book_id: i64,
    pub created_at: u64,
    pub due_date: u64,
}

/// What became of an edit of a book. Only `Done` changes the ledger; the
/// others are the ledger's ordinary ways of saying no.
#[derive(Clone, Copy, Debug, PartialEq, Eq)]
pub enum EditOutcome {
    /// The book has its new values.
    Done,
    /// The edit names no field.
    NothingToDo,
    /// No book has the id.
    NotFound,
    /// Another book has the ISBN that the edit names.
    DuplicateIsbn,
    /// The edit names a negative number of copies.
    NegativeCopies,
}

/// Why the ledger could not carry out an operation. This is never the answer
/// to a request that the ledger's rules turn down: a row that is missing, a
/// name or an ISBN that is taken, a book without copies. Such a request gets
/// `Ok` with a negative answer.
#[derive(Clone, Copy, Debug, PartialEq, Eq)]
pub enum StoreError {
    /// The table has given out its last id.
    Full,
    /// A number or a time lies beyond what the ledger stores.
    OutOfRange,
    /// The change names a column that the table does not have.
    NoSuchColumn,
    /// The credentials could not be checked, or no token could be made.
    InvalidQuery,
}

/// The role of a user who signed up.
pub open spec fn user_role() -> Seq<char> {
    "user"@
}

/// The state of the ledger: its three tables, each in the order of its ids,
/// and the id that the next row of each will get.
pub struct Ledger {
    pub users: Seq<UserView>,
    pub books: Seq<BookView>,
    pub records: Seq<BorrowRecord>,
    pub next_user_id: i64,
    pub next_book_id: i32,
    pub next_record_id: i64,
}

impl Ledger {
    /// The ledger with nothing in it.
    pub open spec fn empty() -> Ledger {
        Ledger {
            users: Seq::empty(),
            books: Seq::empty(),
            records: Seq::empty(),
            next_user_id: 1,
            next_book_id: 1,
            next_record_id: 1,
        }
    }

    /// Whether a user has the id `id`.
    pub open spec fn has_user(self, id: int) -> bool {
        exists|i: int| 0 <= i < self.users.len() && (#[trigger] self.users[i]).id == id
    }

    /// Whether a user has the name `name`.
    pub open spec fn has_username(self, name: Seq<char>) -> bool {
        exists|i: int| 0 <= i < self.users.len() && (#[trigger] self.users[i]).username == name
    }

    /// Whether a book has the id `id`.
    pub open spec fn has_book(self, id: int) -> bool {
        exists|i: int| 0 <= i < self.books.len() && (#[trigger] self.books[i]).id == id
    }

    /// Whether a book has the ISBN `isbn`.
    pub open spec fn has_isbn(self, isbn: Seq<char>) -> bool {
        exists|i: int| 0 <= i < self.books.len() && (#[trigger] self.books[i]).isbn == isbn
    }

    /// Whether a borrow record has the id `id`.
    pub open spec fn has_record(self, id: int) -> bool {
        exists|i: int| 0 <= i < self.records.len() && (#[trigger] self.records[i]).id == id
    }

    /// Whether a borrow record refers to the book with the id `book_id`.
    pub open spec fn is_borrowed(self, book_id: int) -> bool {
        exists|i: int| 0 <= i < self.records.len() && (#[trigger] self.records[i]).book_id == book_id
    }

    /// Where the user with the id `id` stands in the table.
    pub open spec fn user_index(self, id: int) -> int {
        choose|i: int| 0 <= i < self.users.len() && (#[trigger] self.users[i]).id == id
    }

    /// Where the user with the name `name` stands in the table.
    pub open spec fn username_index(self, name: Seq<char>) -> int {
        choose|i: int| 0 <= i < self.users.len() && (#[trigger] self.users[i]).username == name
    }

    /// Where the book with the id `id` stands in the table.
    pub open spec fn book_index(self, id: int) -> int {
        choose|i: int| 0 <= i < self.books.len() && (#[trigger] self.books[i]).id == id
    }

    /// Where the borrow record with the id `id` stands in the table.
    pub open spec fn record_index(self, id: int) -> int {
        choose|i: int| 0 <= i < self.records.len() && (#[trigger] self.records[i]).id == id
    }

    /// The copies of the book with the id `id` that are on the shelf; 0 where
    /// there is no such book.
    pub open spec fn copies_of(self, id: int) -> int {
        if self.has_book(id) {
            self.books[self.book_index(id)].number_of_copies as int
        } else {
            0
        }
    }

    /// The ledger's invariant.
    ///
    /// * Each table is in the strict order of its ids, which are positive
    ///   and below the id that the next row will get: no id occurs twice and
    ///   none is given out again.
    /// * No two users have one name, and no two books one ISBN.
    /// * No book has a negative number of copies.
    /// * Each borrow record refers to a user and a book that exist, and is
    ///   due seven days after it was made.
    pub open spec fn wf(self) -> bool {
        &&& 1 <= self.next_user_id <= i32::MAX
        &&& 1 <= self.next_book_id
        &&& 1 <= self.next_record_id
        &&& forall|i: int|
            0 <= i < self.users.len() ==> 1 <= (#[trigger] self.users[i]).id < self.next_user_id
        &&& forall|i: int, j: int|
            0 <= i < j < self.users.len() ==> (#[trigger] self.users[i]).id < (
            #[trigger] self.users[j]).id
        &&& forall|i: int, j: int|
            0 <= i < j < self.users.len() ==> (#[trigger] self.users[i]).username != (
            #[trigger] self.users[j]).username
        &&& forall|i: int|
            0 <= i < self.books.len() ==> 1 <= (#[trigger] self.books[i]).id < self.next_book_id
                && self.books[i].number_of_copies >= 0
        &&& forall|i: int, j: int|
            0 <= i < j < self.books.len() ==> (#[trigger] self.books[i]).id < (
            #[trigger] self.books[j]).id
        &&& forall|i: int, j: int|
            0 <= i < j < self.books.len() ==> (#[trigger] self.books[i]).isbn != (
            #[trigger] self.books[j]).isbn
        &&& forall|i: int|
            0 <= i < self.records.len() ==> {
                let r = #[trigger] self.records[i];
                &&& 1 <= r.id < self.next_record_id
                &&& self.has_user(r.user_id as int)
                &&& self.has_book(r.book_id as int)
                &&& r.due_date == r.created_at + LOAN_SECONDS
            }
        &&& forall|i: int, j: int|
            0 <= i < j < self.records.len() ==> (#[trigger] self.records[i]).id < (
            #[trigger] self.records[j]).id
    }

    /// In a ledger that keeps its invariant, the user at `i` is the one that
    /// its id names.
    pub proof fn lemma_user_index(self, i: int)
        requires
            self.wf(),
            0 <= i < self.users.len(),
        ensures
            self.has_user(self.users[i].id as int),
            self.user_index(self.users[i].id as int) == i,
    {
        let id = self.users[i].id as int;
        let j = self.user_index(id);
        assert(0 <= j < self.users.len() && self.users[j].id == id);
        if j < i {
            assert(self.users[j].id < self.users[i].id);
        } else if i < j {
            assert(self.users[i].id < self.users[j].id);
        }
    }

    /// In a ledger that keeps its invariant, the user at `i` is the one that
    /// its name names.
    pub proof fn lemma_username_index(self, i: int)
        requires
            self.wf(),
            0 <= i < self.users.len(),
        ensures
            self.has_username(self.users[i].username),
            self.username_index(self.users[i].username) == i,
    {
        let name = self.users[i].username;
        let j = self.username_index(name);
        assert(0 <= j < self.users.len() && self.users[j].username == name);
        if j < i {
            assert(self.users[j].username != self.users[i].username);
        } else if i < j {
            assert(self.users[i].username != self.users[j].username);
        }
    }

    /// In a ledger that keeps its invariant, the book at `i` is the one that
    /// its id names.
    pub proof fn lemma_book_index(self, i: int)
        requires
            self.wf(),
            0 <= i < self.books.len(),
        ensures
            self.has_book(self.books[i].id as int),
            self.book_index(self.books[i].id as int) == i,
            self.copies_of(self.books[i].id as int) == self.books[i].number_of_copies,
    {
        let id = self.books[i].id as int;
        let j = self.book_index(id);
        assert(0 <= j < self.books.len() && self.books[j].id == id);
        if j < i {
            assert(self.books[j].id < self.books[i].id);
        } else if i < j {
            assert(self.books[i].id < self.books[j].id);
        }
    }

    /// In a ledger that keeps its invariant, the borrow record at `i` is the
    /// one that its id names.
    pub proof fn lemma_record_index(self, i: int)
        requires
            self.wf(),
            0 <= i < self.records.len(),
        ensures
            self.has_record(self.records[i].id as int),
            self.record_index(self.records[i].id as int) == i,
    {
        let id = self.records[i].id as int;
        let j = self.record_index(id);
        assert(0 <= j < self.records.len() && self.records[j].id == id);
        if j < i {
            assert(self.records[j].id < self.records[i].id);
        } else if i < j {
            assert(self.records[i].id < self.records[j].id);
        }
    }
}

/// The views of `users`, one by one.
pub open spec fn user_views(users: Seq<User>) -> Seq<UserView> {
    users.map_values(|u: User| u@)
}

/// The views of `books`, one by one.
pub open spec fn book_views(books: Seq<Book>) -> Seq<BookView> {
    books.map_values(|b: Book| b@)
}

/// The views of `borrowed`, one by one.
pub open spec fn borrowed_views(borrowed: Seq<BorrowedBook>) -> Seq<BorrowedBookView> {
    borrowed.map_values(|b: BorrowedBook| b@)
}

/// The views of `names`, one by one.
pub open spec fn string_views(names: Seq<String>) -> Seq<Seq<char>> {
    names.map_values(|s: String| s@)
}

/// The ledger.
pub struct Database {
    users: Vec<User>,
    books: Vec<Book>,
    records: Vec<BorrowRecord>,
    next_user_id: i64,
    next_book_id: i32,
    next_record_id: i64,
}

impl View for Database {
    type V = Ledger;

    closed spec fn view(&self) -> Ledger {
        Ledger {
            users: user_views(self.users@),
            books: book_views(self.books@),
            records: self.records@,
            next_user_id: self.next_user_id,
            next_book_id: self.next_book_id,
            next_record_id: self.next_record_id,
        }
    }
}

/// A copy of `book`.
pub fn copy_book(book: &Book) -> (r: Book)
    ensures
        r@ == book@,
{
    Book {
        id: book.id,
        title: book.title.clone(),
        author: book.author.clone(),
        isbn: book.isbn.clone(),
        publication_year: book.publication_year.clone(),
        genre: book.genre.clone(),
        number_of_copies: book.number_of_copies,
    }
}

/// A copy of `user`.
pub fn copy_user(user: &User) -> (r: User)
    ensures
        r@ == user@,
{
    User {
        id: user.id,
        username: user.username.clone(),
        password: user.password.clone(),
        role: user.role.clone(),
    }
}

impl Database {
    /// Whether the ledger's invariant holds.
    pub open spec fn wf(&self) -> bool {
        self@.wf()
    }

    /// A ledger with nothing in it.
    pub fn new() -> (r: Database)
        ensures
            r.wf(),
            r@ == Ledger::empty(),
    {
        let r = Database {
            users: Vec::new(),
            books: Vec::new(),
            records: Vec::new(),
            next_user_id: 1,
            next_book_id: 1,
            next_record_id: 1,
        };
        assert(r@.users =~= Seq::empty());
        assert(r@.books =~= Seq::empty());
        r
    }

    /// Finds the user with the id `id`.
    fn find_user(&self, id: i64) -> (r: Option<usize>)
        requires
            self.wf(),
        ensures
            match r {
                Some(i) => self@.has_user(id as int) && i == self@.user_index(id as int) && i
                    < self.users@.len() && self.users@[i as int].id == id,
                None => !self@.has_user(id as int),
            },
    {
        let mut i: usize = 0;
        while i < self.users.len()
            invariant
                i <= self.users@.len(),
                forall|k: int| 0 <= k < i ==> (#[trigger] self@.users[k]).id != id,
                self.wf(),
            decreases self.users@.len() - i,
        {
            if self.users[i].id == id {
                proof {
                    self@.lemma_user_index(i as int);
                }
                return Some(i);
            }
            i += 1;
        }
        None
    }

    /// Finds the user with the name `name`.
    fn find_username(&self, name: &str) -> (r: Option<usize>)
        requires
            self.wf(),
        ensures
            match r {
                Some(i) => self@.has_username(name@) && i == self@.username_index(name@) && i
                    < self.users@.len() && self.users@[i as int].username@ == name@,
                None => !self@.has_username(name@),
            },
    {
        let mut i: usize = 0;
        while i < self.users.len()
            invariant
                i <= self.users@.len(),
                forall|k: int| 0 <= k < i ==> (#[trigger] self@.users[k]).username != name@,
                self.wf(),
            decreases self.users@.len() - i,
        {
            if text_eq(self.users[i].username.as_str(), name) {
                proof {
                    self@.lemma_username_index(i as int);
                }
                return Some(i);
            }
            i += 1;
        }
        None
    }

    /// Finds the book with the id `id`.
    fn find_book(&self, id: i64) -> (r: Option<usize>)
        requires
            self.wf(),
        ensures
            match r {
                Some(i) => self@.has_book(id as int) && i == self@.book_index(id as int) && i
                    < self.books@.len() && self.books@[i as int].id == id,
                None => !self@.has_book(id as int),
            },
    {
        let mut i: usize = 0;
        while i < self.books.len()
            invariant
                i <= self.books@.len(),
                forall|k: int| 0 <= k < i ==> (#[trigger] self@.books[k]).id != id,
                self.wf(),
            decreases self.books@.len() - i,
        {
            if self.books[i].id as i64 == id {
                proof {
                    self@.lemma_book_index(i as int);
                }
                return Some(i);
            }
            i += 1;
        }
        None
    }

    /// Finds a book with the ISBN `isbn` other than the one at `except`.
    fn isbn_in_use(&self, isbn: &str, except: Option<usize>) -> (r: bool)
        requires
            self.wf(),
        ensures
            r == match except {
                Some(e) => self@.isbn_taken(isbn@, e as int),
                None => self@.has_isbn(isbn@),
            },
    {
        let mut i: usize = 0;
        while i < self.books.len()
            invariant
                i <= self.books@.len(),
                forall|k: int|
                    0 <= k < i && (except matches Some(e) ==> e != k) ==> (
                    #[trigger] self@.books[k]).isbn != isbn@,
            decreases self.books@.len() - i,
        {
            let skip = match except {
                Some(e) => e == i,
                None => false,
            };
            if !skip && text_eq(self.books[i].isbn.as_str(), isbn) {
                assert(self@.books[i as int].isbn == isbn@);
                return true;
            }
            i += 1;
        }
        false
    }

    /// Finds the borrow record with the id `id`.
    fn find_record(&self, id: i64) -> (r: Option<usize>)
        requires
            self.wf(),
        ensures
            match r {
                Some(i) => self@.has_record(id as int) && i == self@.record_index(id as int) && i
                    < self.records@.len() && self.records@[i as int].id == id,
                None => !self@.has_record(id as int),
            },
    {
        let mut i: usize = 0;
        while i < self.records.len()
            invariant
                i <= self.records@.len(),
                forall|k: int| 0 <= k < i ==> (#[trigger] self@.records[k]).id != id,
                self.wf(),
            decreases self.records@.len() - i,
        {
            if self.records[i].id == id {
                proof {
                    self@.lemma_record_index(i as int);
                }
                return Some(i);
            }
            i += 1;
        }
        None
    }

    /// Tests whether a borrow record refers to the book with the id
    /// `book_id`.
    fn has_borrower(&self, book_id: i64) -> (r: bool)
        ensures
            r == self@.is_borrowed(book_id as int),
    {
        let mut i: usize = 0;
        while i < self.records.len()
            invariant
                i <= self.records@.len(),
                forall|k: int| 0 <= k < i ==> (#[trigger] self@.records[k]).book_id != book_id,
            decreases self.records@.len() - i,
        {
            if self.records[i].book_id == book_id {
                assert(self@.records[i as int].book_id == book_id);
                return true;
            }
            i += 1;
        }
        false
    }

    /// The catalogue, in the order of the books' ids.
    pub fn fetch_books(&self) -> (r: Vec<Book>)
        ensures
            book_views(r@) == self@.books,
    {
        let mut out: Vec<Book> = Vec::new();
        let mut i: usize = 0;
        while i < self.books.len()
            invariant
                i <= self.books@.len(),
                out@.len() == i,
                forall|k: int| 0 <= k < i ==> (#[trigger] out@[k])@ == self.books@[k]@,
            decreases self.books@.len() - i,
        {
            out.push(copy_book(&self.books[i]));
            i += 1;
        }
        assert(book_views(out@) =~= self@.books);
        out
    }

    /// The book with the id `book_id`, if there is one.
    pub fn fetch_book(&self, book_id: i64) -> (r: Option<Book>)
        requires
            self.wf(),
        ensures
            match r {
                Some(book) => self@.has_book(book_id as int) && book@ == self@.books[self@.book_index(
                    book_id as int,
                )],
                None => !self@.has_book(book_id as int),
            },
    {
        match self.find_book(book_id) {
            Some(i) => Some(copy_book(&self.books[i])),
            None => None,
        }
    }

    /// Signs up `username` with the password hash `hashed`; `None` stands for
    /// a password that could not be hashed.
    pub fn add_user(&mut self, username: &str, hashed: Option<String>) -> (r: Result<
        bool,
        StoreError,
    >)
        requires
            old(self).wf(),
        ensures
            final(self).wf(),
            (final(self)@, r) == old(self)@.add_user(username@, option_view(hashed)),
    {
        proof {
            self@.lemma_add_user_wf(username@, option_view(hashed));
        }
        if self.find_username(username).is_some() {
            return Ok(false);
        }
        let password = match hashed {
            Some(h) => h,
            None => {
                return Ok(false);
            },
        };
        if self.next_user_id >= i32::MAX as i64 {
            return Err(StoreError::Full);
        }
        let user = User {
            id: self.next_user_id,
            username: username.to_owned(),
            password,
            role: "user".to_owned(),
        };
        self.users.push(user);
        self.next_user_id = self.next_user_id + 1;
        assert(self@.users =~= old(self)@.add_user(username@, option_view(hashed)).0.users);
        Ok(true)
    }

    /// Signs up `username` with `password`. The ledger keeps a hash of the
    /// password, with a salt drawn at random: the user is added as
    /// [`add_user`](Database::add_user) adds one with some hash that the
    /// password matches, or with none where the password could not be
    /// hashed.
    pub fn create_user(&mut self, username: &str, password: &str) -> (r: Result<bool, StoreError>)
        requires
            old(self).wf(),
        ensures
            final(self).wf(),
            exists|hashed: Option<Seq<char>>|
                (final(self)@, r) == #[trigger] old(self)@.add_user(username@, hashed)
                    && is_hash_of(hashed, password@),
            old(self)@.has_username(username@) ==> r == Ok::<bool, StoreError>(false)
                && final(self)@ == old(self)@,
    {
        if self.find_username(username).is_some() {
            assert((self@, Ok::<bool, StoreError>(false)) == self@.add_user(username@, None)
                && is_hash_of(None, password@));
            return Ok(false);
        }
        let hashed = match hash_password(password) {
            Ok(hash) => Some(hash),
            Err(_) => None,
        };
        let ghost given = option_view(hashed);
        let r = self.add_user(username, hashed);
        assert((self@, r) == old(self)@.add_user(username@, given) && is_hash_of(
            given,
            password@,
        ));
        r
    }

    /// Logs `username` in with `password` at the time `now`, in seconds since
    /// the start of 1970. `secret` signs the token; `None` stands for a
    /// secret that is not set. Gives the user's id, name and role and the
    /// token.
    pub fn verify_user(&self, username: &str, password: &str, now: u64, secret: Option<&str>) -> (r:
        Result<Option<(i32, String, String, String)>, StoreError>)
        requires
            self.wf(),
        ensures
            session_view(r) == self@.login(username@, password@, now, option_str_view(secret)),
    {
        let i = match self.find_username(username) {
            Some(i) => i,
            None => {
                return Ok(None);
            },
        };
        let user = &self.users[i];
        assert(self@.users[i as int] == user@);
        let matches = match check_password(password, user.password.as_str()) {
            Ok(m) => m,
            Err(_) => {
                return Err(StoreError::InvalidQuery);
            },
        };
        if !matches {
            return Ok(None);
        }
        if now > LAST_SECOND {
            return Err(StoreError::OutOfRange);
        }
        let key = match secret {
            Some(key) => key,
            None => {
                return Err(StoreError::InvalidQuery);
            },
        };
        match sign_token(user.username.as_str(), user.role.as_str(), now + TOKEN_SECONDS, key) {
            Ok(token) => Ok(Some((user.id as i32, user.username.clone(), user.role.clone(), token))),
            Err(_) => Err(StoreError::InvalidQuery),
        }
    }

    /// Adds a book to the catalogue.
    pub fn add_book(
        &mut self,
        title: &str,
        author: &str,
        isbn: &str,
        publication_year: &str,
        genre: &str,
        number_of_copies: i32,
    ) -> (r: Result<bool, StoreError>)
        requires
            old(self).wf(),
        ensures
            final(self).wf(),
            (final(self)@, r) == old(self)@.add_book(
                new_book(title@, author@, isbn@, publication_year@, genre@, number_of_copies),
            ),
    {
        let ghost book = new_book(title@, author@, isbn@, publication_year@, genre@, number_of_copies);
        proof {
            self@.lemma_add_book_wf(book);
        }
        if self.isbn_in_use(isbn, None) || number_of_copies < 0 {
            return Ok(false);
        }
        if self.next_book_id >= i32::MAX {
            return Err(StoreError::Full);
        }
        let row = Book {
            id: self.next_book_id,
            title: title.to_owned(),
            author: author.to_owned(),
            isbn: isbn.to_owned(),
            publication_year: publication_year.to_owned(),
            genre: genre.to_owned(),
            number_of_copies,
        };
        self.books.push(row);
        self.next_book_id = self.next_book_id + 1;
        assert(self@.books =~= old(self)@.add_book(book).0.books);
        Ok(true)
    }

    /// Deletes the book with the id `book_id`, unless a borrow record refers
    /// to it. Says whether the book is gone.
    pub fn delete_book(&mut self, book_id: i64) -> (r: bool)
        requires
            old(self).wf(),
        ensures
            final(self).wf(),
            (final(self)@, r) == old(self)@.delete_book(book_id),
    {
        proof {
            self@.lemma_delete_book_wf(book_id);
        }
        if self.has_borrower(book_id) {
            return false;
        }
        match self.find_book(book_id) {
            None => false,
            Some(i) => {
                self.books.remove(i);
                assert(self@.books =~= old(self)@.delete_book(book_id).0.books);
                true
            },
        }
    }

    /// Lends the book with the id `book_id` to the user with the id
    /// `user_id` at the time `now`, in seconds since the start of 1970.
    pub fn borrow_book(&mut self, user_id: i64, book_id: i64, now: u64) -> (r: Result<
        bool,
        StoreError,
    >)
        requires
            old(self).wf(),
        ensures
            final(self).wf(),
            (final(self)@, r) == old(self)@.borrow_book(user_id, book_id, now),
    {
        proof {
            self@.lemma_borrow_book_wf(user_id, book_id, now);
        }
        if self.find_user(user_id).is_none() {
            return Ok(false);
        }
        let i = match self.find_book(book_id) {
            Some(i) => i,
            None => {
                return Ok(false);
            },
        };
        let copies = self.books[i].number_of_copies;
        if copies < 1 {
            return Ok(false);
        }
        if now > LAST_SECOND - LOAN_SECONDS {
            return Err(StoreError::OutOfRange);
        }
        if self.next_record_id == i64::MAX {
            return Err(StoreError::Full);
        }
        self.records.push(
            BorrowRecord {
                id: self.next_record_id,
                user_id,
                book_id,
                created_at: now,
                due_date: now + LOAN_SECONDS,
            },
        );
        self.next_record_id = self.next_record_id + 1;
        self.books[i].number_of_copies = copies - 1;
        assert(self@.books =~= old(self)@.borrow_book(user_id, book_id, now).0.books);
        Ok(true)
    }

    /// Takes back the copy that the borrow record with the id `borrowed_id`
    /// stands for, a copy of the book with the id `book_id`. A record that
    /// stands for a copy of another book is not returned.
    pub fn return_book(&mut self, borrowed_id: i64, book_id: i64) -> (r: Result<bool, StoreError>)
        requires
            old(self).wf(),
        ensures
            final(self).wf(),
            (final(self)@, r) == old(self)@.return_book(borrowed_id, book_id),
    {
        proof {
            self@.lemma_return_book_wf(borrowed_id, book_id);
        }
        let d = match self.find_record(borrowed_id) {
            Some(d) => d,
            None => {
                return Ok(false);
            },
        };
        if self.records[d].book_id != book_id {
            return Ok(false);
        }
        assert(self@.has_book(self@.records[d as int].book_id as int));
        let i = match self.find_book(book_id) {
            Some(i) => i,
            None => {
                return Ok(false);
            },
        };
        let copies = self.books[i].number_of_copies;
        if copies == i32::MAX {
            return Err(StoreError::OutOfRange);
        }
        self.books[i].number_of_copies = copies + 1;
        self.records.remove(d);
        assert(self@.books =~= old(self)@.return_book(borrowed_id, book_id).0.books);
        Ok(true)
    }

    /// Edits the book with the id `book_id`: the fields that `updated_fields`
    /// names get their new values, unless the ledger says no.
    pub fn edit_book(&mut self, book_id: i64, updated_fields: &BookUpdate) -> (r: Result<
        EditOutcome,
        StoreError,
    >)
        requires
            old(self).wf(),
        ensures
            final(self).wf(),
            (final(self)@, r) == old(self)@.edit_book(book_id, updated_fields@),
    {
        proof {
            self@.lemma_edit_book_wf(book_id, updated_fields@);
        }
        if updated_fields.title.is_none() && updated_fields.author.is_none()
            && updated_fields.isbn.is_none() && updated_fields.publication_year.is_none()
            && updated_fields.genre.is_none() && updated_fields.number_of_copies.is_none()
            && updated_fields.available.is_none() {
            return Ok(EditOutcome::NothingToDo);
        }
        if updated_fields.available.is_some() {
            return Err(StoreError::NoSuchColumn);
        }
        let i = match self.find_book(book_id) {
            Some(i) => i,
            None => {
                return Ok(EditOutcome::NotFound);
            },
        };
        if let Some(isbn) = &updated_fields.isbn {
            if self.isbn_in_use(isbn.as_str(), Some(i)) {
                return Ok(EditOutcome::DuplicateIsbn);
            }
        }
        if let Some(copies) = updated_fields.number_of_copies {
            if copies < 0 {
                return Ok(EditOutcome::NegativeCopies);
            }
            if copies > i32::MAX as i64 {
                return Err(StoreError::OutOfRange);
            }
            self.books[i].number_of_copies = copies as i32;
        }
        if let Some(title) = &updated_fields.title {
            self.books[i].title = title.clone();
        }
        if let Some(author) = &updated_fields.author {
            self.books[i].author = author.clone();
        }
        if let Some(isbn) = &updated_fields.isbn {
            self.books[i].isbn = isbn.clone();
        }
        if let Some(year) = &updated_fields.publication_year {
            self.books[i].publication_year = year.clone();
        }
        if let Some(genre) = &updated_fields.genre {
            self.books[i].genre = genre.clone();
        }
        assert(self@.books =~= old(self)@.edit_book(book_id, updated_fields@).0.books);
        Ok(EditOutcome::Done)
    }

    /// The names of the users with the role of a plain user, in the order of
    /// their ids.
    pub fn fetch_users(&self) -> (r: Vec<String>)
        ensures
            string_views(r@) == plain_usernames(self@.users),
    {
        let mut out: Vec<String> = Vec::new();
        let mut i: usize = 0;
        proof {
            reveal(Seq::filter);
            assert(string_views(out@) =~= plain_usernames(self@.users.take(0)));
        }
        while i < self.users.len()
            invariant
                i <= self.users@.len(),
                string_views(out@) == plain_usernames(self@.users.take(i as int)),
            decreases self.users@.len() - i,
        {
            let user = &self.users[i];
            proof {
                assert(self@.users[i as int] == user@);
                lemma_plain_usernames_step(self@.users, i as int);
            }
            if text_eq(user.role.as_str(), "user") {
                out.push(user.username.clone());
                assert(string_views(out@) =~= plain_usernames(self@.users.take(i + 1)));
            }
            i += 1;
        }
        assert(self@.users.take(i as int) =~= self@.users);
        out
    }

    /// Joins the borrow record at `k` with its user and its book.
    fn join(&self, k: usize) -> (r: BorrowedBook)
        requires
            self.wf(),
            k < self@.records.len(),
        ensures
            r@ == self@.joined(self@.records[k as int]),
    {
        let record = self.records[k];
        assert(self@.records[k as int] == record);
        let user = match self.find_user(record.user_id) {
            Some(u) => u,
            None => {
                assert(false);
                0
            },
        };
        let book = match self.find_book(record.book_id) {
            Some(b) => b,
            None => {
                assert(false);
                0
            },
        };
        BorrowedBook {
            borrowed_id: record.id,
            user_id: record.user_id,
            username: self.users[user].username.clone(),
            due_date: format_date_time(record.due_date),
            book: copy_book(&self.books[book]),
        }
    }

    /// The borrow records, each joined with its user and its book, in the
    /// order of their ids; with `user` set, only those of that user.
    fn joined_records(&self, user: Option<i64>) -> (r: Vec<BorrowedBook>)
        requires
            self.wf(),
        ensures
            borrowed_views(r@) == self@.borrowed_by(self@.records, user),
    {
        let mut out: Vec<BorrowedBook> = Vec::new();
        let mut i: usize = 0;
        proof {
            reveal(Seq::filter);
            assert(borrowed_views(out@) =~= self@.borrowed_by(self@.records.take(0), user));
        }
        while i < self.records.len()
            invariant
                self.wf(),
                i <= self@.records.len(),
                borrowed_views(out@) == self@.borrowed_by(self@.records.take(i as int), user),
            decreases self@.records.len() - i,
        {
            proof {
                self@.lemma_borrowed_by_step(self@.records, user, i as int);
            }
            let wanted = match user {
                Some(u) => self.records[i].user_id == u,
                None => true,
            };
            if wanted {
                out.push(self.join(i));
                assert(borrowed_views(out@) =~= self@.borrowed_by(
                    self@.records.take(i + 1),
                    user,
                ));
            }
            i += 1;
        }
        assert(self@.records.take(i as int) =~= self@.records);
        out
    }

    /// What the user with the id `user_id` has borrowed.
    pub fn fetch_borrowed_books(&self, user_id: i64) -> (r: Vec<BorrowedBook>)
        requires
            self.wf(),
        ensures
            borrowed_views(r@) == self@.borrowed_by(self@.records, Some(user_id)),
    {
        self.joined_records(Some(user_id))
    }

    /// What all users have borrowed.
    pub fn fetch_all_borrowed_books(&self) -> (r: Vec<BorrowedBook>)
        requires
            self.wf(),
        ensures
            borrowed_views(r@) == self@.borrowed_by(self@.records, None),
    {
        self.joined_records(None)
    }

    /// The users, in the order of their ids.
    pub fn users(&self) -> (r: Vec<User>)
        ensures
            user_views(r@) == self@.users,
    {
        let mut out: Vec<User> = Vec::new();
        let mut i: usize = 0;
        while i < self.users.len()
            invariant
                i <= self.users@.len(),
                out@.len() == i,
                forall|k: int| 0 <= k < i ==> (#[trigger] out@[k])@ == self.users@[k]@,
            decreases self.users@.len() - i,
        {
            out.push(copy_user(&self.users[i]));
            i += 1;
        }
        assert(user_views(out@) =~= self@.users);
        out
    }

    /// The borrow records, in the order of their ids.
    pub fn records(&self) -> (r: Vec<BorrowRecord>)
        ensures
            r@ == self@.records,
    {
        let mut out: Vec<BorrowRecord> = Vec::new();
        let mut i: usize = 0;
        while i < self.records.len()
            invariant
                i <= self.records@.len(),
                out@ == self@.records.take(i as int),
            decreases self.records@.len() - i,
        {
            out.push(self.records[i]);
            assert(out@ =~= self@.records.take(i + 1));
            i += 1;
        }
        assert(self@.records.take(i as int) =~= self@.records);
        out
    }

    /// The ids that the next user, the next book and the next borrow record
    /// will get.
    pub fn next_ids(&self) -> (r: (i64, i32, i64))
        ensures
            r == (self@.next_user_id, self@.next_book_id, self@.next_record_id),
    {
        (self.next_user_id, self.next_book_id, self.next_record_id)
    }

    /// Puts back a user that was stored, under the id that it had. Says
    /// whether the user was taken.
    pub fn restore_user(&mut self, user: User) -> (r: bool)
        requires
            old(self).wf(),
        ensures
            final(self).wf(),
            (final(self)@, r) == old(self)@.restore_user(user@),
    {
        proof {
            self@.lemma_restore_user_wf(user@);
        }
        if user.id < self.next_user_id || user.id >= i32::MAX as i64 {
            return false;
        }
        if self.find_username(user.username.as_str()).is_some() {
            return false;
        }
        self.next_user_id = user.id + 1;
        self.users.push(user);
        assert(self@.users =~= old(self)@.restore_user(user@).0.users);
        true
    }

    /// Puts back a book that was stored, under the id that it had. Says
    /// whether the book was taken.
    pub fn restore_book(&mut self, book: Book) -> (r: bool)
        requires
            old(self).wf(),
        ensures
            final(self).wf(),
            (final(self)@, r) == old(self)@.restore_book(book@),
    {
        proof {
            self@.lemma_restore_book_wf(book@);
        }
        if book.id < self.next_book_id || book.id >= i32::MAX || book.number_of_copies < 0 {
            return false;
        }
        if self.isbn_in_use(book.isbn.as_str(), None) {
            return false;
        }
        self.next_book_id = book.id + 1;
        self.books.push(book);
        assert(self@.books =~= old(self)@.restore_book(book@).0.books);
        true
    }

    /// Puts back a borrow record that was stored, under the id that it had.
    /// Says whether the record was taken.
    pub fn restore_record(&mut self, record: BorrowRecord) -> (r: bool)
        requires
            old(self).wf(),
        ensures
            final(self).wf(),
            (final(self)@, r) == old(self)@.restore_record(record),
    {
        proof {
            self@.lemma_restore_record_wf(record);
        }
        if record.id < self.next_record_id || record.id == i64::MAX {
            return false;
        }
        if record.created_at > u64::MAX - LOAN_SECONDS || record.due_date != record.created_at
            + LOAN_SECONDS {
            return false;
        }
        if self.find_user(record.user_id).is_none() || self.find_book(record.book_id).is_none() {
            return false;
        }
        self.next_record_id = record.id + 1;
        self.records.push(record);
        true
    }

    /// Raises the ids that the next rows get to at least `user`, `book` and
    /// `record`.
    pub fn skip_ids(&mut self, user: i64, book: i32, record: i64)
        requires
            old(self).wf(),
        ensures
            final(self).wf(),
            final(self)@ == old(self)@.skip_ids(user, book, record),
    {
        proof {
            self@.lemma_skip_ids_wf(user, book, record);
        }
        if self.next_user_id < user && user <= i32::MAX as i64 {
            self.next_user_id = user;
        }
        if self.next_book_id < book {
            self.next_book_id = book;
        }
        if self.next_record_id < record {
            self.next_record_id = record;
        }
    }
}

/// The fields of a book that an edit names, each with its new value.
#[derive(Debug)]
pub struct BookUpdate {
    pub title: Option<String>,
    pub author: Option<String>,
    pub isbn: Option<String>,
    pub publication_year: Option<String>,
    pub genre: Option<String>,
    pub number_of_copies: Option<i64>,
    pub available: Option<bool>,
}

impl View for BookUpdate {
    type V = BookUpdateView;

    open spec fn view(&self) -> BookUpdateView {
        BookUpdateView {
            title: option_view(self.title),
            author: option_view(self.author),
            isbn: option_view(self.isbn),
            publication_year: option_view(self.publication_year),
            genre: option_view(self.genre),
            number_of_copies: self.number_of_copies,
            available: self.available,
        }
    }
}

/// The names of those of `users` that have the role of a plain user.
pub open spec fn plain_usernames(users: Seq<UserView>) -> Seq<Seq<char>> {
    users.filter(|u: UserView| u.role == user_role()).map_values(|u: UserView| u.username)
}

/// The plain users among the first `i + 1` users are those among the first
/// `i`, and the user at `i` if it is one.
proof fn lemma_plain_usernames_step(users: Seq<UserView>, i: int)
    requires
        0 <= i < users.len(),
    ensures
        plain_usernames(users.take(i + 1)) == if users[i].role == user_role() {
            plain_usernames(users.take(i)).push(users[i].username)
        } else {
            plain_usernames(users.take(i))
        },
{
    reveal(Seq::filter);
    assert(users.take(i + 1).drop_last() =~= users.take(i));
    assert(users.take(i + 1).last() == users[i]);
    if users[i].role == user_role() {
        assert(plain_usernames(users.take(i + 1)) =~= plain_usernames(users.take(i)).push(
            users[i].username,
        ));
    }
}

impl Ledger {
    /// The borrow record `record`, joined with its user and its book.
    pub open spec fn joined(self, record: BorrowRecord) -> BorrowedBookView {
        BorrowedBookView {
            borrowed_id: record.id,
            user_id: record.user_id,
            username: self.users[self.user_index(record.user_id as int)].username,
            due_date: date_time_text(record.due_date as int),
            book: self.books[self.book_index(record.book_id as int)],
        }
    }

    /// Those of `records` that belong to `user`, or all of them where `user`
    /// is `None`, each joined with its user and its book.
    pub open spec fn borrowed_by(self, records: Seq<BorrowRecord>, user: Option<i64>) -> Seq<
        BorrowedBookView,
    > {
        records.filter(|r: BorrowRecord| user is None || user == Some(r.user_id)).map_values(
            |r: BorrowRecord| self.joined(r),
        )
    }

    /// What belongs to `user` among the first `i + 1` records is what
    /// belongs to `user` among the first `i`, and the record at `i` if it
    /// does.
    proof fn lemma_borrowed_by_step(self, records: Seq<BorrowRecord>, user: Option<i64>, i: int)
        requires
            0 <= i < records.len(),
        ensures
            self.borrowed_by(records.take(i + 1), user) == if user is None || user == Some(
                records[i].user_id,
            ) {
                self.borrowed_by(records.take(i), user).push(self.joined(records[i]))
            } else {
                self.borrowed_by(records.take(i), user)
            },
    {
        reveal(Seq::filter);
        assert(records.take(i + 1).drop_last() =~= records.take(i));
        assert(records.take(i + 1).last() == records[i]);
        if user is None || user == Some(records[i].user_id) {
            assert(self.borrowed_by(records.take(i + 1), user) =~= self.borrowed_by(
                records.take(i),
                user,
            ).push(self.joined(records[i])));
        }
    }
}

/// The view of a string that may be missing.
pub open spec fn option_view(s: Option<String>) -> Option<Seq<char>> {
    match s {
        Some(x) => Some(x@),
        None => None,
    }
}

/// Whether `hashed` is a hash that `password` matches, or no hash at all.
pub open spec fn is_hash_of(hashed: Option<Seq<char>>, password: Seq<char>) -> bool {
    hashed matches Some(hash) ==> password_check(password, hash) == Some(true)
}

/// The view of a string slice that may be missing.
pub open spec fn option_str_view(s: Option<&str>) -> Option<Seq<char>> {
    match s {
        Some(x) => Some(x@),
        None => None,
    }
}

/// The mathematical content of what a login gives.
pub open spec fn session_view(r: Result<Option<(i32, String, String, String)>, StoreError>)
    -> Result<Option<(i32, Seq<char>, Seq<char>, Seq<char>)>, StoreError> {
    match r {
        Ok(Some((id, username, role, token))) => Ok(Some((id, username@, role@, token@))),
        Ok(None) => Ok(None),
        Err(e) => Err(e),
    }
}

/// A book that has no id yet.
pub open spec fn new_book(
    title: Seq<char>,
    author: Seq<char>,
    isbn: Seq<char>,
    publication_year: Seq<char>,
    genre: Seq<char>,
    number_of_copies: i32,
) -> BookView {
    BookView { id: 0, title, author, isbn, publication_year, genre, number_of_copies }
}

} // verus!
