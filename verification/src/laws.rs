//! What holds of the ledger whatever is asked of it, in whatever order.
//!
//! The ledger's operations exclude one another, so whatever the workers ask
//! of it at once reaches it as some sequence of operations. The laws here are
//! stated of every such sequence.

use crate::credentials::{password_check, signed_token};
use crate::datetime::{LAST_SECOND, LOAN_SECONDS, TOKEN_SECONDS};
use crate::db::{user_role, BookView, EditOutcome, Ledger, StoreError};
use crate::encode::book_json;
use crate::handlers::{
    borrow_book_reply, fetch_book_reply, integer_of, BOOK_BORROWED, BORROW_REFUSED,
};
use crate::json::json_document;
use crate::response::{CONFLICT, CREATED, OK};
use crate::rules::BookUpdateView;
use vstd::prelude::*;

verus! {

/// One attempt to borrow: who asks, and when.
pub struct Attempt {
    pub user_id: i64,
    pub now: u64,
}

/// One operation that changes the ledger.
pub enum Op {
    AddUser { username: Seq<char>, hashed: Option<Seq<char>> },
    AddBook { book: BookView },
    EditBook { book_id: i64, update: BookUpdateView },
    DeleteBook { book_id: i64 },
    Borrow { user_id: i64, book_id: i64, now: u64 },
    Return { record_id: i64, book_id: i64 },
}

impl Op {
    /// Whether the operation is asked of the book with the id `book_id`.
    pub open spec fn names(self, book_id: i64) -> bool {
        match self {
            Op::AddUser { .. } => false,
            Op::AddBook { .. } => false,
            Op::EditBook { book_id: b, .. } => b == book_id,
            Op::DeleteBook { book_id: b } => b == book_id,
            Op::Borrow { book_id: b, .. } => b == book_id,
            Op::Return { book_id: b, .. } => b == book_id,
        }
    }
}

impl Ledger {
    /// The ledger that `op` leaves.
    pub open spec fn apply(self, op: Op) -> Ledger {
        match op {
            Op::AddUser { username, hashed } => self.add_user(username, hashed).0,
            Op::AddBook { book } => self.add_book(book).0,
            Op::EditBook { book_id, update } => self.edit_book(book_id, update).0,
            Op::DeleteBook { book_id } => self.delete_book(book_id).0,
            Op::Borrow { user_id, book_id, now } => self.borrow_book(user_id, book_id, now).0,
            Op::Return { record_id, book_id } => self.return_book(record_id, book_id).0,
        }
    }

    /// The ledger that `ops` leave, carried out one after the other.
    pub open spec fn apply_all(self, ops: Seq<Op>) -> Ledger
        decreases ops.len(),
    {
        if ops.len() == 0 {
            self
        } else {
            self.apply(ops[0]).apply_all(ops.skip(1))
        }
    }

    /// The ledger that the attempts to borrow the book with the id `book_id`
    /// leave, carried out one after the other.
    pub open spec fn after_attempts(self, attempts: Seq<Attempt>, book_id: i64) -> Ledger
        decreases attempts.len(),
    {
        if attempts.len() == 0 {
            self
        } else {
            self.borrow_book(attempts[0].user_id, book_id, attempts[0].now).0.after_attempts(
                attempts.skip(1),
                book_id,
            )
        }
    }

    /// What the attempts to borrow the book with the id `book_id` are
    /// answered, carried out one after the other.
    pub open spec fn answers(self, attempts: Seq<Attempt>, book_id: i64) -> Seq<
        Result<bool, StoreError>,
    >
        decreases attempts.len(),
    {
        if attempts.len() == 0 {
            Seq::empty()
        } else {
            let first = self.borrow_book(attempts[0].user_id, book_id, attempts[0].now);
            seq![first.1] + first.0.answers(attempts.skip(1), book_id)
        }
    }

    /// Every operation keeps the invariant.
    pub proof fn lemma_apply_wf(self, op: Op)
        requires
            self.wf(),
        ensures
            self.apply(op).wf(),
    {
        match op {
            Op::AddUser { username, hashed } => self.lemma_add_user_wf(username, hashed),
            Op::AddBook { book } => self.lemma_add_book_wf(book),
            Op::EditBook { book_id, update } => self.lemma_edit_book_wf(book_id, update),
            Op::DeleteBook { book_id } => self.lemma_delete_book_wf(book_id),
            Op::Borrow { user_id, book_id, now } => self.lemma_borrow_book_wf(
                user_id,
                book_id,
                now,
            ),
            Op::Return { record_id, book_id } => self.lemma_return_book_wf(record_id, book_id),
        }
    }

    /// A change of the copies of the book at `i`, and of the borrow records,
    /// leaves every other book as it was.
    pub proof fn lemma_other_books_stay(self, after: Ledger, i: int, other: int)
        requires
            self.wf(),
            after.wf(),
            0 <= i < self.books.len(),
            after.books.len() == self.books.len(),
            forall|k: int|
                0 <= k < self.books.len() && k != i ==> (#[trigger] after.books[k])
                    == self.books[k],
            after.books[i].id == self.books[i].id,
            other != self.books[i].id,
        ensures
            after.has_book(other) == self.has_book(other),
            after.copies_of(other) == self.copies_of(other),
    {
        if self.has_book(other) {
            let j = self.book_index(other);
            assert(self.books[j].id == other);
            assert(after.books[j] == self.books[j]);
            self.lemma_book_index(j);
            after.lemma_book_index(j);
        } else if after.has_book(other) {
            let j = after.book_index(other);
            assert(after.books[j].id == other);
            assert(self.books[j].id == other);
        }
    }

    /// A borrow that is granted takes one copy off the shelf, makes one
    /// borrow record for the book, under the id that was next, and leaves
    /// the users as they were.
    pub proof fn lemma_borrow_granted(self, user_id: i64, book_id: i64, now: u64)
        requires
            self.wf(),
            self.borrow_book(user_id, book_id, now).1 == Ok::<bool, StoreError>(true),
        ensures
            ({
                let after = self.borrow_book(user_id, book_id, now).0;
                &&& after.wf()
                &&& after.has_book(book_id as int)
                &&& after.copies_of(book_id as int) == self.copies_of(book_id as int) - 1
                &&& after.records.len() == self.records.len() + 1
                &&& after.lends(self.next_record_id as int, book_id as int)
                &&& after.next_record_id == self.next_record_id + 1
                &&& after.users == self.users
            }),
    {
        let after = self.borrow_book(user_id, book_id, now).0;
        self.lemma_borrow_book_wf(user_id, book_id, now);
        let i = self.book_index(book_id as int);
        assert(self.books[i].id == book_id);
        self.lemma_book_index(i);
        assert(after.books[i].id == book_id);
        after.lemma_book_index(i);
        let n = self.records.len() as int;
        assert(after.records[n].id == self.next_record_id);
        after.lemma_record_index(n);
    }

    /// A return that is granted deletes one borrow record, the one that it
    /// names, and puts one copy of the record's book back on the shelf.
    pub proof fn lemma_return_granted(self, record_id: i64, book_id: i64)
        requires
            self.wf(),
            self.return_book(record_id, book_id).1 == Ok::<bool, StoreError>(true),
        ensures
            ({
                let after = self.return_book(record_id, book_id).0;
                &&& after.wf()
                &&& self.lends(record_id as int, book_id as int)
                &&& !after.has_record(record_id as int)
                &&& after.records == self.records.remove(self.record_index(record_id as int))
                &&& self.has_book(book_id as int)
                &&& after.has_book(book_id as int)
                &&& after.copies_of(book_id as int) == self.copies_of(book_id as int) + 1
                &&& after.users == self.users
            }),
    {
        let after = self.return_book(record_id, book_id).0;
        self.lemma_return_book_wf(record_id, book_id);
        let d = self.record_index(record_id as int);
        assert(self.records[d].id == record_id);
        assert(self.has_book(self.records[d].book_id as int));
        if after.has_record(record_id as int) {
            let k = after.record_index(record_id as int);
            assert(after.records[k].id == record_id);
            let at = if k < d {
                k
            } else {
                k + 1
            };
            assert(self.records[at].id == record_id);
            self.lemma_record_index(at);
            self.lemma_record_index(d);
        }
        let i = self.book_index(book_id as int);
        assert(self.books[i].id == book_id);
        self.lemma_book_index(i);
        assert(after.books[i].id == book_id);
        after.lemma_book_index(i);
    }

    /// An operation that is not asked of a book leaves the book with as many
    /// copies as it had, and leaves a borrow record that stands for a copy
    /// of the book where it was.
    pub proof fn lemma_apply_leaves(self, op: Op, book_id: i64, record_id: i64)
        requires
            self.wf(),
            self.lends(record_id as int, book_id as int),
            !op.names(book_id),
        ensures
            self.apply(op).wf(),
            self.apply(op).lends(record_id as int, book_id as int),
            self.apply(op).has_book(book_id as int),
            self.apply(op).copies_of(book_id as int) == self.copies_of(book_id as int),
    {
        let after = self.apply(op);
        self.lemma_apply_wf(op);
        let k = self.record_index(record_id as int);
        assert(self.records[k].id == record_id);
        assert(self.has_book(self.records[k].book_id as int));
        let i = self.book_index(book_id as int);
        assert(self.books[i].id == book_id);
        self.lemma_book_index(i);
        self.lemma_record_index(k);
        if after != self {
            match op {
                Op::AddUser { .. } => {
                    assert(after.books[i].id == book_id);
                    assert(after.records[k].id == record_id);
                    after.lemma_book_index(i);
                    after.lemma_record_index(k);
                },
                Op::AddBook { .. } => {
                    assert(after.books[i] == self.books[i]);
                    assert(after.records[k].id == record_id);
                    after.lemma_book_index(i);
                    after.lemma_record_index(k);
                },
                Op::EditBook { book_id: b, update } => {
                    let j = self.book_index(b as int);
                    assert(self.books[j].id == b);
                    assert(after.books[i] == self.books[i]);
                    assert(after.records[k].id == record_id);
                    after.lemma_book_index(i);
                    after.lemma_record_index(k);
                },
                Op::DeleteBook { book_id: b } => {
                    let j = self.book_index(b as int);
                    assert(self.books[j].id == b);
                    let at = if i < j {
                        i
                    } else {
                        i - 1
                    };
                    assert(after.books[at] == self.books[i]);
                    assert(after.records[k].id == record_id);
                    after.lemma_book_index(at);
                    after.lemma_record_index(k);
                },
                Op::Borrow { book_id: b, .. } => {
                    let j = self.book_index(b as int);
                    assert(self.books[j].id == b);
                    assert(after.books[i] == self.books[i]);
                    assert(after.records[k].id == record_id);
                    after.lemma_book_index(i);
                    after.lemma_record_index(k);
                },
                Op::Return { record_id: r, book_id: b } => {
                    let d = self.record_index(r as int);
                    assert(self.records[d].id == r);
                    assert(self.records[d].book_id == b);
                    assert(self.has_book(self.records[d].book_id as int));
                    let j = self.book_index(b as int);
                    assert(self.books[j].id == b);
                    let at = if k < d {
                        k
                    } else {
                        k - 1
                    };
                    assert(after.records[at] == self.records[k]);
                    assert(after.books[i] == self.books[i]);
                    after.lemma_book_index(i);
                    after.lemma_record_index(at);
                },
            }
        }
    }

    /// Operations that are not asked of a book leave the book with as many
    /// copies as it had, and leave a borrow record that stands for a copy of
    /// the book where it was.
    pub proof fn lemma_apply_all_leaves(self, ops: Seq<Op>, book_id: i64, record_id: i64)
        requires
            self.wf(),
            self.lends(record_id as int, book_id as int),
            forall|k: int| 0 <= k < ops.len() ==> !(#[trigger] ops[k]).names(book_id),
        ensures
            self.apply_all(ops).wf(),
            self.apply_all(ops).lends(record_id as int, book_id as int),
            self.apply_all(ops).has_book(book_id as int),
            self.apply_all(ops).copies_of(book_id as int) == self.copies_of(book_id as int),
        decreases ops.len(),
    {
        if ops.len() > 0 {
            self.lemma_apply_leaves(ops[0], book_id, record_id);
            let rest = ops.skip(1);
            assert(forall|k: int| 0 <= k < rest.len() ==> rest[k] == ops[k + 1]);
            self.apply(ops[0]).lemma_apply_all_leaves(rest, book_id, record_id);
        } else {
            let k = self.record_index(record_id as int);
            assert(self.has_book(self.records[k].book_id as int));
        }
    }
}

/// Each borrow pairs one borrow record with one copy: a borrow that is
/// granted adds one record and takes one copy of the book off the shelf,
/// every other book keeps its copies, and a borrow that is not granted
/// changes nothing at all.
pub proof fn law_borrow_pairs_record_and_copy(
    ledger: Ledger,
    user_id: i64,
    book_id: i64,
    now: u64,
    other: int,
)
    requires
        ledger.wf(),
    ensures
        ({
            let done = ledger.borrow_book(user_id, book_id, now);
            if done.1 == Ok::<bool, StoreError>(true) {
                &&& done.0.wf()
                &&& done.0.records.len() == ledger.records.len() + 1
                &&& done.0.lends(ledger.next_record_id as int, book_id as int)
                &&& done.0.copies_of(book_id as int) == ledger.copies_of(book_id as int) - 1
                &&& done.0.copies_of(book_id as int) >= 0
                &&& other != book_id ==> done.0.copies_of(other) == ledger.copies_of(other)
            } else {
                done.0 == ledger
            }
        }),
{
    let done = ledger.borrow_book(user_id, book_id, now);
    if done.1 == Ok::<bool, StoreError>(true) {
        ledger.lemma_borrow_granted(user_id, book_id, now);
        let i = ledger.book_index(book_id as int);
        assert(ledger.books[i].id == book_id);
        if other != book_id {
            ledger.lemma_other_books_stay(done.0, i, other);
        }
    }
}

/// Each return pairs one borrow record with one copy: a return is granted
/// exactly if its record exists and stands for a copy of the book that it
/// names; then that one record is deleted, that one book has one copy more,
/// and every other book keeps its copies. A return that is not granted
/// changes nothing at all.
pub proof fn law_return_pairs_record_and_copy(
    ledger: Ledger,
    record_id: i64,
    book_id: i64,
    other: int,
)
    requires
        ledger.wf(),
    ensures
        ({
            let done = ledger.return_book(record_id, book_id);
            if done.1 == Ok::<bool, StoreError>(true) {
                &&& done.0.wf()
                &&& ledger.lends(record_id as int, book_id as int)
                &&& done.0.records == ledger.records.remove(
                    ledger.record_index(record_id as int),
                )
                &&& !done.0.has_record(record_id as int)
                &&& done.0.copies_of(book_id as int) == ledger.copies_of(book_id as int) + 1
                &&& other != book_id ==> done.0.copies_of(other) == ledger.copies_of(other)
            } else {
                done.0 == ledger
            }
        }),
        ledger.return_book(record_id, book_id).1 != Ok::<bool, StoreError>(false) <==> ledger.lends(
            record_id as int,
            book_id as int,
        ),
{
    let done = ledger.return_book(record_id, book_id);
    if done.1 == Ok::<bool, StoreError>(true) {
        ledger.lemma_return_granted(record_id, book_id);
        let i = ledger.book_index(book_id as int);
        assert(ledger.books[i].id == book_id);
        if other != book_id {
            ledger.lemma_other_books_stay(done.0, i, other);
        }
    }
}

/// Of more attempts to borrow a book than it has copies, exactly as many are
/// granted as there are copies, the first ones; the others are turned down
/// as the book is unavailable; and no copy is left on the shelf.
///
/// The attempts are those of users who exist, at times that the ledger
/// takes, and the table of borrow records has ids left for the copies.
pub proof fn law_copies_bound_borrows(ledger: Ledger, book_id: i64, attempts: Seq<Attempt>)
    requires
        ledger.wf(),
        ledger.has_book(book_id as int),
        attempts.len() >= ledger.copies_of(book_id as int),
        ledger.next_record_id + ledger.copies_of(book_id as int) <= i64::MAX,
        forall|k: int|
            0 <= k < attempts.len() ==> ledger.has_user((#[trigger] attempts[k]).user_id as int)
                && attempts[k].now <= LAST_SECOND - LOAN_SECONDS,
    ensures
        ledger.answers(attempts, book_id).len() == attempts.len(),
        forall|k: int|
            0 <= k < attempts.len() ==> #[trigger] ledger.answers(attempts, book_id)[k] == Ok::<
                bool,
                StoreError,
            >(k < ledger.copies_of(book_id as int)),
        ledger.after_attempts(attempts, book_id).wf(),
        ledger.after_attempts(attempts, book_id).copies_of(book_id as int) == 0,
        ledger.after_attempts(attempts, book_id).records.len() == ledger.records.len()
            + ledger.copies_of(book_id as int),
    decreases attempts.len(),
{
    let copies = ledger.copies_of(book_id as int);
    let i = ledger.book_index(book_id as int);
    assert(ledger.books[i].id == book_id);
    assert(copies >= 0);
    if attempts.len() > 0 {
        let first = attempts[0];
        let rest = attempts.skip(1);
        let next = ledger.borrow_book(first.user_id, book_id, first.now).0;
        assert(ledger.has_user(first.user_id as int));
        assert(forall|k: int| 0 <= k < rest.len() ==> rest[k] == attempts[k + 1]);
        if copies >= 1 {
            ledger.lemma_borrow_granted(first.user_id, book_id, first.now);
        }
        assert(next.users == ledger.users);
        assert forall|k: int| 0 <= k < rest.len() implies next.has_user(
            (#[trigger] rest[k]).user_id as int,
        ) by {
            ledger.lemma_same_users(next, rest[k].user_id as int);
        }
        law_copies_bound_borrows(next, book_id, rest);
        let answers = ledger.answers(attempts, book_id);
        assert forall|k: int| 0 <= k < attempts.len() implies #[trigger] answers[k] == Ok::<
            bool,
            StoreError,
        >(k < copies) by {
            if k > 0 {
                assert(answers[k] == next.answers(rest, book_id)[k - 1]);
            }
        }
    }
}

/// A borrow followed by the return of its record and book leaves the book
/// with as many copies as it had, whatever was asked of other books in
/// between.
pub proof fn law_return_restores_copies(
    ledger: Ledger,
    user_id: i64,
    book_id: i64,
    now: u64,
    between: Seq<Op>,
)
    requires
        ledger.wf(),
        ledger.borrow_book(user_id, book_id, now).1 == Ok::<bool, StoreError>(true),
        forall|k: int| 0 <= k < between.len() ==> !(#[trigger] between[k]).names(book_id),
    ensures
        ({
            let lent = ledger.borrow_book(user_id, book_id, now).0;
            let back = lent.apply_all(between).return_book(ledger.next_record_id, book_id);
            &&& lent.copies_of(book_id as int) == ledger.copies_of(book_id as int) - 1
            &&& back.1 == Ok::<bool, StoreError>(true)
            &&& back.0.wf()
            &&& back.0.copies_of(book_id as int) == ledger.copies_of(book_id as int)
            &&& !back.0.has_record(ledger.next_record_id as int)
        }),
{
    let record_id = ledger.next_record_id;
    let lent = ledger.borrow_book(user_id, book_id, now).0;
    ledger.lemma_borrow_granted(user_id, book_id, now);
    lent.lemma_apply_all_leaves(between, book_id, record_id);
    let later = lent.apply_all(between);
    let i = later.book_index(book_id as int);
    assert(later.books[i].id == book_id);
    later.lemma_book_index(i);
    later.lemma_return_granted(record_id, book_id);
}

/// Who has signed up can log in. A password that matches the hash that was
/// stored at the sign-up is never turned down as wrong; and at a time that
/// the ledger takes, with a secret that signs a token, the login gives the
/// user's id, name and role and that token.
pub proof fn law_who_signed_up_can_log_in(
    ledger: Ledger,
    username: Seq<char>,
    password: Seq<char>,
    hashed: Seq<char>,
    now: u64,
    secret: Option<Seq<char>>,
)
    requires
        ledger.wf(),
        ledger.add_user(username, Some(hashed)).1 == Ok::<bool, StoreError>(true),
        password_check(password, hashed) == Some(true),
    ensures
        ({
            let after = ledger.add_user(username, Some(hashed)).0;
            let session = after.login(username, password, now, secret);
            &&& after.wf()
            &&& session != Ok::<Option<(i32, Seq<char>, Seq<char>, Seq<char>)>, StoreError>(None)
            &&& now <= LAST_SECOND && secret is Some && signed_token(
                username,
                user_role(),
                (now + TOKEN_SECONDS) as u64,
                secret->0,
            ) is Some ==> session == Ok::<
                Option<(i32, Seq<char>, Seq<char>, Seq<char>)>,
                StoreError,
            >(
                Some(
                    (
                        ledger.next_user_id as i32,
                        username,
                        user_role(),
                        signed_token(
                            username,
                            user_role(),
                            (now + TOKEN_SECONDS) as u64,
                            secret->0,
                        )->0,
                    ),
                ),
            )
        }),
{
    let after = ledger.add_user(username, Some(hashed)).0;
    ledger.lemma_add_user_wf(username, Some(hashed));
    let n = ledger.users.len() as int;
    assert(after.users[n].username == username);
    after.lemma_username_index(n);
}

/// An edit is done or changes nothing. It is done exactly if it names a
/// field, and none that the catalogue does not have, of a book that exists,
/// with no ISBN that another book has and with a number of copies, if any,
/// that is not negative and that the ledger can hold. Then the book has its
/// new values, keeps its id, and every other book is as it was. An edit of
/// a book that does not exist finds no book, and an ISBN that another book
/// has is turned down as a duplicate: neither is a failure of the store.
pub proof fn law_edit_is_done_or_changes_nothing(
    ledger: Ledger,
    book_id: i64,
    update: BookUpdateView,
)
    requires
        ledger.wf(),
    ensures
        ({
            let done = ledger.edit_book(book_id, update);
            let i = ledger.book_index(book_id as int);
            &&& done.0.wf()
            &&& done.1 != Ok::<EditOutcome, StoreError>(EditOutcome::Done) ==> done.0 == ledger
            &&& done.1 == Ok::<EditOutcome, StoreError>(EditOutcome::Done) ==> {
                &&& ledger.has_book(book_id as int)
                &&& done.0.books == ledger.books.update(i, update.apply(ledger.books[i]))
                &&& done.0.books[i].id == book_id
                &&& done.0.users == ledger.users
                &&& done.0.records == ledger.records
            }
            &&& !update.is_empty() && update.available is None && !ledger.has_book(
                book_id as int,
            ) ==> done.1 == Ok::<EditOutcome, StoreError>(EditOutcome::NotFound)
            &&& !update.is_empty() && update.available is None && ledger.has_book(book_id as int)
                && update.isbn is Some && ledger.isbn_taken(update.isbn->0, i) ==> done.1 == Ok::<
                EditOutcome,
                StoreError,
            >(EditOutcome::DuplicateIsbn)
        }),
{
    ledger.lemma_edit_book_wf(book_id, update);
    if ledger.has_book(book_id as int) {
        let i = ledger.book_index(book_id as int);
        assert(ledger.books[i].id == book_id);
    }
}

/// Two requests for the last copy of a book, one after the other in
/// whatever order the lock lets them in: the first is answered with 201 and
/// the book is lent, the second with 409, and whoever then asks for the book
/// gets it with no copy left.
///
/// The requests are those of users who exist; the first comes at a time that
/// the ledger takes and finds an id left for its borrow record.
pub proof fn law_last_copy_is_lent_once(
    ledger: Ledger,
    first: Seq<char>,
    second: Seq<char>,
    now: u64,
    later: u64,
)
    requires
        ledger.wf(),
        json_document(first) is Some,
        json_document(second) is Some,
        integer_of(json_document(first)->0, "user_id"@) is Some,
        integer_of(json_document(second)->0, "user_id"@) is Some,
        integer_of(json_document(first)->0, "book_id"@) is Some,
        integer_of(json_document(second)->0, "book_id"@) == integer_of(
            json_document(first)->0,
            "book_id"@,
        ),
        ledger.has_user(integer_of(json_document(first)->0, "user_id"@)->0 as int),
        ledger.has_user(integer_of(json_document(second)->0, "user_id"@)->0 as int),
        ledger.copies_of(integer_of(json_document(first)->0, "book_id"@)->0 as int) == 1,
        now <= LAST_SECOND - LOAN_SECONDS,
        ledger.next_record_id < i64::MAX,
    ensures
        ({
            let book_id = integer_of(json_document(first)->0, "book_id"@)->0;
            let one = borrow_book_reply(first, ledger, now);
            let two = borrow_book_reply(second, one.0, later);
            let seen = fetch_book_reply(book_id, two.0);
            let book = two.0.books[two.0.book_index(book_id as int)];
            &&& one.1 == (CREATED@, BOOK_BORROWED@)
            &&& two.1 == (CONFLICT@, BORROW_REFUSED@)
            &&& two.0 == one.0
            &&& two.0.wf()
            &&& two.0.records.len() == ledger.records.len() + 1
            &&& seen == (OK@, book_json(book))
            &&& book.id == book_id
            &&& book.number_of_copies == 0
        }),
{
    let user_one = integer_of(json_document(first)->0, "user_id"@)->0;
    let user_two = integer_of(json_document(second)->0, "user_id"@)->0;
    let book_id = integer_of(json_document(first)->0, "book_id"@)->0;
    let lent = ledger.borrow_book(user_one, book_id, now).0;
    ledger.lemma_borrow_granted(user_one, book_id, now);
    ledger.lemma_same_users(lent, user_two as int);
    let i = lent.book_index(book_id as int);
    assert(lent.books[i].id == book_id);
}

/// A book that a borrow record refers to cannot be deleted: the attempt is
/// turned down and changes nothing. A book that exists and that no borrow
/// record refers to is deleted: it is gone and nothing else has changed.
pub proof fn law_delete_respects_borrows(ledger: Ledger, book_id: i64)
    requires
        ledger.wf(),
        ledger.has_book(book_id as int),
    ensures
        ledger.is_borrowed(book_id as int) ==> ledger.delete_book(book_id) == (ledger, false),
        !ledger.is_borrowed(book_id as int) ==> {
            let after = ledger.delete_book(book_id);
            &&& after.1
            &&& after.0.wf()
            &&& !after.0.has_book(book_id as int)
            &&& after.0.books.len() == ledger.books.len() - 1
            &&& after.0.users == ledger.users
            &&& after.0.records == ledger.records
        },
{
    if !ledger.is_borrowed(book_id as int) {
        let after = ledger.delete_book(book_id).0;
        ledger.lemma_delete_book_wf(book_id);
        let d = ledger.book_index(book_id as int);
        assert(ledger.books[d].id == book_id);
        if after.has_book(book_id as int) {
            let k = after.book_index(book_id as int);
            assert(after.books[k].id == book_id);
            let at = if k < d {
                k
            } else {
                k + 1
            };
            assert(ledger.books[at].id == book_id);
            ledger.lemma_book_index(at);
            ledger.lemma_book_index(d);
        }
    }
}

} // verus!
