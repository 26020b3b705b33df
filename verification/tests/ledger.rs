use lending_library::datetime::{LAST_SECOND, LOAN_SECONDS};
use lending_library::db::{
    Book, BookUpdate, BorrowRecord, Database, EditOutcome, StoreError, User,
};

const NOW: u64 = 1_700_000_000;

fn no_update() -> BookUpdate {
    BookUpdate {
        title: None,
        author: None,
        isbn: None,
        publication_year: None,
        genre: None,
        number_of_copies: None,
        available: None,
    }
}

/// A ledger with the users 1 to `users` and one book, with the id 1, that has
/// `copies` copies.
fn ledger(users: i64, copies: i32) -> Database {
    let mut db = Database::new();
    let mut u = 1;
    while u <= users {
        assert_eq!(db.add_user(&format!("user{}", u), Some("hash".to_string())), Ok(true));
        u += 1;
    }
    assert_eq!(db.add_book("Dune", "Frank Herbert", "9780441013593", "1965", "SF", copies), Ok(true));
    db
}

fn copies(db: &Database, book_id: i64) -> i32 {
    db.fetch_book(book_id).expect("the book exists").number_of_copies
}

#[test]
fn a_new_ledger_is_empty() {
    let db = Database::new();
    assert!(db.fetch_books().is_empty());
    assert!(db.fetch_users().is_empty());
    assert!(db.users().is_empty());
    assert!(db.records().is_empty());
    assert!(db.fetch_all_borrowed_books().is_empty());
    assert_eq!(db.next_ids(), (1, 1, 1));
    assert!(db.fetch_book(1).is_none());
}

#[test]
fn users_get_ids_in_order_and_the_plain_role() {
    let mut db = Database::new();
    assert_eq!(db.add_user("ann", Some("h1".to_string())), Ok(true));
    assert_eq!(db.add_user("bob", Some("h2".to_string())), Ok(true));
    let users = db.users();
    assert_eq!(users.len(), 2);
    assert_eq!((users[0].id, users[0].username.as_str(), users[0].password.as_str(), users[0].role.as_str()), (1, "ann", "h1", "user"));
    assert_eq!((users[1].id, users[1].username.as_str(), users[1].password.as_str(), users[1].role.as_str()), (2, "bob", "h2", "user"));
    assert_eq!(db.fetch_users(), vec!["ann".to_string(), "bob".to_string()]);
    assert_eq!(db.next_ids(), (3, 1, 1));
}

#[test]
fn a_name_is_given_once() {
    let mut db = Database::new();
    assert_eq!(db.add_user("ann", Some("h1".to_string())), Ok(true));
    assert_eq!(db.add_user("ann", Some("h2".to_string())), Ok(false));
    assert_eq!(db.add_user("Ann", Some("h3".to_string())), Ok(true));
    assert_eq!(db.users().len(), 2);
    assert_eq!(db.users()[0].password, "h1");
}

#[test]
fn a_password_without_a_hash_is_turned_down() {
    let mut db = Database::new();
    assert_eq!(db.add_user("ann", None), Ok(false));
    assert!(db.users().is_empty());
    assert_eq!(db.next_ids(), (1, 1, 1));
}

#[test]
fn only_plain_users_are_listed() {
    let mut db = Database::new();
    assert!(db.restore_user(User { id: 1, username: "root".to_string(), password: "h".to_string(), role: "admin".to_string() }));
    assert_eq!(db.add_user("ann", Some("h".to_string())), Ok(true));
    assert_eq!(db.fetch_users(), vec!["ann".to_string()]);
    assert_eq!(db.users().len(), 2);
}

#[test]
fn books_get_ids_in_order() {
    let mut db = Database::new();
    assert_eq!(db.add_book("A", "a", "0000000000001", "2001", "g", 1), Ok(true));
    assert_eq!(db.add_book("B", "b", "0000000000002", "2002", "h", 0), Ok(true));
    let books = db.fetch_books();
    assert_eq!(books.len(), 2);
    let b = &books[0];
    assert_eq!(
        (b.id, b.title.as_str(), b.author.as_str(), b.isbn.as_str(), b.publication_year.as_str(), b.genre.as_str(), b.number_of_copies),
        (1, "A", "a", "0000000000001", "2001", "g", 1)
    );
    let b = db.fetch_book(2).expect("the second book");
    assert_eq!(
        (b.id, b.title.as_str(), b.author.as_str(), b.isbn.as_str(), b.publication_year.as_str(), b.genre.as_str(), b.number_of_copies),
        (2, "B", "b", "0000000000002", "2002", "h", 0)
    );
    assert!(db.fetch_book(3).is_none());
    assert!(db.fetch_book(0).is_none());
    assert!(db.fetch_book(-1).is_none());
    assert!(db.fetch_book(i64::MAX).is_none());
}

#[test]
fn an_isbn_is_given_once() {
    let mut db = ledger(0, 1);
    assert_eq!(db.add_book("Other", "x", "9780441013593", "1999", "g", 5), Ok(false));
    assert_eq!(db.fetch_books().len(), 1);
    assert_eq!(db.next_ids(), (1, 2, 1));
}

#[test]
fn a_book_with_negative_copies_is_turned_down() {
    let mut db = Database::new();
    assert_eq!(db.add_book("A", "a", "1", "2001", "g", -1), Ok(false));
    assert_eq!(db.add_book("A", "a", "1", "2001", "g", i32::MIN), Ok(false));
    assert!(db.fetch_books().is_empty());
    assert_eq!(db.next_ids(), (1, 1, 1));
    assert_eq!(db.add_book("A", "a", "1", "2001", "g", 0), Ok(true));
}

#[test]
fn borrowing_takes_a_copy_and_makes_a_record() {
    let mut db = ledger(2, 3);
    assert_eq!(db.borrow_book(2, 1, NOW), Ok(true));
    assert_eq!(copies(&db, 1), 2);
    assert_eq!(
        db.records(),
        vec![BorrowRecord { id: 1, user_id: 2, book_id: 1, created_at: NOW, due_date: NOW + 604_800 }]
    );
    assert_eq!(db.next_ids(), (3, 2, 2));
}

#[test]
fn a_user_who_does_not_exist_is_not_permitted() {
    let mut db = ledger(1, 3);
    assert_eq!(db.borrow_book(2, 1, NOW), Ok(false));
    assert_eq!(db.borrow_book(0, 1, NOW), Ok(false));
    assert_eq!(copies(&db, 1), 3);
    assert!(db.records().is_empty());
}

#[test]
fn a_book_without_copies_is_unavailable() {
    let mut db = ledger(1, 0);
    assert_eq!(db.borrow_book(1, 1, NOW), Ok(false));
    assert_eq!(db.borrow_book(1, 99, NOW), Ok(false));
    assert_eq!(copies(&db, 1), 0);
    assert!(db.records().is_empty());
}

#[test]
fn of_more_attempts_than_copies_as_many_succeed_as_there_are_copies() {
    let copies_at_start = 3;
    let attempts = 8;
    let mut db = ledger(attempts, copies_at_start);
    let mut granted = 0;
    let mut unavailable = 0;
    let mut user = 1;
    while user <= attempts {
        match db.borrow_book(user, 1, NOW + user as u64) {
            Ok(true) => {
                assert_eq!(unavailable, 0);
                granted += 1;
            }
            Ok(false) => unavailable += 1,
            Err(e) => panic!("{:?}", e),
        }
        user += 1;
    }
    assert_eq!(granted, copies_at_start);
    assert_eq!(unavailable, attempts as i32 - copies_at_start);
    assert_eq!(copies(&db, 1), 0);
    assert_eq!(db.records().len(), 3);
}

#[test]
fn returning_restores_the_copies() {
    let mut db = ledger(2, 5);
    assert_eq!(db.add_book("Emma", "Jane Austen", "9780141439587", "1815", "Novel", 2), Ok(true));
    assert_eq!(db.borrow_book(1, 1, NOW), Ok(true));
    assert_eq!(copies(&db, 1), 4);
    assert_eq!(db.borrow_book(2, 2, NOW), Ok(true));
    assert_eq!(db.borrow_book(1, 2, NOW), Ok(true));
    assert_eq!(db.return_book(2, 2), Ok(true));
    let mut update = no_update();
    update.title = Some("Emma (2nd ed.)".to_string());
    update.number_of_copies = Some(9);
    assert_eq!(db.edit_book(2, &update), Ok(EditOutcome::Done));
    assert_eq!(db.add_book("Ulysses", "James Joyce", "9780199535675", "1922", "Novel", 1), Ok(true));
    assert!(db.delete_book(3));
    assert_eq!(db.add_user("cat", Some("h".to_string())), Ok(true));
    assert_eq!(copies(&db, 1), 4);
    assert_eq!(db.return_book(1, 1), Ok(true));
    assert_eq!(copies(&db, 1), 5);
    assert_eq!(db.records().len(), 1);
    assert_eq!(db.records()[0].id, 3);
}

#[test]
fn a_record_is_returned_once() {
    let mut db = ledger(1, 1);
    assert_eq!(db.borrow_book(1, 1, NOW), Ok(true));
    assert_eq!(db.return_book(1, 1), Ok(true));
    assert_eq!(db.return_book(1, 1), Ok(false));
    assert_eq!(db.return_book(7, 1), Ok(false));
    assert_eq!(copies(&db, 1), 1);
}

#[test]
fn a_record_is_returned_as_a_copy_of_its_own_book_only() {
    let mut db = ledger(1, 1);
    assert_eq!(db.add_book("Emma", "Jane Austen", "9780141439587", "1815", "Novel", 2), Ok(true));
    assert_eq!(db.borrow_book(1, 1, NOW), Ok(true));
    assert_eq!(copies(&db, 1), 0);
    assert_eq!(db.return_book(1, 2), Ok(false));
    assert_eq!(db.return_book(1, 99), Ok(false));
    assert_eq!(db.return_book(1, 0), Ok(false));
    assert_eq!(db.return_book(1, -1), Ok(false));
    assert_eq!(copies(&db, 1), 0);
    assert_eq!(copies(&db, 2), 2);
    assert_eq!(db.records().len(), 1);
    assert_eq!(db.return_book(1, 1), Ok(true));
    assert_eq!(copies(&db, 1), 1);
    assert_eq!(copies(&db, 2), 2);
    assert!(db.records().is_empty());
}

#[test]
fn a_return_under_another_book_in_between_changes_nothing() {
    let mut db = ledger(2, 5);
    assert_eq!(db.add_book("Emma", "Jane Austen", "9780141439587", "1815", "Novel", 2), Ok(true));
    assert_eq!(db.borrow_book(1, 1, NOW), Ok(true));
    assert_eq!(db.return_book(1, 2), Ok(false));
    assert_eq!(db.borrow_book(2, 2, NOW), Ok(true));
    assert_eq!(db.return_book(2, 2), Ok(true));
    assert_eq!(db.return_book(1, 1), Ok(true));
    assert_eq!(copies(&db, 1), 5);
    assert_eq!(copies(&db, 2), 2);
    assert!(db.records().is_empty());
}

#[test]
fn ids_are_not_given_out_again() {
    let mut db = ledger(1, 2);
    assert_eq!(db.borrow_book(1, 1, NOW), Ok(true));
    assert_eq!(db.return_book(1, 1), Ok(true));
    assert_eq!(db.borrow_book(1, 1, NOW), Ok(true));
    assert_eq!(db.records()[0].id, 2);
    assert_eq!(db.return_book(2, 1), Ok(true));
    assert!(db.delete_book(1));
    assert_eq!(db.add_book("Dune", "Frank Herbert", "9780441013593", "1965", "SF", 1), Ok(true));
    assert_eq!(db.fetch_books()[0].id, 2);
}

#[test]
fn a_borrowed_book_cannot_be_deleted() {
    let mut db = ledger(1, 2);
    assert_eq!(db.borrow_book(1, 1, NOW), Ok(true));
    assert!(!db.delete_book(1));
    assert_eq!(db.fetch_books().len(), 1);
    assert_eq!(db.return_book(1, 1), Ok(true));
    assert!(db.delete_book(1));
    assert!(db.fetch_books().is_empty());
    assert!(db.fetch_book(1).is_none());
}

#[test]
fn a_book_that_does_not_exist_cannot_be_deleted() {
    let mut db = ledger(1, 2);
    assert!(!db.delete_book(2));
    assert!(!db.delete_book(0));
    assert_eq!(db.fetch_books().len(), 1);
}

#[test]
fn deleting_keeps_the_order_of_the_others() {
    let mut db = Database::new();
    for n in 1..=4 {
        assert_eq!(db.add_book(&format!("T{}", n), "a", &format!("isbn{}", n), "2000", "g", n), Ok(true));
    }
    assert!(db.delete_book(2));
    let ids: Vec<i32> = db.fetch_books().iter().map(|b| b.id).collect();
    assert_eq!(ids, vec![1, 3, 4]);
    assert_eq!(copies(&db, 3), 3);
    assert_eq!(copies(&db, 4), 4);
}

#[test]
fn an_edit_changes_the_fields_that_it_names() {
    let mut db = ledger(0, 3);
    let mut update = no_update();
    update.title = Some("Dune Messiah".to_string());
    update.publication_year = Some("1969".to_string());
    update.number_of_copies = Some(7);
    assert_eq!(db.edit_book(1, &update), Ok(EditOutcome::Done));
    let b = db.fetch_book(1).expect("the book");
    assert_eq!(
        (b.id, b.title.as_str(), b.author.as_str(), b.isbn.as_str(), b.publication_year.as_str(), b.genre.as_str(), b.number_of_copies),
        (1, "Dune Messiah", "Frank Herbert", "9780441013593", "1969", "SF", 7)
    );
    let mut update = no_update();
    update.author = Some("F. Herbert".to_string());
    update.isbn = Some("9780441013593".to_string());
    update.genre = Some("Science fiction".to_string());
    assert_eq!(db.edit_book(1, &update), Ok(EditOutcome::Done));
    let b = db.fetch_book(1).expect("the book");
    assert_eq!(
        (b.title.as_str(), b.author.as_str(), b.isbn.as_str(), b.genre.as_str(), b.number_of_copies),
        ("Dune Messiah", "F. Herbert", "9780441013593", "Science fiction", 7)
    );
}

#[test]
fn an_edit_that_names_nothing_is_turned_down() {
    let mut db = ledger(0, 3);
    assert_eq!(db.edit_book(1, &no_update()), Ok(EditOutcome::NothingToDo));
    assert_eq!(db.edit_book(99, &no_update()), Ok(EditOutcome::NothingToDo));
}

#[test]
fn an_edit_of_a_book_that_does_not_exist_finds_no_book() {
    let mut db = ledger(0, 3);
    let mut update = no_update();
    update.title = Some("X".to_string());
    assert_eq!(db.edit_book(99, &update), Ok(EditOutcome::NotFound));
    assert_eq!(db.edit_book(0, &update), Ok(EditOutcome::NotFound));
    update.isbn = Some("9780441013593".to_string());
    update.number_of_copies = Some(-5);
    assert_eq!(db.edit_book(99, &update), Ok(EditOutcome::NotFound));
    assert_eq!(db.fetch_books().len(), 1);
    assert_eq!(db.fetch_book(1).expect("the book").title, "Dune");
}

#[test]
fn an_edit_cannot_use_a_column_that_is_not_there() {
    let mut db = ledger(0, 3);
    let mut update = no_update();
    update.available = Some(true);
    assert_eq!(db.edit_book(1, &update), Err(StoreError::NoSuchColumn));
    update.title = Some("X".to_string());
    assert_eq!(db.edit_book(1, &update), Err(StoreError::NoSuchColumn));
    assert_eq!(db.edit_book(99, &update), Err(StoreError::NoSuchColumn));
    assert_eq!(db.fetch_book(1).expect("the book").title, "Dune");
}

#[test]
fn an_edit_cannot_break_the_rules() {
    let mut db = ledger(0, 3);
    assert_eq!(db.add_book("Emma", "Jane Austen", "9780141439587", "1815", "Novel", 2), Ok(true));
    let mut update = no_update();
    update.title = Some("X".to_string());
    update.isbn = Some("9780141439587".to_string());
    assert_eq!(db.edit_book(1, &update), Ok(EditOutcome::DuplicateIsbn));
    update.number_of_copies = Some(-1);
    assert_eq!(db.edit_book(1, &update), Ok(EditOutcome::DuplicateIsbn));
    let mut update = no_update();
    update.title = Some("X".to_string());
    update.number_of_copies = Some(-1);
    assert_eq!(db.edit_book(1, &update), Ok(EditOutcome::NegativeCopies));
    update.number_of_copies = Some(i64::MIN);
    assert_eq!(db.edit_book(1, &update), Ok(EditOutcome::NegativeCopies));
    let b = db.fetch_book(1).expect("the book");
    assert_eq!((b.title.as_str(), b.isbn.as_str(), b.number_of_copies), ("Dune", "9780441013593", 3));
    let isbns: Vec<String> = db.fetch_books().into_iter().map(|b| b.isbn).collect();
    assert_eq!(isbns, vec!["9780441013593".to_string(), "9780141439587".to_string()]);
}

#[test]
fn an_edit_cannot_set_more_copies_than_the_ledger_holds() {
    let mut db = ledger(0, 3);
    let mut update = no_update();
    update.title = Some("X".to_string());
    update.number_of_copies = Some(2_147_483_648);
    assert_eq!(db.edit_book(1, &update), Err(StoreError::OutOfRange));
    let b = db.fetch_book(1).expect("the book");
    assert_eq!((b.title.as_str(), b.number_of_copies), ("Dune", 3));
    let mut update = no_update();
    update.number_of_copies = Some(2_147_483_647);
    assert_eq!(db.edit_book(1, &update), Ok(EditOutcome::Done));
    assert_eq!(copies(&db, 1), i32::MAX);
}

#[test]
fn a_full_shelf_takes_no_more_copies() {
    let mut db = ledger(1, 1);
    assert_eq!(db.borrow_book(1, 1, NOW), Ok(true));
    let mut update = no_update();
    update.number_of_copies = Some(i32::MAX as i64);
    assert_eq!(db.edit_book(1, &update), Ok(EditOutcome::Done));
    assert_eq!(db.return_book(1, 1), Err(StoreError::OutOfRange));
    assert_eq!(db.records().len(), 1);
    assert_eq!(copies(&db, 1), i32::MAX);
}

#[test]
fn a_time_beyond_the_last_second_is_out_of_range() {
    let mut db = ledger(1, 1);
    assert_eq!(db.borrow_book(1, 1, LAST_SECOND - LOAN_SECONDS + 1), Err(StoreError::OutOfRange));
    assert_eq!(db.borrow_book(1, 1, u64::MAX), Err(StoreError::OutOfRange));
    assert_eq!(copies(&db, 1), 1);
    assert_eq!(db.borrow_book(1, 1, LAST_SECOND - LOAN_SECONDS), Ok(true));
    assert_eq!(db.records()[0].due_date, LAST_SECOND);
    assert_eq!(db.fetch_all_borrowed_books()[0].due_date, "9999-12-31 23:59:59");
}

#[test]
fn a_table_that_has_given_out_its_last_id_is_full() {
    let mut db = ledger(1, 5);
    db.skip_ids(i32::MAX as i64, i32::MAX, i64::MAX);
    assert_eq!(db.next_ids(), (i32::MAX as i64, i32::MAX, i64::MAX));
    assert_eq!(db.add_user("new", Some("h".to_string())), Err(StoreError::Full));
    assert_eq!(db.add_book("N", "n", "n", "2000", "g", 1), Err(StoreError::Full));
    assert_eq!(db.borrow_book(1, 1, NOW), Err(StoreError::Full));
    assert_eq!(db.users().len(), 1);
    assert_eq!(db.fetch_books().len(), 1);
    assert_eq!(copies(&db, 1), 5);
    assert_eq!(db.add_user("user1", Some("h".to_string())), Ok(false));
    assert_eq!(db.add_book("N", "n", "9780441013593", "2000", "g", 1), Ok(false));
}

#[test]
fn skipping_ids_only_raises_them() {
    let mut db = Database::new();
    db.skip_ids(10, 20, 30);
    assert_eq!(db.next_ids(), (10, 20, 30));
    db.skip_ids(5, 25, 0);
    assert_eq!(db.next_ids(), (10, 25, 30));
    db.skip_ids(i64::MAX, -4, -7);
    assert_eq!(db.next_ids(), (10, 25, 30));
    assert_eq!(db.add_user("ann", Some("h".to_string())), Ok(true));
    assert_eq!(db.users()[0].id, 10);
}

#[test]
fn borrowed_books_are_joined_with_user_and_book() {
    let mut db = ledger(2, 3);
    assert_eq!(db.add_book("Emma", "Jane Austen", "9780141439587", "1815", "Novel", 2), Ok(true));
    assert_eq!(db.borrow_book(2, 1, NOW), Ok(true));
    assert_eq!(db.borrow_book(1, 2, NOW + 60), Ok(true));
    assert_eq!(db.borrow_book(2, 2, 0), Ok(true));
    let all = db.fetch_all_borrowed_books();
    assert_eq!(all.len(), 3);
    let b = &all[0];
    assert_eq!(
        (b.borrowed_id, b.user_id, b.username.as_str(), b.due_date.as_str(), b.book.id, b.book.title.as_str(), b.book.number_of_copies),
        (1, 2, "user2", "2023-11-21 22:13:20", 1, "Dune", 2)
    );
    let b = &all[1];
    assert_eq!(
        (b.borrowed_id, b.user_id, b.username.as_str(), b.due_date.as_str(), b.book.id, b.book.title.as_str(), b.book.number_of_copies),
        (2, 1, "user1", "2023-11-21 22:14:20", 2, "Emma", 0)
    );
    let b = &all[2];
    assert_eq!(
        (b.borrowed_id, b.user_id, b.username.as_str(), b.due_date.as_str(), b.book.id, b.book.isbn.as_str()),
        (3, 2, "user2", "1970-01-08 00:00:00", 2, "9780141439587")
    );
    let of_two = db.fetch_borrowed_books(2);
    assert_eq!(of_two.len(), 2);
    assert_eq!((of_two[0].borrowed_id, of_two[1].borrowed_id), (1, 3));
    let of_one = db.fetch_borrowed_books(1);
    assert_eq!(of_one.len(), 1);
    assert_eq!(of_one[0].borrowed_id, 2);
    assert!(db.fetch_borrowed_books(3).is_empty());
}

#[test]
fn a_stored_ledger_is_put_back() {
    let mut db = ledger(2, 3);
    assert_eq!(db.borrow_book(2, 1, NOW), Ok(true));
    assert_eq!(db.borrow_book(1, 1, NOW), Ok(true));
    assert_eq!(db.return_book(1, 1), Ok(true));

    let mut copy = Database::new();
    for u in db.users() {
        assert!(copy.restore_user(u));
    }
    for b in db.fetch_books() {
        assert!(copy.restore_book(b));
    }
    for r in db.records() {
        assert!(copy.restore_record(r));
    }
    let (u, b, r) = db.next_ids();
    copy.skip_ids(u, b, r);
    assert_eq!(copy.next_ids(), db.next_ids());
    assert_eq!(copy.records(), db.records());
    assert_eq!(copy.fetch_users(), db.fetch_users());
    assert_eq!(copies(&copy, 1), 2);
    assert_eq!(copy.borrow_book(1, 1, NOW), Ok(true));
    assert_eq!(copy.records()[1].id, 3);
}

#[test]
fn what_breaks_the_rules_is_not_put_back() {
    let user = |id: i64, name: &str| User {
        id,
        username: name.to_string(),
        password: "h".to_string(),
        role: "user".to_string(),
    };
    let book = |id: i32, isbn: &str, copies: i32| Book {
        id,
        title: "t".to_string(),
        author: "a".to_string(),
        isbn: isbn.to_string(),
        publication_year: "2000".to_string(),
        genre: "g".to_string(),
        number_of_copies: copies,
    };
    let record = |id: i64, user_id: i64, book_id: i64, due: u64| BorrowRecord {
        id,
        user_id,
        book_id,
        created_at: NOW,
        due_date: due,
    };
    let mut db = Database::new();
    assert!(!db.restore_user(user(0, "zero")));
    assert!(!db.restore_user(user(-1, "minus")));
    assert!(!db.restore_user(user(i32::MAX as i64, "last")));
    assert!(db.restore_user(user(5, "ann")));
    assert!(!db.restore_user(user(5, "bob")));
    assert!(!db.restore_user(user(4, "bob")));
    assert!(!db.restore_user(user(6, "ann")));
    assert!(db.restore_user(user(6, "bob")));

    assert!(!db.restore_book(book(0, "i0", 1)));
    assert!(!db.restore_book(book(i32::MAX, "i0", 1)));
    assert!(!db.restore_book(book(1, "i1", -1)));
    assert!(db.restore_book(book(3, "i3", 0)));
    assert!(!db.restore_book(book(3, "i4", 1)));
    assert!(!db.restore_book(book(2, "i2", 1)));
    assert!(!db.restore_book(book(4, "i3", 1)));
    assert!(db.restore_book(book(4, "i4", 1)));

    assert!(!db.restore_record(record(0, 5, 3, NOW + LOAN_SECONDS)));
    assert!(!db.restore_record(record(i64::MAX, 5, 3, NOW + LOAN_SECONDS)));
    assert!(!db.restore_record(record(1, 7, 3, NOW + LOAN_SECONDS)));
    assert!(!db.restore_record(record(1, 5, 9, NOW + LOAN_SECONDS)));
    assert!(!db.restore_record(record(1, 5, 3, NOW + LOAN_SECONDS + 1)));
    assert!(db.restore_record(record(2, 5, 3, NOW + LOAN_SECONDS)));
    assert!(!db.restore_record(record(2, 6, 4, NOW + LOAN_SECONDS)));
    assert!(!db.restore_record(record(1, 6, 4, NOW + LOAN_SECONDS)));
    assert!(db.restore_record(record(3, 6, 4, NOW + LOAN_SECONDS)));
    assert_eq!(db.next_ids(), (7, 5, 4));
    assert_eq!(db.users().len(), 2);
    assert_eq!(db.fetch_books().len(), 2);
    assert_eq!(db.records().len(), 2);
}
