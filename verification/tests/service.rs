use bookstore::errors::{StorageError, UserError};
use bookstore::handlers::{create_book, delete_book, get_book, get_books, update_book};
use bookstore::models::NewBook;
use bookstore::store::BookStore;
use bookstore::validate::parse_book_id;

fn payload(name: &str, author: &str) -> NewBook {
    NewBook { name: name.to_string(), author: author.to_string() }
}

#[test]
fn create_then_get_round_trip() {
    let mut store = BookStore::new();
    let created = create_book(&mut store, payload("Dune", "Herbert")).unwrap();
    let seg = created.id.to_string();
    let got = get_book(&store, seg.as_bytes()).unwrap();
    assert_eq!(got.id, created.id);
    assert_eq!(got.name, "Dune");
    assert_eq!(got.author, "Herbert");
}

#[test]
fn crud_scenario() {
    let mut store = BookStore::new();
    let created = create_book(&mut store, payload("Dune", "Herbert")).unwrap();
    let n = created.id;
    assert_eq!(created.name, "Dune");
    assert_eq!(created.author, "Herbert");

    let seg = n.to_string();
    let got = get_book(&store, seg.as_bytes()).unwrap();
    assert_eq!(got.id, n);
    assert_eq!(got.name, "Dune");
    assert_eq!(got.author, "Herbert");

    let count = delete_book(&mut store, seg.as_bytes()).unwrap();
    assert_eq!(count, 1);

    let after = get_book(&store, seg.as_bytes());
    assert!(matches!(after, Err(UserError::NotFoundError)));
}

#[test]
fn absent_ids_are_not_found_never_internal() {
    let mut store = BookStore::new();
    create_book(&mut store, payload("Dune", "Herbert")).unwrap();

    for seg in [&b"999"[..], b"2", b"-5", b"2147483647"] {
        let got = get_book(&store, seg);
        assert!(matches!(got, Err(UserError::NotFoundError)));
        let updated = update_book(&mut store, seg, payload("x", "y"));
        assert!(matches!(updated, Err(UserError::NotFoundError)));
        let deleted = delete_book(&mut store, seg);
        assert!(matches!(deleted, Err(UserError::NotFoundError)));
    }
}

#[test]
fn malformed_segments_fail_validation_before_storage() {
    let mut store = BookStore::new();
    create_book(&mut store, payload("Dune", "Herbert")).unwrap();

    for seg in [&b"abc"[..], b"3.5", b"", b"-", b"+", b" 1", b"1 ", b"12a", b"0x10"] {
        assert!(matches!(get_book(&store, seg), Err(UserError::ValidationError)));
        assert!(matches!(
            update_book(&mut store, seg, payload("x", "y")),
            Err(UserError::ValidationError)
        ));
        assert!(matches!(delete_book(&mut store, seg), Err(UserError::ValidationError)));
    }
    // storage untouched throughout
    let listed = get_books(&store);
    assert_eq!(listed.len(), 1);
    assert_eq!(listed[0].name, "Dune");
}

#[test]
fn list_is_capped_at_one_hundred() {
    let mut store = BookStore::new();
    for i in 0..150 {
        let name = format!("book {}", i);
        create_book(&mut store, payload(&name, "someone")).unwrap();
    }
    let listed = get_books(&store);
    assert_eq!(listed.len(), 100);
    // the first rows in storage order
    for (i, b) in listed.iter().enumerate() {
        assert_eq!(b.name, format!("book {}", i));
    }
}

#[test]
fn list_below_the_cap_returns_everything() {
    let mut store = BookStore::new();
    assert_eq!(get_books(&store).len(), 0);
    for i in 0..100 {
        let name = format!("book {}", i);
        create_book(&mut store, payload(&name, "someone")).unwrap();
    }
    assert_eq!(get_books(&store).len(), 100);
}

#[test]
fn update_changes_only_name_and_author() {
    let mut store = BookStore::new();
    let a = create_book(&mut store, payload("Dune", "Herbert")).unwrap();
    let b = create_book(&mut store, payload("Emma", "Austen")).unwrap();

    let seg = a.id.to_string();
    let updated = update_book(&mut store, seg.as_bytes(), payload("Dune Messiah", "F. Herbert"))
        .unwrap();
    assert_eq!(updated.id, a.id);
    assert_eq!(updated.name, "Dune Messiah");
    assert_eq!(updated.author, "F. Herbert");

    // the updated row kept its id, the other row is untouched
    let got_a = get_book(&store, seg.as_bytes()).unwrap();
    assert_eq!(got_a.id, a.id);
    assert_eq!(got_a.name, "Dune Messiah");
    let got_b = get_book(&store, b.id.to_string().as_bytes()).unwrap();
    assert_eq!(got_b.name, "Emma");
    assert_eq!(got_b.author, "Austen");
    assert_eq!(get_books(&store).len(), 2);
}

#[test]
fn delete_is_idempotent_in_effect() {
    let mut store = BookStore::new();
    let created = create_book(&mut store, payload("Dune", "Herbert")).unwrap();
    let seg = created.id.to_string();
    assert_eq!(delete_book(&mut store, seg.as_bytes()).unwrap(), 1);
    let again = delete_book(&mut store, seg.as_bytes());
    assert!(matches!(again, Err(UserError::NotFoundError)));
    assert_eq!(get_books(&store).len(), 0);
}

#[test]
fn created_ids_are_fresh_and_distinct() {
    let mut store = BookStore::new();
    let a = create_book(&mut store, payload("one", "x")).unwrap();
    let b = create_book(&mut store, payload("two", "y")).unwrap();
    assert_ne!(a.id, b.id);
    let seg = a.id.to_string();
    delete_book(&mut store, seg.as_bytes()).unwrap();
    let c = create_book(&mut store, payload("three", "z")).unwrap();
    // a deleted id is not reused
    assert_ne!(c.id, a.id);
    assert_ne!(c.id, b.id);
}

#[test]
fn create_fails_internally_when_ids_are_exhausted() {
    let mut store = BookStore::with_next_id(i32::MAX);
    let r = create_book(&mut store, payload("late", "z"));
    assert!(matches!(r, Err(UserError::InternalError)));
    assert_eq!(get_books(&store).len(), 0);
}

#[test]
fn error_statuses() {
    assert_eq!(UserError::ValidationError.status_code(), 400);
    assert_eq!(UserError::NotFoundError.status_code(), 404);
    assert_eq!(UserError::InternalError.status_code(), 500);
}

#[test]
fn storage_errors_map_to_user_errors() {
    assert_eq!(
        bookstore::errors::map_storage_error(StorageError::NotFound),
        UserError::NotFoundError
    );
    assert_eq!(
        bookstore::errors::map_storage_error(StorageError::Other),
        UserError::InternalError
    );
}

#[test]
fn parse_accepts_exact_decimal_i32() {
    assert_eq!(parse_book_id(b"42"), Ok(42));
    assert_eq!(parse_book_id(b"0"), Ok(0));
    assert_eq!(parse_book_id(b"-7"), Ok(-7));
    assert_eq!(parse_book_id(b"+5"), Ok(5));
    assert_eq!(parse_book_id(b"007"), Ok(7));
    assert_eq!(parse_book_id(b"-0"), Ok(0));
    assert_eq!(parse_book_id(b"2147483647"), Ok(i32::MAX));
    assert_eq!(parse_book_id(b"-2147483648"), Ok(i32::MIN));
    assert_eq!(parse_book_id(b"0000000000000000001"), Ok(1));
}

#[test]
fn parse_rejects_malformed_or_out_of_range() {
    for seg in [
        &b""[..],
        b"-",
        b"+",
        b"abc",
        b"3.5",
        b"1e3",
        b" 1",
        b"1 ",
        b"--1",
        b"+-1",
        b"2147483648",
        b"-2147483649",
        b"99999999999999999999",
    ] {
        assert_eq!(parse_book_id(seg), Err(UserError::ValidationError));
    }
}
