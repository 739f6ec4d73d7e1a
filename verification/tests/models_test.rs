use shusei::models::{generate_book_id, generate_id, Book};

#[test]
fn test_book_minimal_fields() {
    let book = Book::new("Minimal Book".to_string(), "Minimal Author".to_string());

    assert_eq!(book.title, "Minimal Book");
    assert_eq!(book.author, "Minimal Author");
    assert_eq!(book.pages_captured, 0);
    assert!(book.id.len() > 0);
    assert!(book.created_at > 0);
}

#[test]
fn test_book_all_fields() {
    let book = Book::with_all_fields(
        "full-id".to_string(),
        "Full Book".to_string(),
        "Full Author".to_string(),
        Some("covers/full.jpg".to_string()),
        50,
        Some(100),
        Some(9876543210),
        1111111111,
    );

    assert_eq!(book.id, "full-id");
    assert_eq!(book.title, "Full Book");
    assert_eq!(book.author, "Full Author");
    assert_eq!(book.cover_path, Some("covers/full.jpg".to_string()));
    assert_eq!(book.pages_captured, 50);
    assert_eq!(book.total_pages, Some(100));
    assert_eq!(book.last_opened_at, Some(9876543210));
    assert_eq!(book.created_at, 1111111111);
}

#[test]
fn test_book_default_trait() {
    let book = Book::default();

    assert!(book.id.len() > 0);
    assert_eq!(book.title, "");
    assert_eq!(book.author, "");
    assert_eq!(book.cover_path, None);
    assert_eq!(book.pages_captured, 0);
    assert_eq!(book.total_pages, None);
    assert_eq!(book.last_opened_at, None);
    assert!(book.created_at > 0);
}

#[test]
fn generated_ids_are_sixteen_hex_digits() {
    let id = generate_id();
    assert_eq!(id.len(), 16);
    assert!(id.chars().all(|c| c.is_ascii_digit() || ('a'..='f').contains(&c)));
}

#[test]
fn book_ids_join_hash_and_milliseconds() {
    let id = generate_book_id();
    let (hash, millis) = id.split_at(16);
    assert!(hash.chars().all(|c| c.is_ascii_digit() || ('a'..='f').contains(&c)));
    assert!(millis.starts_with('-'));
    assert!(millis[1..].parse::<u128>().unwrap() > 0);
}

#[test]
fn timestamp_from_the_clock_outcome() {
    assert_eq!(shusei::models::timestamp_of(Some(1_700_000_000)), 1_700_000_000);
    assert_eq!(shusei::models::timestamp_of(None), 0);
    assert_eq!(shusei::models::timestamp_of(Some(u64::MAX)), -1);
}
