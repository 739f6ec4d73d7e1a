//! The book model of the library screen.
use vstd::prelude::*;
use std::collections::hash_map::{DefaultHasher, RandomState};
use std::hash::Hasher;
use std::time::{Duration, SystemTime, SystemTimeError};
use crate::text::{decimal, hex16, hex_digits, lemma_hex_digits_len, push_str, push_unsigned_wide};

verus! {

#[verifier::external_type_specification]
#[verifier::external_body]
pub struct ExSystemTime(SystemTime);

#[verifier::external_type_specification]
#[verifier::external_body]
pub struct ExSystemTimeError(SystemTimeError);

/// `RandomState::new`: a hash builder with freshly drawn random keys.
/// Nothing is stated of the keys.
#[verifier::external_body]
fn fresh_random_state() -> (s: RandomState) {
    RandomState::new()
}

/// `BuildHasher::build_hasher` of a `RandomState`: a hasher seeded with the
/// builder's random keys. Nothing is stated of its state.
#[verifier::external_body]
fn seeded_hasher(s: &RandomState) -> (h: DefaultHasher) {
    std::hash::BuildHasher::build_hasher(s)
}

/// `SystemTime::now`: the current time of the system clock. Nothing is
/// stated of it.
#[verifier::external_body]
fn system_now() -> (t: SystemTime) {
    SystemTime::now()
}

/// `SystemTime::duration_since(UNIX_EPOCH)`: the time elapsed since the Unix
/// epoch, or an error when the clock reads earlier than the epoch. Nothing
/// is stated of which comes back.
#[verifier::external_body]
fn since_unix_epoch(t: &SystemTime) -> (r: Result<Duration, SystemTimeError>) {
    t.duration_since(std::time::UNIX_EPOCH)
}

/// `Duration::as_secs`: the whole seconds of a duration. Nothing is stated
/// of the value, as a duration carries no view.
#[verifier::external_body]
fn whole_seconds(d: &Duration) -> (secs: u64) {
    d.as_secs()
}

/// `Duration::as_millis`: the whole milliseconds of a duration. Nothing is
/// stated of the value, as a duration carries no view.
#[verifier::external_body]
fn whole_millis(d: &Duration) -> (ms: u128) {
    d.as_millis()
}

/// The milliseconds since the Unix epoch; a clock that reads earlier than
/// the epoch gives `None`.
fn current_millis() -> (ms: Option<u128>) {
    let now = system_now();
    match since_unix_epoch(&now) {
        Ok(d) => Some(whole_millis(&d)),
        Err(_) => None,
    }
}

/// A fresh book identifier as the database makes one: sixteen lowercase
/// hexadecimal digits of a randomly seeded hash, `-`, and the milliseconds
/// since the Unix epoch (0 for a clock set before it).
pub fn generate_book_id() -> (id: String)
    ensures
        exists|h: u64, ms: u128| id@ == hex_digits(h as nat, 16) + "-"@ + decimal(ms as int),
{
    let mut id = generate_id();
    let ghost head = id@;
    let ms = match current_millis() {
        Some(ms) => ms,
        None => 0,
    };
    push_str(&mut id, "-");
    push_unsigned_wide(&mut id, ms);
    let ghost h = choose|h: u64| head == hex_digits(h as nat, 16);
    assert(id@ == hex_digits(h as nat, 16) + "-"@ + decimal(ms as int));
    id
}

/// The identifier of a new book: the one given, else a fresh one.
pub fn book_id_or_fresh(id: Option<String>) -> (r: String)
    ensures
        id matches Some(given) ==> r == given,
        id is None ==> exists|h: u64, ms: u128| r@ == hex_digits(h as nat, 16) + "-"@ + decimal(ms as int),
{
    match id {
        Some(given) => given,
        None => generate_book_id(),
    }
}

/// A fresh identifier: sixteen lowercase hexadecimal digits of a randomly
/// seeded hash.
pub fn generate_id() -> (id: String)
    ensures
        id@.len() == 16,
        exists|h: u64| id@ == hex_digits(h as nat, 16),
{
    let state = fresh_random_state();
    let hasher = seeded_hasher(&state);
    let hash = hasher.finish();
    let id = hex16(hash);
    proof {
        lemma_hex_digits_len(hash as nat, 16);
    }
    id
}

/// The Unix time of whole seconds elapsed since the epoch (as `as i64`
/// gives it), or 0 where the clock read earlier than the epoch.
pub open spec fn timestamp_from(elapsed_secs: Option<u64>) -> i64 {
    match elapsed_secs {
        Some(s) => s as i64,
        None => 0,
    }
}

/// The Unix time for the whole seconds the clock gave since the epoch, or
/// 0 for a clock that read earlier than the epoch.
pub fn timestamp_of(elapsed_secs: Option<u64>) -> (ts: i64)
    ensures
        ts == timestamp_from(elapsed_secs),
{
    match elapsed_secs {
        Some(s) => s as i64,
        None => 0,
    }
}

/// The current Unix time in whole seconds; a clock that reads earlier than
/// the epoch gives 0. It is `timestamp_of` of what the clock gave.
pub fn current_timestamp() -> (ts: i64)
    ensures
        exists|elapsed_secs: Option<u64>| ts == timestamp_from(elapsed_secs),
{
    let now = system_now();
    let elapsed_secs = match since_unix_epoch(&now) {
        Ok(d) => Some(whole_seconds(&d)),
        Err(_) => None,
    };
    timestamp_of(elapsed_secs)
}

/// A book in the library.
#[derive(Debug, Clone, PartialEq)]
pub struct Book {
    pub id: String,
    pub title: String,
    pub author: String,
    pub cover_path: Option<String>,
    pub pages_captured: i32,
    pub total_pages: Option<i32>,
    pub last_opened_at: Option<i64>,
    pub created_at: i64,
}

impl Book {
    /// A book with the given title and author, a fresh identifier, no cover,
    /// no pages captured, no page total, never opened, created now: its
    /// creation time is what `current_timestamp` gave, the clock's whole
    /// seconds since the Unix epoch.
    pub fn new(title: String, author: String) -> (b: Book)
        ensures
            b.title == title,
            b.author == author,
            b.id@.len() == 16,
            exists|h: u64| b.id@ == hex_digits(h as nat, 16),
            exists|elapsed_secs: Option<u64>| b.created_at == timestamp_from(elapsed_secs),
            b.cover_path is None,
            b.pages_captured == 0,
            b.total_pages is None,
            b.last_opened_at is None,
    {
        let d = Book::default();
        Book { title, author, ..d }
    }

    /// A book with every field given.
    pub fn with_all_fields(
        id: String,
        title: String,
        author: String,
        cover_path: Option<String>,
        pages_captured: i32,
        total_pages: Option<i32>,
        last_opened_at: Option<i64>,
        created_at: i64,
    ) -> (b: Book)
        ensures
            b == (Book {
                id,
                title,
                author,
                cover_path,
                pages_captured,
                total_pages,
                last_opened_at,
                created_at,
            }),
    {
        Book { id, title, author, cover_path, pages_captured, total_pages, last_opened_at, created_at }
    }
}

impl Default for Book {
    /// An untitled book without author, with a fresh identifier, created now
    /// (its creation time is what `current_timestamp` gave).
    fn default() -> (b: Book)
        ensures
            b.id@.len() == 16,
            exists|h: u64| b.id@ == hex_digits(h as nat, 16),
            exists|elapsed_secs: Option<u64>| b.created_at == timestamp_from(elapsed_secs),
            b.title@.len() == 0,
            b.author@.len() == 0,
            b.cover_path is None,
            b.pages_captured == 0,
            b.total_pages is None,
            b.last_opened_at is None,
    {
        Book {
            id: generate_id(),
            title: String::new(),
            author: String::new(),
            cover_path: None,
            pages_captured: 0,
            total_pages: None,
            last_opened_at: None,
            created_at: current_timestamp(),
        }
    }
}

} // verus!
