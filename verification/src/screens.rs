//! What the app's screens decide, apart from drawing: which books the
//! library shows and what it offers for them, the record of a new or
//! imported book, the vocabulary search and its messages, and the toasts.
use vstd::prelude::*;
use crate::db::{Book, NewBook, Word};
use crate::pdf::PdfMetadata;
use crate::storage::{is_uuid_v4_text, new_uuid};
use crate::text::{chars_of, chars_contain, contains, decimal, push_str, push_unsigned};
use crate::vocab::{lowercase, str_to_lowercase};

verus! {

/// The kind of a toast notification.
#[derive(Debug, Clone, Copy, PartialEq, Eq, Structural)]
pub enum ToastType {
    Success,
    Error,
    Info,
}

impl ToastType {
    /// The background colour class of the toast.
    pub fn color_class(&self) -> (c: &'static str)
        ensures
            c@ == match *self {
                ToastType::Success => "bg-green-500"@,
                ToastType::Error => "bg-red-500"@,
                ToastType::Info => "bg-blue-500"@,
            },
    {
        match self {
            ToastType::Success => "bg-green-500",
            ToastType::Error => "bg-red-500",
            ToastType::Info => "bg-blue-500",
        }
    }

    /// The icon of the toast.
    pub fn icon(&self) -> (c: &'static str)
        ensures
            c@ == match *self {
                ToastType::Success => "✓"@,
                ToastType::Error => "✗"@,
                ToastType::Info => "ℹ"@,
            },
    {
        match self {
            ToastType::Success => "✓",
            ToastType::Error => "✗",
            ToastType::Info => "ℹ",
        }
    }
}

/// Which books the library shows.
#[derive(Debug, Clone, Copy, PartialEq, Eq, Structural)]
pub enum LibraryFilter {
    All,
    PdfsOnly,
    PhysicalOnly,
}

/// Whether the filter shows a book.
pub open spec fn shows(filter: LibraryFilter, book: Book) -> bool {
    match filter {
        LibraryFilter::All => true,
        LibraryFilter::PdfsOnly => book.is_pdf,
        LibraryFilter::PhysicalOnly => !book.is_pdf,
    }
}

/// The books the filter shows, in order.
pub open spec fn shown_books(books: Seq<Book>, filter: LibraryFilter) -> Seq<Book>
    decreases books.len(),
{
    if books.len() == 0 {
        Seq::<Book>::empty()
    } else {
        let rest = shown_books(books.drop_last(), filter);
        if shows(filter, books.last()) {
            rest.push(books.last())
        } else {
            rest
        }
    }
}

/// The books the filter shows, in their order.
pub fn filter_books(books: Vec<Book>, filter: LibraryFilter) -> (shown: Vec<Book>)
    ensures
        shown@ == shown_books(books@, filter),
{
    let ghost all = books@;
    let mut rest = books;
    let mut shown: Vec<Book> = Vec::new();
    let ghost mut k: int = 0;
    while rest.len() > 0
        invariant
            0 <= k <= all.len(),
            rest@ == all.subrange(k, all.len() as int),
            shown@ == shown_books(all.subrange(0, k), filter),
        decreases rest.len(),
    {
        let book = rest.remove(0);
        proof {
            assert(all.subrange(0, k + 1).drop_last() =~= all.subrange(0, k));
            assert(all.subrange(0, k + 1).last() == book);
            k = k + 1;
            assert(rest@ =~= all.subrange(k, all.len() as int));
        }
        let keep = match filter {
            LibraryFilter::All => true,
            LibraryFilter::PdfsOnly => book.is_pdf,
            LibraryFilter::PhysicalOnly => !book.is_pdf,
        };
        if keep {
            shown.push(book);
        }
    }
    assert(all.subrange(0, all.len() as int) =~= all);
    shown
}

/// Showing all books shows every book, and every book is either a PDF or
/// a physical book: the two other filters split the library between them.
pub proof fn lemma_filters_split_library(books: Seq<Book>)
    ensures
        shown_books(books, LibraryFilter::All) == books,
        shown_books(books, LibraryFilter::PdfsOnly).len() + shown_books(books, LibraryFilter::PhysicalOnly).len()
            == books.len(),
    decreases books.len(),
{
    if books.len() > 0 {
        lemma_filters_split_library(books.drop_last());
        assert(books.drop_last().push(books.last()) =~= books);
    }
}

/// What the library says when the filter shows no book.
pub fn empty_library_message(filter: LibraryFilter) -> (m: &'static str)
    ensures
        m@ == match filter {
            LibraryFilter::All => "No books yet"@,
            LibraryFilter::PdfsOnly => "No PDF books"@,
            LibraryFilter::PhysicalOnly => "No physical books"@,
        },
{
    match filter {
        LibraryFilter::All => "No books yet",
        LibraryFilter::PdfsOnly => "No PDF books",
        LibraryFilter::PhysicalOnly => "No physical books",
    }
}

/// Whether a book is a PDF with pages still to convert: it has a positive
/// page total and fewer pages captured.
pub open spec fn book_needs_conversion(book: Book) -> bool {
    book.is_pdf && match book.total_pages {
        Some(t) => t > 0 && book.pages_captured < t,
        None => false,
    }
}

/// Whether a book card offers to convert the book.
pub fn needs_conversion(book: &Book) -> (b: bool)
    ensures
        b == book_needs_conversion(*book),
{
    let total_positive = match book.total_pages {
        Some(t) => t > 0,
        None => false,
    };
    let total = match book.total_pages {
        Some(t) => t,
        None => 0,
    };
    book.is_pdf && total_positive && book.pages_captured < total
}

/// The label of the conversion button: resume once some pages are captured.
pub fn conversion_button_label(book: &Book) -> (l: &'static str)
    ensures
        l@ == if book.pages_captured > 0 { "Resume Conversion"@ } else { "Convert"@ },
{
    if book.pages_captured > 0 {
        "Resume Conversion"
    } else {
        "Convert"
    }
}

/// The label of the import button.
pub fn import_button_label(importing: bool) -> (l: &'static str)
    ensures
        l@ == if importing { "Importing..."@ } else { "Import PDF"@ },
{
    if importing {
        "Importing..."
    } else {
        "Import PDF"
    }
}

/// The label of the demo button.
pub fn demo_button_label(importing: bool) -> (l: &'static str)
    ensures
        l@ == if importing { "Loading..."@ } else { "Load Demo PDF"@ },
{
    if importing {
        "Loading..."
    } else {
        "Load Demo PDF"
    }
}

/// What the import dialog proposes for a PDF before it is added.
#[derive(Debug, Clone)]
pub struct MetadataReview {
    pub title: String,
    pub author: String,
    pub page_count: u32,
}

/// The proposal for an imported PDF: its title, else the fallback title;
/// its author, else nothing; its page count.
pub fn review_metadata(metadata: PdfMetadata, fallback_title: String) -> (r: MetadataReview)
    ensures
        r.title@ == match metadata.title {
            Some(t) => t@,
            None => fallback_title@,
        },
        r.author@ == match metadata.author {
            Some(a) => a@,
            None => Seq::<char>::empty(),
        },
        r.page_count == metadata.page_count,
{
    let title = match metadata.title {
        Some(t) => t,
        None => fallback_title,
    };
    let author = match metadata.author {
        Some(a) => a,
        None => String::new(),
    };
    MetadataReview { title, author, page_count: metadata.page_count }
}

/// The title proposed for a PDF picked from the file system when it has
/// none: the file's stem, else `Unknown`.
pub fn picked_file_title(file_stem: Option<String>) -> (t: String)
    ensures
        t@ == match file_stem {
            Some(s) => s@,
            None => "Unknown"@,
        },
{
    match file_stem {
        Some(s) => s,
        None => String::from_str("Unknown"),
    }
}

/// The record of an imported PDF book: a fresh UUID, the reviewed title
/// and author, no pages captured yet, the page count as the total, and the
/// path of the copied file.
pub fn imported_pdf_book(title: String, author: String, page_count: u32, pdf_path: String) -> (b: NewBook)
    ensures
        b.id matches Some(id) && is_uuid_v4_text(id@),
        b.title == title,
        b.author == author,
        b.cover_path is None,
        b.pages_captured == 0,
        b.total_pages == Some(page_count as i32),
        b.last_opened_at is None,
        b.is_pdf,
        b.pdf_path == Some(pdf_path),
{
    NewBook {
        id: Some(new_uuid()),
        title,
        author,
        cover_path: None,
        pages_captured: 0,
        total_pages: Some(page_count as i32),
        last_opened_at: None,
        is_pdf: true,
        pdf_path: Some(pdf_path),
    }
}

/// The message shown once an import is saved.
pub fn import_success_message() -> (m: String)
    ensures
        m@ == "✓ PDF imported successfully"@,
{
    String::from_str("✓ PDF imported successfully")
}

/// Whether a library message reports success: it starts with `✓`.
pub fn is_success_message(message: &str) -> (b: bool)
    ensures
        b == (message@.len() > 0 && message@[0] == '✓'),
{
    let chars = chars_of(message);
    chars.len() > 0 && chars[0] == '✓'
}

/// Whether the new-book form can be submitted: title and author are both
/// given.
pub fn book_form_is_valid(title: &str, author: &str) -> (b: bool)
    ensures
        b == (title@.len() > 0 && author@.len() > 0),
{
    !title.is_empty() && !author.is_empty()
}

/// The book to create from the new-book form, or the message when a field
/// is missing.
pub fn book_from_form(title: String, author: String) -> (r: Result<NewBook, String>)
    ensures
        (title@.len() == 0 || author@.len() == 0) ==> (r matches Err(m) && m@
            == "Title and author are required"@),
        (title@.len() > 0 && author@.len() > 0) ==> (r matches Ok(b) && b.id is None && b.title
            == title && b.author == author && b.cover_path is None && b.pages_captured == 0
            && b.total_pages is None && b.last_opened_at is None && !b.is_pdf && b.pdf_path is None),
{
    if title.as_str().is_empty() || author.as_str().is_empty() {
        return Err(String::from_str("Title and author are required"));
    }
    Ok(
        NewBook {
            id: None,
            title,
            author,
            cover_path: None,
            pages_captured: 0,
            total_pages: None,
            last_opened_at: None,
            is_pdf: false,
            pdf_path: None,
        },
    )
}

/// The label of the new-book form's submit button.
pub fn book_form_submit_label(saving: bool) -> (l: &'static str)
    ensures
        l@ == if saving { "Saving..."@ } else { "Add Book"@ },
{
    if saving {
        "Saving..."
    } else {
        "Add Book"
    }
}

/// Whether the vocabulary search keeps a word: its lowercase form contains
/// the lowercase query.
pub open spec fn search_keeps(query: Seq<char>, word: Word) -> bool {
    contains(lowercase(word.word@), lowercase(query))
}

/// The words the search keeps, in order.
pub open spec fn searched_words(words: Seq<Word>, query: Seq<char>) -> Seq<Word>
    decreases words.len(),
{
    if words.len() == 0 {
        Seq::<Word>::empty()
    } else {
        let rest = searched_words(words.drop_last(), query);
        if search_keeps(query, words.last()) {
            rest.push(words.last())
        } else {
            rest
        }
    }
}

/// The search ignores case: two queries with the same lowercase form show
/// the same words.
pub proof fn lemma_search_ignores_case(words: Seq<Word>, q1: Seq<char>, q2: Seq<char>)
    requires
        lowercase(q1) == lowercase(q2),
    ensures
        searched_words(words, q1) == searched_words(words, q2),
    decreases words.len(),
{
    if words.len() > 0 {
        lemma_search_ignores_case(words.drop_last(), q1, q2);
    }
}

/// The search shows, in order, exactly the words whose lowercase form
/// contains the lowercase query.
pub proof fn lemma_search_shows_matching_words(words: Seq<Word>, query: Seq<char>)
    ensures
        searched_words(words, query) == words.filter(
            |w: Word| contains(lowercase(w.word@), lowercase(query)),
        ),
    decreases words.len(),
{
    reveal(Seq::filter);
    if words.len() > 0 {
        lemma_search_shows_matching_words(words.drop_last(), query);
    }
}

/// The words the vocabulary search shows: all of them for an empty
/// (lowercased) query, else those whose lowercase form contains it.
pub fn search_words(words: Vec<Word>, query: &str) -> (shown: Vec<Word>)
    ensures
        lowercase(query@).len() == 0 ==> shown@ == words@,
        lowercase(query@).len() > 0 ==> shown@ == searched_words(words@, query@),
{
    let q = str_to_lowercase(query);
    if q.as_str().is_empty() {
        return words;
    }
    let qc = chars_of(q.as_str());
    let ghost all = words@;
    let mut rest = words;
    let mut shown: Vec<Word> = Vec::new();
    let ghost mut k: int = 0;
    while rest.len() > 0
        invariant
            0 <= k <= all.len(),
            qc@ == lowercase(query@),
            rest@ == all.subrange(k, all.len() as int),
            shown@ == searched_words(all.subrange(0, k), query@),
        decreases rest.len(),
    {
        let w = rest.remove(0);
        proof {
            assert(all.subrange(0, k + 1).drop_last() =~= all.subrange(0, k));
            assert(all.subrange(0, k + 1).last() == w);
            k = k + 1;
            assert(rest@ =~= all.subrange(k, all.len() as int));
        }
        let lw = str_to_lowercase(w.word.as_str());
        let lc = chars_of(lw.as_str());
        if chars_contain(&lc, &qc) {
            shown.push(w);
        }
    }
    assert(all.subrange(0, all.len() as int) =~= all);
    shown
}

/// The words left once the word with the given id is deleted.
pub open spec fn without_word(words: Seq<Word>, id: i64) -> Seq<Word>
    decreases words.len(),
{
    if words.len() == 0 {
        Seq::<Word>::empty()
    } else {
        let rest = without_word(words.drop_last(), id);
        if words.last().id != id {
            rest.push(words.last())
        } else {
            rest
        }
    }
}

/// The vocabulary list after deleting the word with the given id.
pub fn remove_word(words: Vec<Word>, id: i64) -> (left: Vec<Word>)
    ensures
        left@ == without_word(words@, id),
{
    let ghost all = words@;
    let mut rest = words;
    let mut left: Vec<Word> = Vec::new();
    let ghost mut k: int = 0;
    while rest.len() > 0
        invariant
            0 <= k <= all.len(),
            rest@ == all.subrange(k, all.len() as int),
            left@ == without_word(all.subrange(0, k), id),
        decreases rest.len(),
    {
        let w = rest.remove(0);
        proof {
            assert(all.subrange(0, k + 1).drop_last() =~= all.subrange(0, k));
            assert(all.subrange(0, k + 1).last() == w);
            k = k + 1;
            assert(rest@ =~= all.subrange(k, all.len() as int));
        }
        if w.id != id {
            left.push(w);
        }
    }
    assert(all.subrange(0, all.len() as int) =~= all);
    left
}

/// No word with the deleted id is left, and every other word stays.
pub proof fn lemma_remove_word(words: Seq<Word>, id: i64)
    ensures
        forall|i: int| 0 <= i < without_word(words, id).len() ==> (#[trigger] without_word(words, id)[i]).id != id,
        forall|w: Word| words.contains(w) && w.id != id ==> without_word(words, id).contains(w),
    decreases words.len(),
{
    if words.len() > 0 {
        let rest = without_word(words.drop_last(), id);
        lemma_remove_word(words.drop_last(), id);
        assert forall|i: int| 0 <= i < without_word(words, id).len() implies (#[trigger] without_word(
            words,
            id,
        )[i]).id != id by {
            if i < rest.len() {
                assert(without_word(words, id)[i] == rest[i]);
            }
        }
        assert forall|w: Word| words.contains(w) && w.id != id implies without_word(words, id).contains(w) by {
            let j = choose|j: int| 0 <= j < words.len() && words[j] == w;
            if j < words.len() - 1 {
                assert(words.drop_last()[j] == w);
                assert(words.drop_last().contains(w));
                let m = choose|m: int| 0 <= m < rest.len() && rest[m] == w;
                if words.last().id != id {
                    assert(rest.push(words.last())[m] == w);
                }
            } else {
                assert(without_word(words, id).last() == w);
            }
        }
    }
}

/// The export format's name in messages.
pub open spec fn format_name(format: crate::vocab::ExportFormat) -> Seq<char> {
    match format {
        crate::vocab::ExportFormat::Markdown => "Markdown"@,
        crate::vocab::ExportFormat::Csv => "CSV"@,
        crate::vocab::ExportFormat::Json => "JSON"@,
    }
}

/// The toast after exporting `count` words: nothing to export for none,
/// else how many words went out in which format.
pub fn export_toast(count: usize, format: crate::vocab::ExportFormat) -> (t: (String, ToastType))
    ensures
        count == 0 ==> t.0@ == "No words to export"@ && t.1 == ToastType::Info,
        count > 0 ==> t.0@ == "Exported "@ + decimal(count as int) + " words as "@ + format_name(format)
            && t.1 == ToastType::Success,
{
    if count == 0 {
        return (String::from_str("No words to export"), ToastType::Info);
    }
    let mut m = String::from_str("Exported ");
    push_unsigned(&mut m, count as u64);
    push_str(&mut m, " words as ");
    match format {
        crate::vocab::ExportFormat::Markdown => push_str(&mut m, "Markdown"),
        crate::vocab::ExportFormat::Csv => push_str(&mut m, "CSV"),
        crate::vocab::ExportFormat::Json => push_str(&mut m, "JSON"),
    }
    (m, ToastType::Success)
}

/// Where a saved word comes from, as its card says: the book, and the page
/// where one is known; nothing without a book.
pub fn word_source_line(word: &Word) -> (line: Option<String>)
    ensures
        match word.source_book_id {
            None => line is None,
            Some(b) => line matches Some(l) && l@ == "From: Book "@ + b@ + match word.source_page {
                Some(p) => " (p."@ + decimal(p as int) + ")"@,
                None => Seq::<char>::empty(),
            },
        },
{
    match &word.source_book_id {
        None => None,
        Some(b) => {
            let mut l = String::from_str("From: Book ");
            push_str(&mut l, b.as_str());
            match word.source_page {
                Some(p) => {
                    push_str(&mut l, " (p.");
                    crate::text::push_decimal(&mut l, p as i64);
                    push_str(&mut l, ")");
                },
                None => {},
            }
            Some(l)
        },
    }
}

/// The preview of a note: its first hundred characters and an ellipsis.
pub fn note_preview(content: &str) -> (p: String)
    ensures
        p@ == (if content@.len() <= 100 { content@ } else { content@.subrange(0, 100) }) + "..."@,
{
    let chars = chars_of(content);
    let end = if chars.len() <= 100 { chars.len() } else { 100 };
    let mut p = crate::text::string_from_chars(&chars, 0, end);
    assert(chars@.subrange(0, chars@.len() as int) =~= chars@);
    push_str(&mut p, "...");
    p
}

} // verus!
