use shusei::db::{Book, Word};
use shusei::pdf::PdfMetadata;
use shusei::screens::{
    book_form_is_valid, book_form_submit_label, book_from_form, conversion_button_label, empty_library_message,
    export_toast, filter_books, imported_pdf_book, is_success_message, needs_conversion, note_preview,
    picked_file_title, remove_word, review_metadata, search_words, word_source_line, LibraryFilter, ToastType,
};
use shusei::vocab::ExportFormat;

fn book(id: &str, title: &str, is_pdf: bool, captured: i32, total: Option<i32>) -> Book {
    Book {
        id: id.to_string(),
        title: title.to_string(),
        author: "Author".to_string(),
        cover_path: None,
        pages_captured: captured,
        total_pages: total,
        last_opened_at: None,
        created_at: 1234567890,
        updated_at: 1234567890,
        is_pdf,
        pdf_path: None,
    }
}

fn word(id: i64, text: &str) -> Word {
    Word {
        id,
        word: text.to_string(),
        definition: None,
        ai_generated: false,
        source_book_id: None,
        source_page: None,
        context_text: None,
        created_at: 1000,
        updated_at: 1000,
    }
}

#[test]
fn test_library_screen_shows_book_list_when_loaded() {
    let books = vec![Book {
        id: "1".to_string(),
        title: "Test Book".to_string(),
        author: "Test Author".to_string(),
        cover_path: None,
        pages_captured: 0,
        total_pages: None,
        last_opened_at: None,
        created_at: 1234567890,
        updated_at: 1234567890,
        is_pdf: false,
        pdf_path: None,
    }];
    assert_eq!(books.len(), 1);
    assert_eq!(books[0].title, "Test Book");
}

#[test]
fn test_book_card_shows_title_and_author() {
    let book = Book {
        id: "1".to_string(),
        title: "Test Book".to_string(),
        author: "Test Author".to_string(),
        cover_path: None,
        pages_captured: 0,
        total_pages: None,
        last_opened_at: None,
        created_at: 1234567890,
        updated_at: 1234567890,
        is_pdf: false,
        pdf_path: None,
    };

    assert_eq!(book.title, "Test Book");
    assert_eq!(book.author, "Test Author");
}

#[test]
fn test_submit_disabled_when_title_empty() {
    let title = String::new();
    let author = "Author".to_string();
    let is_valid = book_form_is_valid(&title, &author);
    assert!(!is_valid, "Should be invalid when title is empty");
}

#[test]
fn test_submit_disabled_when_author_empty() {
    let title = "Title".to_string();
    let author = String::new();
    let is_valid = book_form_is_valid(&title, &author);
    assert!(!is_valid, "Should be invalid when author is empty");
}

#[test]
fn test_submit_enabled_when_both_fields_filled() {
    let title = "Title".to_string();
    let author = "Author".to_string();
    let is_valid = book_form_is_valid(&title, &author);
    assert!(is_valid, "Should be valid when both fields are filled");
}

#[test]
fn library_filters() {
    let books = vec![book("1", "A", true, 0, Some(3)), book("2", "B", false, 0, None), book("3", "C", true, 3, Some(3))];
    assert_eq!(filter_books(books.clone(), LibraryFilter::All), books);
    let pdfs = filter_books(books.clone(), LibraryFilter::PdfsOnly);
    assert_eq!(pdfs.iter().map(|b| b.id.as_str()).collect::<Vec<_>>(), vec!["1", "3"]);
    let physical = filter_books(books, LibraryFilter::PhysicalOnly);
    assert_eq!(physical.iter().map(|b| b.id.as_str()).collect::<Vec<_>>(), vec!["2"]);
    assert_eq!(empty_library_message(LibraryFilter::All), "No books yet");
    assert_eq!(empty_library_message(LibraryFilter::PdfsOnly), "No PDF books");
    assert_eq!(empty_library_message(LibraryFilter::PhysicalOnly), "No physical books");
}

#[test]
fn book_cards_offer_conversion_for_unfinished_pdfs() {
    assert!(needs_conversion(&book("1", "A", true, 0, Some(3))));
    assert!(needs_conversion(&book("1", "A", true, 2, Some(3))));
    assert!(!needs_conversion(&book("1", "A", true, 3, Some(3))));
    assert!(!needs_conversion(&book("1", "A", true, 0, Some(0))));
    assert!(!needs_conversion(&book("1", "A", true, 0, None)));
    assert!(!needs_conversion(&book("1", "A", false, 0, Some(3))));
    assert_eq!(conversion_button_label(&book("1", "A", true, 0, Some(3))), "Convert");
    assert_eq!(conversion_button_label(&book("1", "A", true, 1, Some(3))), "Resume Conversion");
}

#[test]
fn pdf_import_records() {
    let metadata = PdfMetadata {
        title: None,
        author: None,
        subject: None,
        creator: None,
        producer: None,
        page_count: 12,
    };
    let review = review_metadata(metadata, picked_file_title(Some("novel".to_string())));
    assert_eq!(review.title, "novel");
    assert_eq!(review.author, "");
    assert_eq!(review.page_count, 12);
    assert_eq!(picked_file_title(None), "Unknown");
    let record = imported_pdf_book(review.title, review.author, review.page_count, "pdfs/x.pdf".to_string());
    assert_eq!(record.id.as_ref().map(|id| id.len()), Some(36));
    assert_eq!(record.total_pages, Some(12));
    assert!(record.is_pdf);
    assert_eq!(record.pdf_path, Some("pdfs/x.pdf".to_string()));
    assert!(is_success_message("✓ PDF imported successfully"));
    assert!(!is_success_message("Failed to import PDF"));
}

#[test]
fn new_book_form() {
    assert_eq!(book_from_form("".to_string(), "A".to_string()).unwrap_err(), "Title and author are required");
    let b = book_from_form("T".to_string(), "A".to_string()).unwrap();
    assert_eq!(b.title, "T");
    assert_eq!(b.author, "A");
    assert_eq!(b.id, None);
    assert_eq!(book_form_submit_label(true), "Saving...");
    assert_eq!(book_form_submit_label(false), "Add Book");
}

#[test]
fn vocabulary_search_and_delete() {
    let words = vec![word(1, "Apple"), word(2, "banana"), word(3, "PineAPPLE")];
    let found = search_words(words.clone(), "apple");
    assert_eq!(found.iter().map(|w| w.id).collect::<Vec<_>>(), vec![1, 3]);
    assert_eq!(search_words(words.clone(), "").len(), 3);
    let left = remove_word(words, 2);
    assert_eq!(left.iter().map(|w| w.id).collect::<Vec<_>>(), vec![1, 3]);
}

#[test]
fn export_toasts_and_sources() {
    assert_eq!(export_toast(0, ExportFormat::Csv), ("No words to export".to_string(), ToastType::Info));
    assert_eq!(export_toast(2, ExportFormat::Markdown), ("Exported 2 words as Markdown".to_string(), ToastType::Success));
    assert_eq!(export_toast(1, ExportFormat::Csv).0, "Exported 1 words as CSV");
    let mut w = word(1, "x");
    assert_eq!(word_source_line(&w), None);
    w.source_book_id = Some("b".to_string());
    assert_eq!(word_source_line(&w), Some("From: Book b".to_string()));
    w.source_page = Some(4);
    assert_eq!(word_source_line(&w), Some("From: Book b (p.4)".to_string()));
    assert_eq!(ToastType::Success.icon(), "✓");
    assert_eq!(ToastType::Error.color_class(), "bg-red-500");
}

#[test]
fn note_previews_cut_at_a_hundred_characters() {
    assert_eq!(note_preview("short"), "short...");
    let long = "あ".repeat(150);
    assert_eq!(note_preview(&long), format!("{}...", "あ".repeat(100)));
}
