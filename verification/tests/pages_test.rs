use shusei::pages::{
    check_ocr_start, check_page_save, last_read_key, ocr_button_label, ocr_result_body, page_blocks,
    page_number_from_input, page_save_error_message, page_saved_message, parse_u32, restore_page,
    save_page_button_label, tapped_word, word_save_toast, WordSaveOutcome, DEFAULT_FONT_SIZE,
};
use shusei::pages::{reading_page, word_delete_toast, WordDeleteOutcome};
use shusei::screens::ToastType;

#[test]
fn pages_split_into_paragraphs_and_headings() {
    let blocks = page_blocks("# Title \n\nFirst para\nline two\n\n   \n\n# # Sub\n\nlast");
    let shown: Vec<(bool, &str)> = blocks.iter().map(|b| (b.is_heading, b.text.as_str())).collect();
    assert_eq!(shown, vec![(true, "Title"), (false, "First para\nline two"), (true, "Sub"), (false, "last")]);
    assert!(page_blocks("").is_empty());
}

#[test]
fn reading_resumes_where_it_stopped() {
    assert_eq!(restore_page(Some(7), Some(3)), Some(7));
    assert_eq!(restore_page(Some(0), Some(3)), Some(3));
    assert_eq!(restore_page(None, None), None);
    assert_eq!(last_read_key(42), "last_read_book_42");
    assert_eq!(DEFAULT_FONT_SIZE, 18);
}

#[test]
fn tapped_words_keep_their_sentence() {
    let w = tapped_word("test".to_string(), 5, 2, "Hello world this is a test sentence.");
    assert_eq!(w.word, "test");
    assert_eq!(w.source_book_id, Some("5".to_string()));
    assert_eq!(w.source_page, Some(2));
    assert_eq!(w.context_text, Some("Hello world this is a test sentence".to_string()));
    assert!(!w.ai_generated);
    assert_eq!(word_save_toast(WordSaveOutcome::Saved), ("Word saved!".to_string(), ToastType::Success));
    assert_eq!(word_save_toast(WordSaveOutcome::AlreadySaved), ("Already saved".to_string(), ToastType::Info));
    assert_eq!(word_save_toast(WordSaveOutcome::TaskFailed("x".to_string())).0, "Error: x");
}

#[test]
fn page_numbers_are_positive_integers() {
    assert_eq!(parse_u32("12"), Some(12));
    assert_eq!(parse_u32("+7"), Some(7));
    assert_eq!(parse_u32("4294967295"), Some(4294967295));
    assert_eq!(parse_u32("4294967296"), None);
    assert_eq!(parse_u32(""), None);
    assert_eq!(parse_u32("+"), None);
    assert_eq!(parse_u32("1a"), None);
    assert_eq!(parse_u32("-1"), None);
    assert_eq!(page_number_from_input("0", 3), 3);
    assert_eq!(page_number_from_input("9", 3), 9);
    assert_eq!(page_number_from_input("x", 3), 3);
}

#[test]
fn capture_page_labels_and_checks() {
    assert_eq!(ocr_button_label(true, false, false), "Loading...");
    assert_eq!(ocr_button_label(false, true, true), "Processing...");
    assert_eq!(ocr_button_label(false, false, false), "Engine Loading...");
    assert_eq!(ocr_button_label(false, false, true), "🔍 Run OCR");
    assert_eq!(save_page_button_label(false, false), "💾 Save Page (run OCR first)");
    assert_eq!(check_page_save(&None, true).unwrap_err(), "No book ID - cannot save page");
    assert_eq!(check_page_save(&Some("b".to_string()), false).unwrap_err(), "No image data to save");
    assert!(check_page_save(&Some("b".to_string()), true).is_ok());
    assert_eq!(check_ocr_start(false, true).unwrap_err(), "No image captured");
    assert_eq!(check_ocr_start(true, false).unwrap_err(), "OCR engine not ready");
}

#[test]
fn capture_page_messages() {
    assert_eq!(page_saved_message(3, "text"), "✅ Page 3 saved successfully!\n\ntext");
    assert_eq!(
        page_save_error_message(3, "UNIQUE constraint failed: book_pages.book_id"),
        "Page 3 already exists for this book. Please use a different page number or overwrite."
    );
    assert_eq!(page_save_error_message(3, "disk full"), "Failed to save to database: disk full");
    assert_eq!(ocr_result_body("OCR Result (confidence: 85.3%):\nline1\r\nline2\n"), "line1\nline2");
    assert_eq!(ocr_result_body("only heading"), "");
    assert_eq!(ocr_result_body(""), "");
}

#[test]
fn deleting_a_word_tells_how_it_went() {
    assert_eq!(word_delete_toast(WordDeleteOutcome::Deleted), ("Word deleted".to_string(), ToastType::Success));
    assert_eq!(
        word_delete_toast(WordDeleteOutcome::Failed("locked".to_string())),
        ("Failed to delete: locked".to_string(), ToastType::Error)
    );
    assert_eq!(
        word_delete_toast(WordDeleteOutcome::TaskFailed),
        ("Failed to delete word".to_string(), ToastType::Error)
    );
}

#[test]
fn reading_page_stays_within_the_book() {
    assert_eq!(reading_page(3, 10), Some(3));
    assert_eq!(reading_page(42, 10), Some(10));
    assert_eq!(reading_page(0, 10), Some(1));
    assert_eq!(reading_page(-5, 1), Some(1));
    assert_eq!(reading_page(5, 0), None);
}
