//! Records of the application's database.
//!
//! These are the rows that the database stores: sticky notes, books, book
//! pages' progress and vocabulary words, with the shapes used to create and
//! update them.
use vstd::prelude::*;

verus! {

/// A sticky note.
#[derive(Debug, Clone, PartialEq)]
pub struct StickyNote {
    pub id: i64,
    pub created_at: String,
    pub updated_at: String,
    pub image_path: Option<String>,
    pub ocr_markdown: Option<String>,
    pub voice_transcript: Option<String>,
    pub book_title: Option<String>,
    pub page_number: Option<i32>,
    pub user_memo: Option<String>,
    pub tags: Option<String>,
    pub ocr_text_plain: Option<String>,
}

/// A sticky note to create.
#[derive(Debug, Clone, Default)]
pub struct NewStickyNote {
    pub image_path: Option<String>,
    pub ocr_markdown: Option<String>,
    pub voice_transcript: Option<String>,
    pub book_title: Option<String>,
    pub page_number: Option<i32>,
    pub user_memo: Option<String>,
    pub tags: Option<String>,
    pub ocr_text_plain: Option<String>,
}

/// A partial update of a sticky note: `None` keeps the stored value.
#[derive(Debug, Clone, Default)]
pub struct UpdateStickyNote {
    pub image_path: Option<String>,
    pub ocr_markdown: Option<String>,
    pub voice_transcript: Option<String>,
    pub book_title: Option<String>,
    pub page_number: Option<i32>,
    pub user_memo: Option<String>,
    pub tags: Option<String>,
    pub ocr_text_plain: Option<String>,
}

/// A book of the library, as the database stores it.
#[derive(Debug, Clone, PartialEq)]
pub struct Book {
    pub id: String,
    pub title: String,
    pub author: String,
    pub cover_path: Option<String>,
    pub pages_captured: i32,
    pub total_pages: Option<i32>,
    pub last_opened_at: Option<i64>,
    pub created_at: i64,
    pub updated_at: i64,
    pub is_pdf: bool,
    pub pdf_path: Option<String>,
}

/// A book to create; without an id the database makes one.
#[derive(Debug, Clone, Default)]
pub struct NewBook {
    pub id: Option<String>,
    pub title: String,
    pub author: String,
    pub cover_path: Option<String>,
    pub pages_captured: i32,
    pub total_pages: Option<i32>,
    pub last_opened_at: Option<i64>,
    pub is_pdf: bool,
    pub pdf_path: Option<String>,
}

/// A partial update of a book.
#[derive(Debug, Clone, Default)]
pub struct UpdateBook {
    pub title: Option<String>,
    pub author: Option<String>,
    pub cover_path: Option<String>,
    pub pages_captured: Option<i32>,
    pub total_pages: Option<i32>,
    pub last_opened_at: Option<i64>,
    pub is_pdf: Option<bool>,
}

/// How far the conversion of a PDF book has come.
#[derive(Debug, Clone)]
pub struct ProcessingProgress {
    pub book_id: String,
    pub last_processed_page: i32,
    pub total_pages: i32,
    pub status: String,
    pub updated_at: i64,
}

/// A word to add to the vocabulary list.
#[derive(Debug, Clone)]
pub struct NewWord {
    pub word: String,
    pub definition: Option<String>,
    pub ai_generated: bool,
    pub source_book_id: Option<String>,
    pub source_page: Option<i32>,
    pub context_text: Option<String>,
}

/// A word of the vocabulary list.
#[derive(Debug, Clone, PartialEq)]
pub struct Word {
    pub id: i64,
    pub word: String,
    pub definition: Option<String>,
    pub ai_generated: bool,
    pub source_book_id: Option<String>,
    pub source_page: Option<i32>,
    pub context_text: Option<String>,
    pub created_at: i64,
    pub updated_at: i64,
}

} // verus!
