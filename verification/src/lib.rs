//! Shusei: the core of an offline reading companion.
//!
//! The library holds the parts of the reading app that decide and compute:
//! the book and vocabulary models, word extraction and vocabulary export,
//! the character tokenizer used for speech output, the bookkeeping of PDF
//! conversion, reading-order and recognition decoding rules of the OCR
//! pipeline, file naming for stored images, and the platform stubs.

pub mod text;
pub mod error;
pub mod db;
pub mod json;
pub mod vocab;
pub mod tokenizer;
pub mod models;
pub mod ocr;
pub mod stt;
pub mod storage;
pub mod pdf;
pub mod platform;
pub mod screens;
pub mod pages;
