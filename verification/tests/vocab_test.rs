use shusei::db::Word;
use shusei::vocab::{
    export_csv_words, export_json_words, export_markdown_words, export_vocabulary_words, ExportFormat,
    WordExtractor,
};

#[test]
fn test_extract_english_words() {
    let extractor = WordExtractor::new().unwrap();
    let words = extractor.extract_words("Hello world this is a test");

    assert!(!words.is_empty());
    assert!(words.iter().any(|w| w.word == "hello"));
    assert!(words.iter().any(|w| w.word == "world"));
}

#[test]
fn test_extract_sentence() {
    let extractor = WordExtractor::new().unwrap();
    let text = "This is a test. Another sentence here.";

    let sentence = extractor.extract_sentence(text, "test");
    assert_eq!(sentence, Some("This is a test".to_string()));
}

#[test]
fn test_word_extractor_extract_sentence() {
    let extractor = WordExtractor::new().unwrap();
    let text = "This is a test sentence. Another sentence here.";
    let sentence = extractor.extract_sentence(text, "test");
    assert_eq!(sentence, Some("This is a test sentence".to_string()));
}

#[test]
fn test_export_markdown_words() {
    let words = vec![
        Word {
            id: 1,
            word: "test".to_string(),
            definition: Some("A procedure intended to establish the quality".to_string()),
            ai_generated: false,
            source_book_id: Some("book1".to_string()),
            source_page: Some(10),
            context_text: Some("This is a test sentence.".to_string()),
            created_at: 1000,
            updated_at: 1000,
        },
        Word {
            id: 2,
            word: "vocabulary".to_string(),
            definition: Some("A body of words".to_string()),
            ai_generated: false,
            source_book_id: None,
            source_page: None,
            context_text: Some("Building vocabulary is important.".to_string()),
            created_at: 2000,
            updated_at: 2000,
        },
    ];

    let md = export_markdown_words(&words);

    assert!(md.contains("# Vocabulary List"));
    assert!(md.contains("## test"));
    assert!(md.contains("## vocabulary"));
    assert!(md.contains("**Definition**: A procedure intended to establish the quality"));
    assert!(md.contains("**Example**: This is a test sentence."));
    assert!(md.contains("**Source**: Book book1 (p.10)"));
    assert!(md.contains("**Definition**: A body of words"));
}

#[test]
fn test_export_csv_words() {
    let words = vec![Word {
        id: 1,
        word: "test".to_string(),
        definition: Some("A procedure".to_string()),
        ai_generated: false,
        source_book_id: Some("book1".to_string()),
        source_page: Some(10),
        context_text: Some("Test sentence.".to_string()),
        created_at: 1000,
        updated_at: 1000,
    }];

    let csv = export_csv_words(&words);

    assert!(csv.contains("word,definition,example_sentence,source_book_id,source_page"));
    assert!(csv.contains("\"test\",\"A procedure\",\"Test sentence.\",\"book1\",\"10\""));
}

#[test]
fn test_export_json_words() {
    let words = vec![Word {
        id: 1,
        word: "test".to_string(),
        definition: Some("A procedure".to_string()),
        ai_generated: true,
        source_book_id: None,
        source_page: None,
        context_text: None,
        created_at: 1000,
        updated_at: 1000,
    }];

    let json = export_json_words(&words);

    assert!(json.contains("\"word\": \"test\""));
    assert!(json.contains("\"definition\": \"A procedure\""));
    assert!(json.contains("\"ai_generated\": true"));
}

#[test]
fn test_export_vocabulary_words() {
    let words = vec![Word {
        id: 1,
        word: "test".to_string(),
        definition: Some("Definition".to_string()),
        ai_generated: false,
        source_book_id: None,
        source_page: None,
        context_text: None,
        created_at: 1000,
        updated_at: 1000,
    }];

    let md = export_vocabulary_words(&words, ExportFormat::Markdown);
    assert!(md.contains("## test"));

    let csv = export_vocabulary_words(&words, ExportFormat::Csv);
    assert!(csv.contains("\"test\""));

    let json = export_vocabulary_words(&words, ExportFormat::Json);
    assert!(json.contains("\"word\": \"test\""));
}

#[test]
fn test_export_empty_list() {
    let words: Vec<Word> = vec![];

    let md = export_markdown_words(&words);
    assert_eq!(md, "# Vocabulary List\n\n");

    let csv = export_csv_words(&words);
    assert_eq!(csv, "word,definition,example_sentence,source_book_id,source_page\n");

    let json = export_json_words(&words);
    assert_eq!(json, "[]");
}

#[test]
fn test_export_functions() {
    let words = vec![Word {
        id: 1,
        word: "export_test".to_string(),
        definition: Some("Test definition".to_string()),
        ai_generated: false,
        source_book_id: Some("test_book".to_string()),
        source_page: Some(5),
        context_text: Some("This is an export test.".to_string()),
        created_at: 1000,
        updated_at: 1000,
    }];

    let md = export_vocabulary_words(&words, ExportFormat::Markdown);
    assert!(md.contains("# Vocabulary List"));
    assert!(md.contains("## export_test"));
    assert!(md.contains("**Definition**: Test definition"));
    assert!(md.contains("**Example**: This is an export test."));

    let csv = export_vocabulary_words(&words, ExportFormat::Csv);
    assert!(csv.contains("word,definition,example_sentence,source_book_id,source_page"));
    assert!(csv.contains("\"export_test\",\"Test definition\",\"This is an export test.\",\"test_book\",\"5\""));

    let json = export_vocabulary_words(&words, ExportFormat::Json);
    assert!(json.contains("\"word\": \"export_test\""));

    let empty: Vec<Word> = vec![];
    let md_empty = export_vocabulary_words(&empty, ExportFormat::Markdown);
    assert_eq!(md_empty, "# Vocabulary List\n\n");
}
