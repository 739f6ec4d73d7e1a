use shusei::tokenizer::SimpleTokenizer;

#[test]
fn test_simple_tokenizer_japanese() {
    let tokenizer = SimpleTokenizer::new_japanese();

    let text = "こんにちは";
    let encoded = tokenizer.encode(text);
    let decoded = tokenizer.decode(&encoded);

    assert!(!encoded.is_empty() || text.is_empty());
    assert_eq!(decoded, "こんにちは");
}

#[test]
fn test_simple_tokenizer_eos() {
    let tokenizer = SimpleTokenizer::new_japanese();
    assert_eq!(tokenizer.eos_token_id(), 2);
}

#[test]
fn ids_follow_the_table_order() {
    let tokenizer = SimpleTokenizer::new_japanese();
    assert_eq!(tokenizer.encode("<>あいアン"), vec![0, 1, 2, 3, 73, 118]);
}

#[test]
fn unknown_characters_and_ids_are_skipped() {
    let tokenizer = SimpleTokenizer::new_japanese();
    assert_eq!(tokenizer.encode("aこx漢ん"), tokenizer.encode("こん"));
    assert_eq!(tokenizer.decode(&[-1, 2, 500, 3]), "あい");
}

#[test]
fn decoding_an_encoding_keeps_the_known_characters() {
    let tokenizer = SimpleTokenizer::new_japanese();
    let ids = tokenizer.encode("カタカナ and ひらがな!");
    assert_eq!(tokenizer.decode(&ids), "カタカナひらがな");
}

const WORD_LEVEL: &str = r#"{"model":{"type":"WordLevel","vocab":{"[UNK]":0,"hello":1,"world":2},"unk_token":"[UNK]"},"pre_tokenizer":{"type":"Whitespace"}}"#;

#[test]
fn model_tokenizer_reads_its_definition() {
    let tokenizer = shusei::tokenizer::Tokenizer::from_bytes(WORD_LEVEL.as_bytes()).unwrap();
    assert_eq!(tokenizer.encode("hello world").unwrap(), vec![1, 2]);
    assert_eq!(tokenizer.decode(&[2, 1]).unwrap(), "world hello");
    assert_eq!(tokenizer.vocab_size(), 3);
    assert_eq!(tokenizer.id_to_token(1), Some("hello".to_string()));
    assert_eq!(tokenizer.id_to_token(7), None);
    assert_eq!(tokenizer.token_to_id("world"), Some(2));
    assert_eq!(tokenizer.token_to_id("nope"), None);
    assert_eq!(tokenizer.eos_token_id(), 2);
    assert_eq!(tokenizer.bos_token_id(), 1);
}

#[test]
fn model_tokenizer_rejects_a_broken_definition() {
    match shusei::tokenizer::Tokenizer::from_bytes(b"{}") {
        Err(shusei::error::ShuseiError::Stt(shusei::error::SttError::Tokenization(m))) => {
            assert!(m.starts_with("Failed to load tokenizer: "))
        }
        _ => panic!("expected a tokenization error"),
    }
}

#[test]
fn tokenizer_ids_become_model_ids() {
    assert_eq!(shusei::tokenizer::to_model_ids(&[1, 2, 30000]), vec![1, 2, 30000]);
    assert_eq!(shusei::tokenizer::to_model_ids(&[u32::MAX]), vec![-1]);
    assert!(shusei::tokenizer::to_model_ids(&[]).is_empty());
}

#[test]
fn encoding_a_decoding_skips_unknown_ids() {
    let tokenizer = SimpleTokenizer::new_japanese();
    let ids = vec![5, 200, -1, 0, 118, 73];
    let text = tokenizer.decode(&ids);
    assert_eq!(tokenizer.encode(&text), vec![5, 0, 118, 73]);
}

#[test]
fn model_ids_become_tokenizer_ids() {
    assert_eq!(shusei::tokenizer::to_vocab_ids(&[0, 7, 30000]), vec![0u32, 7, 30000]);
    assert_eq!(shusei::tokenizer::to_vocab_ids(&[-1]), vec![u32::MAX]);
    assert!(shusei::tokenizer::to_vocab_ids(&[]).is_empty());
}
