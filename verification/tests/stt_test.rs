use shusei::error::{ShuseiError, SttError};
use shusei::stt::{transcript_text, DecoderState, KvCache, Language, SttConfig};

#[test]
fn test_kv_cache_new() {
    let cache: KvCache<Vec<f32>> = KvCache::new(4, 8, 64, 512);
    assert!(cache.is_empty());
    assert_eq!(cache.seq_len(), 0);
}

#[test]
fn test_decoder_state() {
    let cache: KvCache<Vec<f32>> = KvCache::new(4, 8, 64, 512);
    let state = DecoderState::new(cache);
    assert_eq!(state.position, 0);
    assert!(state.tokens.is_empty());
    assert!(!state.finished);
}

#[test]
fn stt_defaults() {
    let config = SttConfig::default();
    assert_eq!(config.max_duration_seconds, 30);
    assert_eq!(config.sample_rate, 16000);
    assert_eq!(config.channels, 1);
    assert_eq!(config.language, Language::Japanese);
    assert_eq!(config.max_decoder_steps, 512);
    assert_eq!(Language::default(), Language::Japanese);
}

#[test]
fn cache_keeps_at_most_its_capacity() {
    let mut cache: KvCache<Vec<f32>> = KvCache::new(2, 1, 1, 3);
    let keys = vec![vec![1.0], vec![2.0]];
    let values = vec![vec![10.0]];
    cache.append(0, &keys, &values).unwrap();
    assert_eq!(cache.seq_len(), 2);
    cache.append(0, &keys, &values).unwrap();
    assert_eq!(cache.seq_len(), 3);
    assert!(!cache.is_empty());
    cache.append(1, &keys, &values).unwrap();
    cache.clear();
    assert!(cache.is_empty());
    assert_eq!(cache.seq_len(), 0);
}

#[test]
fn cache_rejects_a_missing_layer() {
    let mut cache: KvCache<Vec<f32>> = KvCache::new(2, 1, 1, 3);
    let err = cache.append(5, &[vec![1.0]], &[]).unwrap_err();
    assert_eq!(
        err,
        shusei::error::ShuseiError::Stt(shusei::error::SttError::KvCache("Invalid layer index: 5 >= 2".to_string()))
    );
}

#[test]
fn decoding_stops_at_eos_or_step_limit() {
    let mut state = DecoderState::new(KvCache::<Vec<f32>>::new(1, 1, 1, 4));
    assert!(!state.should_stop(2, 3));
    state.append_token(7);
    assert!(!state.should_stop(2, 3));
    state.append_token(2);
    assert!(state.should_stop(2, 3));
    state.append_token(5);
    assert!(state.should_stop(2, 3));
    assert_eq!(state.position, 3);
}

#[test]
fn transcript_placeholder_text() {
    assert_eq!(transcript_text(&[]), "");
    assert_eq!(transcript_text(&[4, 5, 6]), "[3 tokens]");
}

#[test]
fn speech_engine_files_and_guard() {
    assert_eq!(
        shusei::stt::stt_model_files("m/"),
        ("m/encoder.onnx".to_string(), "m/decoder.onnx".to_string())
    );
    assert!(shusei::stt::check_stt_engine_initialized(true).is_ok());
    assert_eq!(
        shusei::stt::check_stt_engine_initialized(false),
        Err(shusei::error::ShuseiError::Stt(shusei::error::SttError::Decoder("Engine not initialized".to_string())))
    );
}

#[test]
fn audio_framing() {
    assert_eq!(
        shusei::stt::check_audio_length(0, 400),
        Err(ShuseiError::Stt(SttError::Preprocessing("Empty audio input".to_string())))
    );
    assert_eq!(
        shusei::stt::check_audio_length(100, 400),
        Err(ShuseiError::Stt(SttError::Preprocessing("Audio too short: 100 samples (minimum: 400)".to_string())))
    );
    assert!(shusei::stt::check_audio_length(400, 400).is_ok());
    assert_eq!(shusei::stt::frame_count(16000, 400, 160), 98);
    assert_eq!(shusei::stt::frame_count(400, 400, 160), 1);
}
