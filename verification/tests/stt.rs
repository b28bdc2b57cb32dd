use lindiction::stt::{
    finish_transcript, is_non_speech_marker, use_gpu, Strategy, SttEngine, SttError,
};

#[test]
fn marker_filter_catches_known_whisper_sentinels() {
    assert!(is_non_speech_marker("[BLANK_AUDIO]"));
    assert!(is_non_speech_marker("[SILENCE]"));
    assert!(is_non_speech_marker("[NOISE]"));
    assert!(is_non_speech_marker("[MUSIC]"));
    assert!(is_non_speech_marker("[APPLAUSE]"));
    assert!(is_non_speech_marker("[INAUDIBLE SPEECH]"));
}

#[test]
fn marker_filter_preserves_real_speech() {
    assert!(!is_non_speech_marker("[hello]"));
    assert!(!is_non_speech_marker("[123]"));
    assert!(!is_non_speech_marker("Hello world."));
    assert!(!is_non_speech_marker("[BLANK_AUDIO] extra"));
    assert!(!is_non_speech_marker("[]"));
    assert!(!is_non_speech_marker(""));
}

#[test]
fn segments_are_joined_and_trimmed() {
    let segments = |list: &[&str]| list.iter().map(|s| s.to_string()).collect::<Vec<String>>();
    assert_eq!(
        finish_transcript(&segments(&[" Hello", " there. ", "\n"])),
        "Hello there."
    );
    assert_eq!(finish_transcript(&segments(&[" [BLANK", "_AUDIO] "])), "");
    assert_eq!(finish_transcript(&segments(&[])), "");
    assert_eq!(finish_transcript(&segments(&["[É]"])), "[É]");
}

#[test]
fn beam_size_is_kept_within_bounds() {
    let beam = |n: u32| {
        SttEngine::load("/m.bin", true, n, String::new())
            .unwrap()
            .beam_size
    };
    assert_eq!(beam(0), 1);
    assert_eq!(beam(5), 5);
    assert_eq!(beam(u32::MAX), i32::MAX);
}

#[test]
fn missing_models_come_with_a_download_hint() {
    let err = SttEngine::load("/m.bin", false, 5, String::new()).unwrap_err();
    let SttError::ModelNotFound { path } = &err;
    assert_eq!(path, "/m.bin");
    assert_eq!(
        err.message(),
        "Model not found: /m.bin. Download with:\n  \
         curl -L -o ~/.local/share/lindiction/models/ggml-small.en.bin \
         https://huggingface.co/ggerganov/whisper.cpp/resolve/main/ggml-small.en.bin"
    );
}

#[test]
fn decoding_follows_the_settings() {
    let engine = SttEngine::load("/m.bin", true, 5, "Rust, tokio".to_string()).unwrap();
    assert!(engine.plan(0).is_none());
    let plan = engine.plan(1).unwrap();
    assert_eq!(plan.strategy, Strategy::BeamSearch(5));
    assert_eq!(plan.prompt.as_deref(), Some("Rust, tokio"));
    let greedy = SttEngine::load("/m.bin", true, 1, String::new()).unwrap();
    let plan = greedy.plan(1).unwrap();
    assert_eq!(plan.strategy, Strategy::Greedy);
    assert_eq!(plan.prompt, None);
    assert!(!use_gpu());
}
