use typr_lib::settings::legacy_v1;
use typr_lib::settings::schema::{
    default_email_draft_engine, default_email_draft_model, default_overlay_size, Settings,
};

#[test]
fn default_matches_spec_defaults() {
    let s = Settings::default();
    assert_eq!(s.schema_version, 3);
    assert_eq!(s.microphone, "default");
    assert_eq!(s.transcription.engine, "local");
    assert_eq!(s.transcription.whisper_model, "turbo");
    assert_eq!(s.transcription.email_draft_engine, "ollama");
    assert_eq!(s.transcription.email_draft_model, "llama3.2:1b");
    assert_eq!(s.transcription.languages, vec!["pt", "en"]);
    assert!(s.transcription.auto_detect);
    assert_eq!(s.transcription.gpu_acceleration, "auto");
    assert!(s.transcription.vad_enabled);
    assert!((f64::from_bits(s.transcription.no_speech_threshold_bits) - 0.6).abs() < 1e-9);
    assert_eq!(s.hotkeys.dictation, "F24");
    assert_eq!(s.hotkeys.command_mode, "Pause");
    assert_eq!(s.hotkeys.recording_mode, "push-to-talk");
    assert_eq!(s.overlay.style, "capsule");
    assert_eq!(s.overlay.size, "medium");
    assert_eq!(s.data.word_count_cap, 500_000);
    assert!(s.data.purge_on_exceed);
    assert_eq!(s.ui.theme, "system");
    assert_eq!(s.formatting.filler_words, vec!["uh", "um", "né", "tipo"]);
}

#[test]
fn default_helpers() {
    assert_eq!(default_email_draft_engine(), "ollama");
    assert_eq!(default_email_draft_model(), "llama3.2:1b");
    assert_eq!(default_overlay_size(), "medium");
}

#[test]
fn test_default_settings() {
    let settings = legacy_v1::Settings::default();
    assert_eq!(settings.microphone, "default");
    assert_eq!(settings.engine, "local");
    assert_eq!(settings.whisper_model, "small");
    assert_eq!(settings.email_draft_engine, "ollama");
    assert_eq!(settings.email_draft_model, "llama3.2:1b");
    assert_eq!(settings.groq_api_key, "");
    assert_eq!(settings.recording_mode, "toggle");
    assert_eq!(settings.hotkey, "F24");
    assert_eq!(settings.command_hotkey, "Pause");
    assert_eq!(settings.overlay_style, "capsule");
    assert_eq!(settings.overlay_size, "medium");
}
