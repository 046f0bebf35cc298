use typr_lib::settings::adapter::{apply_v1_payload, key_from_read, to_v1_view};
use typr_lib::settings::keyring::KeyringError;
use typr_lib::settings::keyring::MockBackend;
use typr_lib::settings::legacy_v1;
use typr_lib::settings::migrations::{V1Document, V1Fields};
use typr_lib::settings::schema::Settings;
use typr_lib::settings::{
    config_kind, migration_failed, plan_load, ConfigKind, MigrationEvent, StoredConfig,
    BACKUP_FILENAME, CONFIG_FILENAME, FRESH_INSTALL_STAMP, SETTINGS_VERSION_KEY, SETTINGS_VERSION_STAMP,
};

fn payload() -> legacy_v1::Settings {
    legacy_v1::Settings {
        microphone: "MicArray".to_string(),
        engine: "groq".to_string(),
        whisper_model: "base".to_string(),
        email_draft_engine: "groq".to_string(),
        email_draft_model: "llama-3.1-8b-instant".to_string(),
        groq_api_key: "sk-rt".to_string(),
        recording_mode: "push-to-talk".to_string(),
        hotkey: "Shift+F12".to_string(),
        command_hotkey: "F10".to_string(),
        overlay_style: "orb".to_string(),
        overlay_size: "large".to_string(),
    }
}

#[test]
fn to_v1_view_with_empty_keyring_reports_empty_key() {
    let v2 = Settings::default();
    let kr = MockBackend::new();
    let v1 = to_v1_view(&v2, &kr);
    assert_eq!(v1.groq_api_key, "");
    assert_eq!(v1.microphone, v2.microphone);
    assert_eq!(v1.engine, v2.transcription.engine);
    assert_eq!(v1.whisper_model, v2.transcription.whisper_model);
    assert_eq!(v1.recording_mode, v2.hotkeys.recording_mode);
    assert_eq!(v1.hotkey, v2.hotkeys.dictation);
}

#[test]
fn to_v1_view_pulls_secret_from_keyring() {
    let v2 = Settings::default();
    let kr = MockBackend::with_secret("sk-live-42");
    assert_eq!(to_v1_view(&v2, &kr).groq_api_key, "sk-live-42");
}

#[test]
fn apply_v1_payload_writes_secret_when_present() {
    let mut v2 = Settings::default();
    let mut kr = MockBackend::new();
    let mut p = payload();
    p.microphone = "Built-in".into();
    p.engine = "cloud".into();
    p.whisper_model = "large-v3".into();
    p.groq_api_key = "sk-new".into();
    p.recording_mode = "toggle".into();
    p.hotkey = "F9".into();
    apply_v1_payload(&mut v2, p, &mut kr).unwrap();
    assert_eq!(v2.microphone, "Built-in");
    assert_eq!(v2.transcription.engine, "cloud");
    assert_eq!(v2.transcription.whisper_model, "large-v3");
    assert_eq!(v2.hotkeys.recording_mode, "toggle");
    assert_eq!(v2.hotkeys.dictation, "F9");
    assert_eq!(kr.peek().as_deref(), Some("sk-new"));
}

#[test]
fn apply_v1_payload_with_empty_key_clears_keyring() {
    let mut v2 = Settings::default();
    let mut kr = MockBackend::with_secret("sk-stale");
    let mut p = to_v1_view(&v2, &MockBackend::new());
    p.groq_api_key = String::new();
    apply_v1_payload(&mut v2, p, &mut kr).unwrap();
    assert_eq!(kr.peek(), None);
}

#[test]
fn apply_v1_payload_preserves_v2_only_fields() {
    let mut v2 = Settings::default();
    v2.overlay.position = "top-left".to_string();
    v2.data.word_count_cap = 12_345;
    v2.ui.theme = "dark".to_string();
    v2.transcription.languages = vec!["fr".to_string()];
    let mut kr = MockBackend::new();
    let v1_view = to_v1_view(&v2, &kr);
    let mut v2_after = v2.clone();
    apply_v1_payload(&mut v2_after, v1_view, &mut kr).unwrap();
    assert_eq!(v2_after.overlay.position, "top-left");
    assert_eq!(v2_after.data.word_count_cap, 12_345);
    assert_eq!(v2_after.ui.theme, "dark");
    assert_eq!(v2_after.transcription.languages, vec!["fr"]);
    assert_eq!(v2_after, v2);
}

#[test]
fn round_trip_preserves_v1_fields() {
    let mut v2 = Settings::default();
    let mut kr = MockBackend::new();
    let original = payload();
    apply_v1_payload(&mut v2, original.clone(), &mut kr).unwrap();
    let projected = to_v1_view(&v2, &kr);
    assert_eq!(projected, original);
}

#[test]
fn constants_and_kinds() {
    assert_eq!(CONFIG_FILENAME, "config.json");
    assert_eq!(BACKUP_FILENAME, "config.json.v1.bak");
    assert_eq!(SETTINGS_VERSION_KEY, "settings_version");
    assert_eq!(config_kind(3), ConfigKind::Current);
    assert_eq!(config_kind(2), ConfigKind::V2);
    assert_eq!(config_kind(1), ConfigKind::V1);
    assert_eq!(config_kind(99), ConfigKind::Unknown);
    assert_eq!(config_kind(0), ConfigKind::Unknown);
}

/// A fresh install writes the defaults (schema version 3) and records the
/// fresh-install stamp, "2".
#[test]
fn fresh_install_writes_default_v2() {
    let mut kr = MockBackend::new();
    let plan = plan_load(StoredConfig::Missing, &mut kr);
    assert_eq!(plan.outcome.settings, Settings::default());
    assert!(plan.outcome.events.is_empty());
    assert!(plan.write_settings);
    assert!(!plan.backup_first);
    assert_eq!(plan.outcome.settings.schema_version, 3);
    assert_eq!(plan.stamp, Some("2"));
    assert_eq!(FRESH_INSTALL_STAMP, "2");
}

#[test]
fn v1_fixture_migrates_full_lifecycle() {
    let doc = V1Document::Object(V1Fields {
        microphone: Some("Stream Deck Mic".into()),
        engine: Some("groq".into()),
        whisper_model: Some("medium".into()),
        groq_api_key: Some("sk-legacy-42".into()),
        recording_mode: Some("push-to-talk".into()),
        hotkey: Some("F13".into()),
    });
    let mut kr = MockBackend::new();
    let plan = plan_load(StoredConfig::V1(doc), &mut kr);
    let s = &plan.outcome.settings;
    assert_eq!(s.schema_version, 3);
    assert_eq!(s.microphone, "Stream Deck Mic");
    assert_eq!(s.transcription.engine, "groq");
    assert_eq!(s.transcription.whisper_model, "turbo");
    assert_eq!(s.hotkeys.dictation, "F13");
    assert_eq!(s.hotkeys.recording_mode, "push-to-talk");
    assert_eq!(kr.peek().as_deref(), Some("sk-legacy-42"));
    assert!(plan.backup_first && plan.write_settings);
    assert_eq!(plan.stamp, Some("3"));
    assert_eq!(plan.stamp, Some(SETTINGS_VERSION_STAMP));
    assert_eq!(
        plan.outcome.events,
        vec![
            MigrationEvent::Migrated,
            MigrationEvent::ModelRemapped { from: "medium".into(), to: "turbo".into() },
            MigrationEvent::NeedsGroqKey,
        ]
    );
    let again = plan_load(StoredConfig::Current(plan.outcome.settings.clone()), &mut kr);
    assert!(again.outcome.events.is_empty());
    assert!(!again.write_settings);
    assert_eq!(again.outcome.settings, plan.outcome.settings);
}

#[test]
fn load_v2_with_medium_writes_v3_and_remaps_to_turbo() {
    let mut s = Settings::default();
    s.schema_version = 2;
    s.transcription.whisper_model = "medium".into();
    let mut kr = MockBackend::new();
    let plan = plan_load(StoredConfig::V2(s), &mut kr);
    assert_eq!(plan.outcome.settings.schema_version, 3);
    assert_eq!(plan.outcome.settings.transcription.whisper_model, "turbo");
    assert!(plan.write_settings);
    assert_eq!(plan.stamp, None);
    assert_eq!(
        plan.outcome.events,
        vec![MigrationEvent::ModelRemapped { from: "medium".into(), to: "turbo".into() }]
    );
}

#[test]
fn failed_migration_preserves_backup() {
    let mut kr = MockBackend::new();
    let plan = plan_load(StoredConfig::V1(V1Document::NotObject), &mut kr);
    assert!(plan.backup_first);
    assert!(!plan.write_settings);
    assert_eq!(plan.stamp, None);
    assert_eq!(
        plan.outcome.events,
        vec![MigrationEvent::MigrationFailed(
            "settings JSON is malformed: root is not an object".into()
        )]
    );
    let o = migration_failed("disk full".into());
    assert_eq!(o.settings, Settings::default());
    assert_eq!(o.events, vec![MigrationEvent::MigrationFailed("disk full".into())]);
}

#[test]
fn unknown_version_keeps_file_and_emits_event() {
    let mut kr = MockBackend::new();
    let plan = plan_load(StoredConfig::Unknown(99), &mut kr);
    assert_eq!(plan.outcome.events, vec![MigrationEvent::UnknownVersion(99)]);
    assert!(!plan.write_settings && !plan.backup_first);
    assert_eq!(plan.stamp, None);
    assert_eq!(plan.outcome.settings, Settings::default());
}

#[test]
fn v1_without_groq_key_skips_needs_groq_event() {
    let doc = V1Document::Object(V1Fields {
        microphone: None,
        engine: None,
        whisper_model: Some("turbo".into()),
        recording_mode: None,
        hotkey: Some("F24".into()),
        groq_api_key: None,
    });
    let mut kr = MockBackend::new();
    let plan = plan_load(StoredConfig::V1(doc), &mut kr);
    assert_eq!(plan.outcome.events, vec![MigrationEvent::Migrated]);
    assert_eq!(kr.peek(), None);
}

#[test]
fn load_v3_passes_through_untouched() {
    let mut def = Settings::default();
    def.transcription.whisper_model = "large-v3".into();
    let mut kr = MockBackend::new();
    let plan = plan_load(StoredConfig::Current(def.clone()), &mut kr);
    assert_eq!(plan.outcome.settings.transcription.whisper_model, "large-v3");
    assert_eq!(plan.outcome.settings, def);
    assert!(!plan.write_settings, "v3 load must not rewrite file");
    assert!(!plan.backup_first);
    assert!(plan.outcome.events.is_empty());
}

#[test]
fn key_from_read_shows_the_read_secret() {
    assert_eq!(key_from_read(Ok(Some("sk-1".to_string()))), "sk-1");
    assert_eq!(key_from_read(Ok(None)), "");
    assert_eq!(key_from_read(Err(KeyringError::AccessDenied)), "");
}
