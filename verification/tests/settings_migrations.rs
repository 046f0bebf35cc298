use typr_lib::settings::keyring::MockBackend;
use typr_lib::settings::migrations::{
    after_key_write, detect_version, migrate_v1_to_v2, migrate_v2_to_v3, prepare_v1_migration,
    remap_whisper_model, MigrationError, MigrationOutcome, V1Document, V1Fields, VersionField,
};
use typr_lib::settings::keyring::{KeyringBackend, KeyringError};
use typr_lib::settings::schema::Settings;

fn fields() -> V1Fields {
    V1Fields {
        microphone: None,
        engine: None,
        whisper_model: None,
        recording_mode: None,
        hotkey: None,
        groq_api_key: None,
    }
}

#[test]
fn detect_v1_when_schema_version_absent() {
    assert_eq!(detect_version(VersionField::Absent), 1);
}

#[test]
fn detect_v2_when_schema_version_present() {
    assert_eq!(detect_version(VersionField::Number(Some(2))), 2);
}

#[test]
fn detect_zero_when_schema_version_is_string() {
    assert_eq!(detect_version(VersionField::Other), 0);
}

#[test]
fn detect_version_cuts_to_32_bits_and_rejects_non_integers() {
    assert_eq!(detect_version(VersionField::Number(Some((1u64 << 32) + 3))), 3);
    assert_eq!(detect_version(VersionField::Number(None)), 0);
}

#[test]
fn remap_table_matches_spec() {
    assert_eq!(remap_whisper_model("tiny"), "turbo");
    assert_eq!(remap_whisper_model("base"), "base");
    assert_eq!(remap_whisper_model("small"), "turbo");
    assert_eq!(remap_whisper_model("medium"), "turbo");
    assert_eq!(remap_whisper_model("large-v3"), "large-v3");
    assert_eq!(remap_whisper_model("turbo"), "turbo");
    assert_eq!(remap_whisper_model("unknown-garbage"), "turbo");
}

#[test]
fn migrates_full_v1_shape() {
    let v1 = V1Document::Object(V1Fields {
        microphone: Some("Stream Deck Mic".into()),
        engine: Some("groq".into()),
        whisper_model: Some("small".into()),
        groq_api_key: Some("sk-abc".into()),
        recording_mode: Some("toggle".into()),
        hotkey: Some("F13".into()),
    });
    let mut kr = MockBackend::new();
    let out = migrate_v1_to_v2(&v1, &mut kr).unwrap();
    assert_eq!(out.settings.microphone, "Stream Deck Mic");
    assert_eq!(out.settings.transcription.engine, "groq");
    assert_eq!(out.settings.transcription.whisper_model, "turbo");
    assert_eq!(out.settings.hotkeys.dictation, "F13");
    assert_eq!(out.settings.hotkeys.recording_mode, "toggle");
    assert_eq!(out.settings.schema_version, 2);
    assert_eq!(out.remapped_model, Some(("small".into(), "turbo".into())));
    assert!(out.had_groq_key_in_json);
    assert!(out.groq_key_migrated);
    assert_eq!(kr.peek().as_deref(), Some("sk-abc"));
}

#[test]
fn missing_fields_fall_back_to_default() {
    let v1 = V1Document::Object(fields());
    let mut kr = MockBackend::new();
    let out = migrate_v1_to_v2(&v1, &mut kr).unwrap();
    let def = Settings::default();
    assert_eq!(out.settings.microphone, def.microphone);
    assert_eq!(out.settings.hotkeys.dictation, def.hotkeys.dictation);
    assert!(out.remapped_model.is_some());
}

#[test]
fn missing_whisper_model_still_reports_remap_from_assumed_small() {
    let v1 = V1Document::Object(fields());
    let mut kr = MockBackend::new();
    let out = migrate_v1_to_v2(&v1, &mut kr).unwrap();
    assert_eq!(out.remapped_model, Some(("small".into(), "turbo".into())));
}

#[test]
fn empty_groq_key_does_not_touch_keyring() {
    let mut f = fields();
    f.groq_api_key = Some("   ".into());
    let mut kr = MockBackend::new();
    let out = migrate_v1_to_v2(&V1Document::Object(f), &mut kr).unwrap();
    assert!(!out.had_groq_key_in_json);
    assert!(!out.groq_key_migrated);
    assert_eq!(kr.peek(), None);
}

#[test]
fn absent_groq_key_does_not_touch_keyring() {
    let mut f = fields();
    f.microphone = Some("default".into());
    let mut kr = MockBackend::new();
    let out = migrate_v1_to_v2(&V1Document::Object(f), &mut kr).unwrap();
    assert!(!out.groq_key_migrated);
    assert_eq!(kr.peek(), None);
}

#[test]
fn rejects_non_object_root() {
    let mut kr = MockBackend::new();
    let err = migrate_v1_to_v2(&V1Document::NotObject, &mut kr).unwrap_err();
    assert!(matches!(err, MigrationError::Malformed(_)));
    assert_eq!(err.to_string(), "settings JSON is malformed: root is not an object");
}

#[test]
fn unknown_engine_falls_back_to_default() {
    let mut f = fields();
    f.engine = Some("whatever".into());
    let mut kr = MockBackend::new();
    let out = migrate_v1_to_v2(&V1Document::Object(f), &mut kr).unwrap();
    assert_eq!(out.settings.transcription.engine, "local");
}

#[test]
fn no_remap_when_model_is_turbo() {
    let mut f = fields();
    f.whisper_model = Some("turbo".into());
    let mut kr = MockBackend::new();
    let out = migrate_v1_to_v2(&V1Document::Object(f), &mut kr).unwrap();
    assert!(out.remapped_model.is_none());
    assert_eq!(out.settings.transcription.whisper_model, "turbo");
}

fn v2_with_model(m: &str) -> Settings {
    let mut s = Settings::default();
    s.schema_version = 2;
    s.transcription.whisper_model = m.to_string();
    s
}

#[test]
fn migrate_v2_to_v3_remaps_medium_to_turbo() {
    let outcome = migrate_v2_to_v3(v2_with_model("medium"));
    assert_eq!(outcome.settings.schema_version, 3);
    assert_eq!(outcome.settings.transcription.whisper_model, "turbo");
    assert_eq!(outcome.remapped_model, Some(("medium".into(), "turbo".into())));
}

#[test]
fn migrate_v2_to_v3_remaps_small_to_turbo() {
    let outcome = migrate_v2_to_v3(v2_with_model("small"));
    assert_eq!(outcome.settings.transcription.whisper_model, "turbo");
    assert_eq!(outcome.remapped_model, Some(("small".into(), "turbo".into())));
}

#[test]
fn migrate_v2_to_v3_remaps_tiny_to_turbo() {
    let outcome = migrate_v2_to_v3(v2_with_model("tiny"));
    assert_eq!(outcome.settings.transcription.whisper_model, "turbo");
    assert_eq!(outcome.remapped_model, Some(("tiny".into(), "turbo".into())));
}

#[test]
fn migrate_v2_to_v3_idempotent_on_turbo() {
    let outcome = migrate_v2_to_v3(v2_with_model("turbo"));
    assert_eq!(outcome.settings.schema_version, 3);
    assert_eq!(outcome.remapped_model, None);
    let again = migrate_v2_to_v3(outcome.settings.clone());
    assert_eq!(again.settings, outcome.settings);
    assert_eq!(again.remapped_model, None);
}

#[test]
fn migrate_v2_to_v3_preserves_large_v3() {
    let outcome = migrate_v2_to_v3(v2_with_model("large-v3"));
    assert_eq!(outcome.settings.transcription.whisper_model, "large-v3");
    assert_eq!(outcome.remapped_model, None);
}

#[test]
fn migrate_v2_to_v3_preserves_base() {
    let outcome = migrate_v2_to_v3(v2_with_model("base"));
    assert_eq!(outcome.settings.transcription.whisper_model, "base");
    assert_eq!(outcome.remapped_model, None);
}

#[test]
fn key_write_result_decides_the_migration() {
    let outcome = MigrationOutcome {
        settings: Settings::default(),
        remapped_model: None,
        groq_key_migrated: true,
        had_groq_key_in_json: true,
    };
    assert_eq!(after_key_write(outcome.clone(), Ok(())), Ok(outcome.clone()));
    assert_eq!(
        after_key_write(outcome, Err(KeyringError::Other("locked".into()))),
        Err(MigrationError::Keyring(KeyringError::Other("locked".into())))
    );
}

/// A store whose writes fail, counting the writes it was asked for.
struct RefusingStore {
    writes: Vec<String>,
}

impl KeyringBackend for RefusingStore {
    fn get(&self) -> Result<Option<String>, KeyringError> {
        Ok(None)
    }

    fn set(&mut self, secret: &str) -> Result<(), KeyringError> {
        self.writes.push(secret.to_string());
        Err(KeyringError::Other("vault locked".into()))
    }

    fn delete(&mut self) -> Result<(), KeyringError> {
        Ok(())
    }
}

#[test]
fn failed_key_write_returns_the_store_error() {
    let mut f = fields();
    f.groq_api_key = Some("  gsk_live ".into());
    let mut store = RefusingStore { writes: Vec::new() };
    let err = migrate_v1_to_v2(&V1Document::Object(f), &mut store).unwrap_err();
    assert_eq!(err, MigrationError::Keyring(KeyringError::Other("vault locked".into())));
    assert_eq!(store.writes, vec!["  gsk_live ".to_string()]);
}

#[test]
fn blank_key_never_reaches_the_store() {
    let mut f = fields();
    f.groq_api_key = Some("   ".into());
    let mut store = RefusingStore { writes: Vec::new() };
    let out = migrate_v1_to_v2(&V1Document::Object(f), &mut store).unwrap();
    assert!(!out.groq_key_migrated && !out.had_groq_key_in_json);
    assert!(store.writes.is_empty());
}

#[test]
fn prepared_migration_hands_over_the_untrimmed_key() {
    let mut f = fields();
    f.groq_api_key = Some(" gsk_x ".into());
    f.whisper_model = Some("small".into());
    let (out, key) = prepare_v1_migration(&V1Document::Object(f)).unwrap();
    assert_eq!(key.as_deref(), Some(" gsk_x "));
    assert!(out.groq_key_migrated && out.had_groq_key_in_json);
    assert_eq!(out.settings.schema_version, 2);
    assert_eq!(out.settings.transcription.whisper_model, "turbo");
    assert_eq!(out.remapped_model, Some(("small".into(), "turbo".into())));
    let (_, none) = prepare_v1_migration(&V1Document::Object(fields())).unwrap();
    assert_eq!(none, None);
    assert!(matches!(
        prepare_v1_migration(&V1Document::NotObject),
        Err(MigrationError::Malformed(_))
    ));
}
