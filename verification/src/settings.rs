//! Settings: the schema, its defaults, the legacy flat shape, migrations
//! between them, the Groq-key store, and how a stored file is loaded.
pub mod schema;
pub mod keyring;
pub mod legacy_v1;
pub mod migrations;
pub mod adapter;

use vstd::prelude::*;

use crate::settings::keyring::KeyringBackend;
use crate::settings::migrations::{
    law_v1_models_survive_v3, migrate_v1_to_v2, migrate_v2_to_v3, remapped, text_or, v1_engine,
    v1_has_key, v1_model, v1_recording_mode, v3_model, V1Document, V1Fields,
};
use crate::settings::schema::{
    defaults_outside_v1, is_default_settings, same_but_model_and_version, Settings,
};
use crate::text::owned;

verus! {

/// The settings file, in the application directory.
pub const CONFIG_FILENAME: &'static str = "config.json";

/// The copy of a legacy settings file kept while it is migrated.
pub const BACKUP_FILENAME: &'static str = "config.json.v1.bak";

/// The application-metadata key that records the settings version.
pub const SETTINGS_VERSION_KEY: &'static str = "settings_version";

/// The settings version recorded when a fresh install writes its defaults.
pub const FRESH_INSTALL_STAMP: &'static str = "2";

/// The settings version recorded once a legacy file has been migrated.
pub const SETTINGS_VERSION_STAMP: &'static str = "3";

/// Something the loader did that the user interface reports.
#[derive(Debug, Clone, PartialEq)]
pub enum MigrationEvent {
    Migrated,
    ModelRemapped { from: String, to: String },
    NeedsGroqKey,
    UnknownVersion(u32),
    MigrationFailed(String),
}

/// The settings the loader settled on and what it reports.
#[derive(Debug)]
pub struct LoadOutcome {
    pub settings: Settings,
    pub events: Vec<MigrationEvent>,
}

/// The settings file as found on disk.
#[derive(Debug)]
pub enum StoredConfig {
    /// There is no settings file.
    Missing,
    /// A file of the current version.
    Current(Settings),
    /// A version 2 file.
    V2(Settings),
    /// A legacy file.
    V1(V1Document),
    /// A file of a version the loader does not know.
    Unknown(u32),
}

/// The kinds of settings file, by schema version.
#[derive(Debug, Clone, Copy, PartialEq, Eq)]
pub enum ConfigKind {
    Current,
    V2,
    V1,
    Unknown,
}

/// The kind of a settings file of schema version `version`.
pub open spec fn kind_of_version(version: u32) -> ConfigKind {
    if version == 3 {
        ConfigKind::Current
    } else if version == 2 {
        ConfigKind::V2
    } else if version == 1 {
        ConfigKind::V1
    } else {
        ConfigKind::Unknown
    }
}

/// The kind of a settings file of schema version `version` (see
/// [`kind_of_version`]).
pub fn config_kind(version: u32) -> (k: ConfigKind)
    ensures
        k == kind_of_version(version),
{
    if version == 3 {
        ConfigKind::Current
    } else if version == 2 {
        ConfigKind::V2
    } else if version == 1 {
        ConfigKind::V1
    } else {
        ConfigKind::Unknown
    }
}

/// What loading a settings file comes to: the settings and events, and
/// the file work to do. When `backup_first` is set, the file as found is
/// copied to [`BACKUP_FILENAME`] (unless a copy is already there) before
/// anything else, and removed once `settings` is written. When
/// `write_settings` is set, `settings` replaces the file, and once that
/// succeeded `stamp`, when there is one, is recorded under
/// [`SETTINGS_VERSION_KEY`].
#[derive(Debug)]
pub struct LoadPlan {
    pub outcome: LoadOutcome,
    pub backup_first: bool,
    pub write_settings: bool,
    pub stamp: Option<&'static str>,
}

/// Whether `stamp` records the settings version `v`.
pub open spec fn stamps(stamp: Option<&'static str>, v: Seq<char>) -> bool {
    stamp matches Some(t) && t@ == v
}

/// Whether `s` is what a legacy file with keys `f` loads as: the defaults,
/// at the current version, with the file's microphone, engine, remapped
/// whisper model, recording mode and dictation hotkey.
pub open spec fn loaded_from_v1(s: Settings, f: V1Fields) -> bool {
    &&& s.schema_version == 3
    &&& s.microphone@ == text_or(f.microphone, "default"@)
    &&& s.transcription.engine@ == v1_engine(f)
    &&& s.transcription.whisper_model@ == remapped(v1_model(f))
    &&& s.hotkeys.recording_mode@ == v1_recording_mode(f)
    &&& s.hotkeys.dictation@ == text_or(f.hotkey, "F24"@)
    &&& defaults_outside_v1(s)
}

/// Whether `events` report the migration of a legacy file with keys `f`:
/// the migration, then the model remap when the model changed, then the
/// request to re-enter the Groq key when one was moved.
pub open spec fn v1_load_events(events: Seq<MigrationEvent>, f: V1Fields) -> bool {
    let changed = v1_model(f) != remapped(v1_model(f));
    &&& events.len() == 1 + (if changed { 1int } else { 0int }) + (if v1_has_key(f) { 1int } else { 0int })
    &&& events[0] == MigrationEvent::Migrated
    &&& changed ==> (events[1] matches MigrationEvent::ModelRemapped { from, to } && from@ == v1_model(f)
        && to@ == remapped(v1_model(f)))
    &&& v1_has_key(f) ==> events[events.len() - 1] == MigrationEvent::NeedsGroqKey
}

/// What loading `stored` plans, with the key store `before` the load and
/// `after` it (see [`plan_load`]).
pub open spec fn load_planned<B: KeyringBackend>(stored: StoredConfig, plan: LoadPlan, before: B, after: B) -> bool {
    &&& plan.write_settings ==> plan.outcome.settings.schema_version == 3
    &&& match stored {
            StoredConfig::Missing => is_default_settings(plan.outcome.settings)
                && plan.outcome.events@.len() == 0 && plan.write_settings && !plan.backup_first
                && stamps(plan.stamp, FRESH_INSTALL_STAMP@) && after == before,
            StoredConfig::Current(s) => plan.outcome.settings == s && plan.outcome.events@.len()
                == 0 && !plan.write_settings && !plan.backup_first && plan.stamp is None && after
                == before,
            StoredConfig::V2(s) => {
                &&& plan.outcome.settings.schema_version == 3
                &&& plan.outcome.settings.transcription.whisper_model@ == v3_model(s.transcription.whisper_model@)
                &&& same_but_model_and_version(plan.outcome.settings, s)
                &&& plan.write_settings && !plan.backup_first && plan.stamp is None
                &&& after == before
                &&& if v3_model(s.transcription.whisper_model@) != s.transcription.whisper_model@ {
                    plan.outcome.events@.len() == 1 && (plan.outcome.events@[0] matches MigrationEvent::ModelRemapped { from, to }
                        && from@ == s.transcription.whisper_model@ && to@ == "turbo"@)
                } else {
                    plan.outcome.events@.len() == 0
                }
            },
            StoredConfig::V1(doc) => plan.backup_first && (plan.write_settings ==> stamps(plan.stamp, SETTINGS_VERSION_STAMP@))
                && (!plan.write_settings ==> plan.stamp is None) && match doc {
                V1Document::NotObject => !plan.write_settings && is_default_settings(plan.outcome.settings)
                    && plan.outcome.events@.len() == 1 && (plan.outcome.events@[0] matches MigrationEvent::MigrationFailed(m)
                    && m@ == "settings JSON is malformed: "@ + "root is not an object"@)
                    && after == before,
                V1Document::Object(f) => {
                    &&& plan.write_settings ==> loaded_from_v1(plan.outcome.settings, f)
                        && v1_load_events(plan.outcome.events@, f)
                    &&& v1_has_key(f) && before.keeps_store_laws() ==> plan.write_settings
                        && after.keeps_store_laws() && after.secret() == Some(f.groq_api_key->Some_0@)
                    &&& !v1_has_key(f) ==> plan.write_settings && after == before
                    &&& !plan.write_settings ==> is_default_settings(plan.outcome.settings)
                        && plan.outcome.events@.len() == 1 && plan.outcome.events@[0] is MigrationFailed
                },
            },
            StoredConfig::Unknown(v) => is_default_settings(plan.outcome.settings)
                && plan.outcome.events@ =~= seq![MigrationEvent::UnknownVersion(v)]
                && !plan.write_settings && !plan.backup_first && plan.stamp is None && after == before,
        }
}

/// Decides how a stored settings file is loaded.
///
/// - No file: the defaults, written out, stamped [`FRESH_INSTALL_STAMP`].
/// - A current file: used as it is, nothing written, nothing reported.
/// - A version 2 file: migrated to version 3 and written; a retired model
///   is reported.
/// - A legacy file: backed up, migrated to version 2 (moving the Groq key
///   into `backend`) and on to version 3, written and stamped
///   [`SETTINGS_VERSION_STAMP`]; the migration, a
///   remapped model and a moved key are reported. When the migration
///   fails, the defaults are used, nothing is written, the backup stays,
///   and the failure is reported.
/// - A file of unknown version: left alone; the defaults are used and the
///   version is reported.
pub fn plan_load<B: KeyringBackend>(stored: StoredConfig, backend: &mut B) -> (plan: LoadPlan)
    ensures
        load_planned(stored, plan, *old(backend), *final(backend)),
{
    match stored {
        StoredConfig::Missing => LoadPlan {
            outcome: LoadOutcome { settings: Settings::default(), events: Vec::new() },
            backup_first: false,
            write_settings: true,
            stamp: Some(FRESH_INSTALL_STAMP),
        },
        StoredConfig::Current(s) => LoadPlan {
            outcome: LoadOutcome { settings: s, events: Vec::new() },
            backup_first: false,
            write_settings: false,
            stamp: None,
        },
        StoredConfig::V2(s) => {
            let o = migrate_v2_to_v3(s);
            let mut events: Vec<MigrationEvent> = Vec::new();
            if let Some((from, to)) = o.remapped_model {
                events.push(MigrationEvent::ModelRemapped { from, to });
            }
            LoadPlan {
                outcome: LoadOutcome { settings: o.settings, events },
                backup_first: false,
                write_settings: true,
                stamp: None,
            }
        },
        StoredConfig::V1(doc) => {
            match migrate_v1_to_v2(&doc, backend) {
                Ok(o) => {
                    let ghost og = o;
                    let v3 = migrate_v2_to_v3(o.settings);
                    let mut events: Vec<MigrationEvent> = vec![MigrationEvent::Migrated];
                    if let Some((from, to)) = o.remapped_model {
                        events.push(MigrationEvent::ModelRemapped { from, to });
                    }
                    if o.groq_key_migrated {
                        events.push(MigrationEvent::NeedsGroqKey);
                    }
                    proof {
                        if let V1Document::Object(f) = doc {
                            law_v1_models_survive_v3(v1_model(f));
                        }
                    }
                    LoadPlan {
                        outcome: LoadOutcome { settings: v3.settings, events },
                        backup_first: true,
                        write_settings: true,
                        stamp: Some(SETTINGS_VERSION_STAMP),
                    }
                },
                Err(e) => LoadPlan {
                    outcome: migration_failed(e.to_string()),
                    backup_first: true,
                    write_settings: false,
                    stamp: None,
                },
            }
        },
        StoredConfig::Unknown(v) => LoadPlan {
            outcome: LoadOutcome {
                settings: Settings::default(),
                events: vec![MigrationEvent::UnknownVersion(v)],
            },
            backup_first: false,
            write_settings: false,
            stamp: None,
        },
    }
}

/// Loading again changes nothing: once a load wrote its settings, the
/// file holds the current version, and loading that file gives the same
/// settings back with nothing reported, nothing written and the key store
/// untouched.
pub proof fn law_second_load_changes_nothing<B: KeyringBackend>(
    stored: StoredConfig,
    first: LoadPlan,
    b0: B,
    b1: B,
    second: LoadPlan,
    b2: B,
)
    requires
        load_planned(stored, first, b0, b1),
        first.write_settings,
        load_planned(StoredConfig::Current(first.outcome.settings), second, b1, b2),
    ensures
        kind_of_version(first.outcome.settings.schema_version) == ConfigKind::Current,
        second.outcome.settings == first.outcome.settings,
        second.outcome.events@.len() == 0,
        !second.write_settings,
        b2 == b1,
{
}

/// The outcome when a legacy migration, or writing its result, failed:
/// the defaults, and the failure reported.
pub fn migration_failed(message: String) -> (o: LoadOutcome)
    ensures
        is_default_settings(o.settings),
        o.events@.len() == 1,
        o.events@[0] matches MigrationEvent::MigrationFailed(m) && m == message,
{
    LoadOutcome { settings: Settings::default(), events: vec![MigrationEvent::MigrationFailed(message)] }
}

} // verus!

verus! {

// ---------------------------------------------------------------------------
// Boot-time clean-up
// ---------------------------------------------------------------------------

/// Command-mode hotkeys of earlier releases that clash with common
/// shortcuts; they are replaced by `Pause`.
pub const RETIRED_COMMAND_HOTKEYS: [&'static str; 5] = [
    "Shift+F24",
    "F12",
    "Shift+F12",
    "Ctrl+Alt+M",
    "Ctrl+Alt+D",
];

/// Whether the email-draft engine and model of the settings go together.
pub open spec fn email_model_valid(engine: Seq<char>, model: Seq<char>) -> bool {
    (engine == "groq"@ && crate::text::listed(crate::draft::ALLOWED_GROQ_DRAFT_MODELS@, model))
        || (engine == "ollama"@ && crate::text::listed(
        crate::draft::ALLOWED_OLLAMA_DRAFT_MODELS@,
        model,
    ))
}

/// Whether the command-mode hotkey needs replacing: blank once trimmed,
/// or one of [`RETIRED_COMMAND_HOTKEYS`].
pub open spec fn command_hotkey_retired(hotkey: Seq<char>) -> bool {
    crate::text::trim(hotkey).len() == 0 || crate::text::listed(
        RETIRED_COMMAND_HOTKEYS@,
        crate::text::trim(hotkey),
    )
}

/// Repairs settings at start-up: a blank or retired command-mode hotkey
/// becomes `Pause`, and an email-draft engine and model that do not go
/// together become Ollama's default model. Says whether anything changed
/// (the settings are then saved).
pub fn normalize_boot_settings(s: &mut Settings) -> (changed: bool)
    ensures
        final(s).hotkeys.command_mode@ == (if command_hotkey_retired(old(s).hotkeys.command_mode@) {
            "Pause"@
        } else {
            old(s).hotkeys.command_mode@
        }),
        email_model_valid(
            old(s).transcription.email_draft_engine@,
            old(s).transcription.email_draft_model@,
        ) ==> final(s).transcription.email_draft_engine == old(s).transcription.email_draft_engine
            && final(s).transcription.email_draft_model == old(s).transcription.email_draft_model,
        !email_model_valid(
            old(s).transcription.email_draft_engine@,
            old(s).transcription.email_draft_model@,
        ) ==> final(s).transcription.email_draft_engine@ == "ollama"@
            && final(s).transcription.email_draft_model@ == crate::draft::DEFAULT_OLLAMA_DRAFT_MODEL@,
        changed == (command_hotkey_retired(old(s).hotkeys.command_mode@) || !email_model_valid(
            old(s).transcription.email_draft_engine@,
            old(s).transcription.email_draft_model@,
        )),
        final(s).schema_version == old(s).schema_version,
        final(s).microphone == old(s).microphone,
        final(s).transcription.engine == old(s).transcription.engine,
        final(s).transcription.whisper_model == old(s).transcription.whisper_model,
        final(s).transcription.languages == old(s).transcription.languages,
        final(s).transcription.auto_detect == old(s).transcription.auto_detect,
        final(s).transcription.gpu_acceleration == old(s).transcription.gpu_acceleration,
        final(s).transcription.vad_enabled == old(s).transcription.vad_enabled,
        final(s).transcription.no_speech_threshold_bits
            == old(s).transcription.no_speech_threshold_bits,
        final(s).hotkeys.dictation == old(s).hotkeys.dictation,
        final(s).hotkeys.recording_mode == old(s).hotkeys.recording_mode,
        final(s).overlay == old(s).overlay,
        final(s).formatting == old(s).formatting,
        final(s).dictionary == old(s).dictionary,
        final(s).stats == old(s).stats,
        final(s).data == old(s).data,
        final(s).system == old(s).system,
        final(s).ui == old(s).ui,
{
    proof {
        reveal_strlit("groq");
        reveal_strlit("ollama");
        assert("groq"@.len() != "ollama"@.len());
    }
    let mut changed = false;
    let hk = crate::text::trim_ws(&crate::text::chars_of(s.hotkeys.command_mode.as_str()));
    if hk.len() == 0 || crate::text::list_contains(&RETIRED_COMMAND_HOTKEYS, &hk) {
        s.hotkeys.command_mode = owned("Pause");
        changed = true;
    }
    let engine = crate::text::chars_of(s.transcription.email_draft_engine.as_str());
    let model = crate::text::chars_of(s.transcription.email_draft_model.as_str());
    let valid = if crate::text::eq_str(&engine, "groq") {
        crate::text::list_contains(&crate::draft::ALLOWED_GROQ_DRAFT_MODELS, &model)
    } else if crate::text::eq_str(&engine, "ollama") {
        crate::text::list_contains(&crate::draft::ALLOWED_OLLAMA_DRAFT_MODELS, &model)
    } else {
        false
    };
    if !valid {
        s.transcription.email_draft_engine = owned("ollama");
        s.transcription.email_draft_model = owned(crate::draft::DEFAULT_OLLAMA_DRAFT_MODEL);
        changed = true;
    }
    changed
}

} // verus!
