//! Migrations between settings shapes: the legacy flat file (version 1) to
//! the nested tree (version 2), and version 2 to version 3, which retires
//! some whisper models.
use vstd::prelude::*;

use crate::settings::keyring::{keyring_error_message, KeyringBackend, KeyringError};
use crate::settings::schema::{defaults_outside_v1, same_but_model_and_version, Settings};
use crate::text::{chars_of, eq_str, owned, push_str, string_of, trim, trim_ws};
use crate::transcribe::ALLOWED_LOCAL_MODELS;

verus! {

/// What the `schemaVersion` key of a settings file holds.
#[derive(Debug, Clone, Copy, PartialEq, Eq)]
pub enum VersionField {
    /// The key is absent.
    Absent,
    /// A JSON number; its value when it is a non-negative integer that
    /// fits in 64 bits.
    Number(Option<u64>),
    /// Any other JSON value.
    Other,
}

/// The schema version of a settings file: 1 without `schemaVersion`, the
/// number cut to 32 bits when it is one, 0 (unknown) otherwise.
pub open spec fn version_of(field: VersionField) -> u32 {
    match field {
        VersionField::Absent => 1,
        VersionField::Number(Some(v)) => v as u32,
        VersionField::Number(None) => 0,
        VersionField::Other => 0,
    }
}

/// The schema version of a settings file (see [`version_of`]).
pub fn detect_version(field: VersionField) -> (v: u32)
    ensures
        v == version_of(field),
{
    match field {
        VersionField::Absent => 1,
        VersionField::Number(Some(v)) => v as u32,
        VersionField::Number(None) => 0,
        VersionField::Other => 0,
    }
}

/// The model a legacy whisper model becomes: `base` and `large-v3` stay,
/// everything else becomes `turbo`.
pub open spec fn remapped(old: Seq<char>) -> Seq<char> {
    if old == "base"@ {
        "base"@
    } else if old == "large-v3"@ {
        "large-v3"@
    } else {
        "turbo"@
    }
}

/// Maps a legacy whisper model to one that is still offered.
pub fn remap_whisper_model(old: &str) -> (m: &'static str)
    ensures
        m@ == remapped(old@),
{
    let v = chars_of(old);
    if eq_str(&v, "base") {
        "base"
    } else if eq_str(&v, "large-v3") {
        "large-v3"
    } else {
        "turbo"
    }
}

/// A remapped model is one that can be selected.
pub proof fn law_remap_lands_on_allowed_model(old: Seq<char>)
    ensures
        crate::text::listed(ALLOWED_LOCAL_MODELS@, remapped(old)),
{
    if old == "base"@ {
        assert(ALLOWED_LOCAL_MODELS@[2]@ == remapped(old));
    } else if old == "large-v3"@ {
        assert(ALLOWED_LOCAL_MODELS@[1]@ == remapped(old));
    } else {
        assert(ALLOWED_LOCAL_MODELS@[0]@ == remapped(old));
    }
}

/// Remapping twice changes nothing more.
pub proof fn law_remap_idempotent(old: Seq<char>)
    ensures
        remapped(remapped(old)) == remapped(old),
{
}

// ---------------------------------------------------------------------------
// Version 1 to version 2
// ---------------------------------------------------------------------------

/// The keys of a legacy settings file that the migration reads; each is
/// the key's text when the key is present and holds a JSON string.
#[derive(Debug, Clone, PartialEq)]
pub struct V1Fields {
    pub microphone: Option<String>,
    pub engine: Option<String>,
    pub whisper_model: Option<String>,
    pub recording_mode: Option<String>,
    pub hotkey: Option<String>,
    pub groq_api_key: Option<String>,
}

/// A legacy settings file.
#[derive(Debug, Clone, PartialEq)]
pub enum V1Document {
    /// The root is a JSON object.
    Object(V1Fields),
    /// The root is some other JSON value.
    NotObject,
}

/// Why a migration failed.
#[derive(Debug, Clone, PartialEq)]
pub enum MigrationError {
    Malformed(String),
    Keyring(KeyringError),
}

/// The message of a migration error.
pub open spec fn migration_error_message(e: MigrationError) -> Seq<char> {
    match e {
        MigrationError::Malformed(m) => "settings JSON is malformed: "@ + m@,
        MigrationError::Keyring(k) => "keyring write failed: "@ + keyring_error_message(k),
    }
}

impl MigrationError {
    /// The error's message (see [`migration_error_message`]).
    pub fn to_string(&self) -> (s: String)
        ensures
            s@ == migration_error_message(*self),
    {
        let mut v: Vec<char> = Vec::new();
        match self {
            MigrationError::Malformed(m) => {
                push_str(&mut v, "settings JSON is malformed: ");
                push_str(&mut v, m.as_str());
            },
            MigrationError::Keyring(k) => {
                push_str(&mut v, "keyring write failed: ");
                let km = k.to_string();
                push_str(&mut v, km.as_str());
            },
        }
        string_of(&v)
    }
}

/// What a version 1 to version 2 migration produced.
#[derive(Debug, Clone, PartialEq)]
pub struct MigrationOutcome {
    pub settings: Settings,
    /// The whisper model before and after, when it changed.
    pub remapped_model: Option<(String, String)>,
    pub groq_key_migrated: bool,
    pub had_groq_key_in_json: bool,
}

/// The text of an optional key, or `default`.
pub open spec fn text_or(field: Option<String>, default: Seq<char>) -> Seq<char> {
    match field {
        Some(s) => s@,
        None => default,
    }
}

/// The legacy whisper model: the file's, or `small`, the legacy default.
pub open spec fn v1_model(f: V1Fields) -> Seq<char> {
    text_or(f.whisper_model, "small"@)
}

/// The engine after migration: the file's when it is `local` or `groq`.
pub open spec fn v1_engine(f: V1Fields) -> Seq<char> {
    match f.engine {
        Some(e) => if e@ == "local"@ || e@ == "groq"@ {
            e@
        } else {
            "local"@
        },
        None => "local"@,
    }
}

/// The recording mode after migration: the file's when it is `toggle` or
/// `push-to-talk`.
pub open spec fn v1_recording_mode(f: V1Fields) -> Seq<char> {
    match f.recording_mode {
        Some(m) => if m@ == "toggle"@ || m@ == "push-to-talk"@ {
            m@
        } else {
            "push-to-talk"@
        },
        None => "push-to-talk"@,
    }
}

/// Whether the file holds a Groq key that is not blank.
pub open spec fn v1_has_key(f: V1Fields) -> bool {
    match f.groq_api_key {
        Some(k) => trim(k@).len() > 0,
        None => false,
    }
}

/// Whether `s` is what a legacy file with keys `f` migrates to: the
/// defaults, stamped version 2, with the file's microphone, engine,
/// remapped whisper model, recording mode and dictation hotkey.
pub open spec fn migrated_from_v1(s: Settings, f: V1Fields) -> bool {
    &&& s.schema_version == 2
    &&& s.microphone@ == text_or(f.microphone, "default"@)
    &&& s.transcription.engine@ == v1_engine(f)
    &&& s.transcription.whisper_model@ == remapped(v1_model(f))
    &&& s.hotkeys.recording_mode@ == v1_recording_mode(f)
    &&& s.hotkeys.dictation@ == text_or(f.hotkey, "F24"@)
    &&& defaults_outside_v1(s)
}

fn text_of(field: &Option<String>) -> (r: Option<String>)
    ensures
        match *field {
            Some(s) => r is Some && r->Some_0@ == s@,
            None => r is None,
        },
{
    match field {
        Some(s) => Some(owned(s.as_str())),
        None => None,
    }
}

/// Whether `o` is what migrating the legacy keys `f` produces: the migrated
/// tree, both key flags equal to whether the file held a non-blank Groq key,
/// and the whisper model remap when the model changed.
pub open spec fn v1_outcome(o: MigrationOutcome, f: V1Fields) -> bool {
    &&& migrated_from_v1(o.settings, f)
    &&& o.had_groq_key_in_json == v1_has_key(f)
    &&& o.groq_key_migrated == v1_has_key(f)
    &&& if v1_model(f) != remapped(v1_model(f)) {
        o.remapped_model matches Some((from, to)) && from@ == v1_model(f) && to@ == remapped(
            v1_model(f),
        )
    } else {
        o.remapped_model is None
    }
}

/// The part of a version 1 to version 2 migration that needs no key store:
/// the migrated outcome, and the Groq key to move into the store (as the
/// file holds it, untrimmed) when it is not blank.
pub fn prepare_v1_migration(v1: &V1Document) -> (r: Result<
    (MigrationOutcome, Option<String>),
    MigrationError,
>)
    ensures
        match *v1 {
            V1Document::NotObject => r matches Err(MigrationError::Malformed(m)) && m@
                == "root is not an object"@,
            V1Document::Object(f) => r matches Ok((o, key)) && v1_outcome(o, f) && if v1_has_key(
                f,
            ) {
                key matches Some(k) && k@ == f.groq_api_key->Some_0@
            } else {
                key is None
            },
        },
{
    let f = match v1 {
        V1Document::Object(f) => f,
        V1Document::NotObject => {
            return Err(MigrationError::Malformed(owned("root is not an object")));
        },
    };
    let mut out = Settings::default();
    out.schema_version = 2;
    if let Some(mic) = text_of(&f.microphone) {
        out.microphone = mic;
    }
    if let Some(engine) = text_of(&f.engine) {
        let e = chars_of(engine.as_str());
        if eq_str(&e, "local") || eq_str(&e, "groq") {
            out.transcription.engine = engine;
        }
    }
    let old_model = match text_of(&f.whisper_model) {
        Some(m) => m,
        None => owned("small"),
    };
    let new_model = owned(remap_whisper_model(old_model.as_str()));
    let old_v = chars_of(old_model.as_str());
    let new_v = chars_of(new_model.as_str());
    let changed = !crate::text::eq_chars(&old_v, &new_v);
    out.transcription.whisper_model = owned(new_model.as_str());
    let remapped_model = if changed {
        Some((old_model, new_model))
    } else {
        None
    };
    if let Some(mode) = text_of(&f.recording_mode) {
        let m = chars_of(mode.as_str());
        if eq_str(&m, "toggle") || eq_str(&m, "push-to-talk") {
            out.hotkeys.recording_mode = mode;
        }
    }
    if let Some(hk) = text_of(&f.hotkey) {
        out.hotkeys.dictation = hk;
    }
    let key = match &f.groq_api_key {
        Some(k) => {
            let kc = chars_of(k.as_str());
            if trim_ws(&kc).len() > 0 {
                Some(owned(k.as_str()))
            } else {
                None
            }
        },
        None => None,
    };
    let has_key = key.is_some();
    Ok((
        MigrationOutcome {
            settings: out,
            remapped_model,
            groq_key_migrated: has_key,
            had_groq_key_in_json: has_key,
        },
        key,
    ))
}

/// Migrates a legacy settings file to the nested tree, moving a non-blank
/// Groq key from the file into `backend`: the outcome and the key come from
/// [`prepare_v1_migration`], the key is handed to `backend.set` once, and
/// the store's reply goes through [`after_key_write`], so a failed write
/// is that store error under `MigrationError::Keyring`.
pub fn migrate_v1_to_v2<B: KeyringBackend>(v1: &V1Document, backend: &mut B) -> (r: Result<
    MigrationOutcome,
    MigrationError,
>)
    ensures
        match *v1 {
            V1Document::NotObject => r matches Err(MigrationError::Malformed(m)) && m@
                == "root is not an object"@ && *final(backend) == *old(backend),
            V1Document::Object(f) => {
                &&& !v1_has_key(f) ==> r is Ok && *final(backend) == *old(backend)
                &&& v1_has_key(f) ==> (r is Err ==> r matches Err(MigrationError::Keyring(_)))
                &&& v1_has_key(f) && old(backend).keeps_store_laws() ==> r is Ok
                    && final(backend).keeps_store_laws() && final(backend).secret() == Some(
                    f.groq_api_key->Some_0@,
                )
                &&& r matches Ok(o) ==> v1_outcome(o, f)
            },
        },
{
    let (outcome, key) = match prepare_v1_migration(v1) {
        Ok(p) => p,
        Err(e) => {
            return Err(e);
        },
    };
    match key {
        Some(k) => {
            let written = backend.set(k.as_str());
            after_key_write(outcome, written)
        },
        None => Ok(outcome),
    }
}

/// The migration's result once the key store answered the write of the
/// Groq key: the migrated settings when the write succeeded, else the
/// store's error.
pub fn after_key_write(outcome: MigrationOutcome, written: Result<(), KeyringError>) -> (r: Result<
    MigrationOutcome,
    MigrationError,
>)
    ensures
        match written {
            Ok(()) => r == Ok::<MigrationOutcome, MigrationError>(outcome),
            Err(e) => r == Err::<MigrationOutcome, MigrationError>(MigrationError::Keyring(e)),
        },
{
    match written {
        Ok(()) => Ok(outcome),
        Err(e) => Err(MigrationError::Keyring(e)),
    }
}

// ---------------------------------------------------------------------------
// Version 2 to version 3
// ---------------------------------------------------------------------------

/// The whisper model after the version 3 cut-over: `tiny`, `small` and
/// `medium` became `turbo`, other models stay.
pub open spec fn v3_model(m: Seq<char>) -> Seq<char> {
    if m == "tiny"@ || m == "small"@ || m == "medium"@ {
        "turbo"@
    } else {
        m
    }
}

/// What a version 2 to version 3 migration produced.
#[derive(Debug, Clone, PartialEq)]
pub struct MigrationOutcomeV3 {
    pub settings: Settings,
    /// The whisper model before and after, when it changed.
    pub remapped_model: Option<(String, String)>,
}

/// Stamps version 3 and replaces a retired whisper model by `turbo`.
pub fn migrate_v2_to_v3(s: Settings) -> (o: MigrationOutcomeV3)
    ensures
        o.settings.schema_version == 3,
        o.settings.transcription.whisper_model@ == v3_model(s.transcription.whisper_model@),
        same_but_model_and_version(o.settings, s),
        if v3_model(s.transcription.whisper_model@) != s.transcription.whisper_model@ {
            o.remapped_model matches Some((from, to)) && from@ == s.transcription.whisper_model@
                && to@ == "turbo"@
        } else {
            o.remapped_model is None
        },
{
    let mut s = s;
    let from = chars_of(s.transcription.whisper_model.as_str());
    let retired = eq_str(&from, "tiny") || eq_str(&from, "small") || eq_str(&from, "medium");
    let remapped_model = if retired {
        let old = owned(s.transcription.whisper_model.as_str());
        s.transcription.whisper_model = owned("turbo");
        proof {
            lemma_retired_names_differ_from_turbo();
        }
        Some((old, owned("turbo")))
    } else {
        None
    };
    s.schema_version = 3;
    MigrationOutcomeV3 { settings: s, remapped_model }
}

/// Migrating a version 3 tree again changes nothing: the model is left as
/// it is and no remap is reported.
pub proof fn law_v3_migration_idempotent(m: Seq<char>)
    ensures
        v3_model(v3_model(m)) == v3_model(m),
{
    reveal_strlit("turbo");
    reveal_strlit("tiny");
    reveal_strlit("small");
    reveal_strlit("medium");
}

/// A model that came out of the version 1 migration needs no version 3
/// remap, so chaining both migrations reports the remap once.
pub proof fn law_v1_models_survive_v3(old: Seq<char>)
    ensures
        v3_model(remapped(old)) == remapped(old),
{
    lemma_retired_names_differ_from_turbo();
    reveal_strlit("base");
    reveal_strlit("large-v3");
    reveal_strlit("tiny");
    reveal_strlit("small");
    reveal_strlit("medium");
    assert("base"@ != "tiny"@) by {
        assert("base"@[0] != "tiny"@[0]);
    }
    assert("base"@.len() != "small"@.len());
    assert("base"@.len() != "medium"@.len());
    assert("large-v3"@.len() != "tiny"@.len());
    assert("large-v3"@.len() != "small"@.len());
    assert("large-v3"@.len() != "medium"@.len());
}

/// `turbo` is none of the retired model names.
proof fn lemma_retired_names_differ_from_turbo()
    ensures
        "turbo"@ != "tiny"@,
        "turbo"@ != "small"@,
        "turbo"@ != "medium"@,
{
    reveal_strlit("turbo");
    reveal_strlit("tiny");
    reveal_strlit("small");
    reveal_strlit("medium");
    assert("turbo"@.len() != "tiny"@.len());
    assert("turbo"@[0] != "small"@[0]);
    assert("turbo"@.len() != "medium"@.len());
}

} // verus!
