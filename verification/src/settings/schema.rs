//! The settings tree (schema version 3) and its defaults. Secrets are not
//! part of it: the Groq key lives in the keyring.
use vstd::prelude::*;

use crate::text::owned;

verus! {

/// All user settings.
#[derive(Debug, Clone, PartialEq)]
pub struct Settings {
    pub schema_version: u32,
    pub microphone: String,
    pub transcription: Transcription,
    pub hotkeys: Hotkeys,
    pub overlay: Overlay,
    pub formatting: Formatting,
    pub dictionary: Dictionary,
    pub stats: Stats,
    pub data: DataPolicy,
    pub system: System,
    pub ui: Ui,
}

/// Transcription settings. The no-speech threshold is a floating-point
/// number kept here by its IEEE-754 bits.
#[derive(Debug, Clone, PartialEq)]
pub struct Transcription {
    pub engine: String,
    pub whisper_model: String,
    pub email_draft_engine: String,
    pub email_draft_model: String,
    pub languages: Vec<String>,
    pub auto_detect: bool,
    pub gpu_acceleration: String,
    pub vad_enabled: bool,
    pub no_speech_threshold_bits: u64,
}

/// The bits of the default no-speech threshold, `0.6_f64`.
pub const DEFAULT_NO_SPEECH_THRESHOLD_BITS: u64 = 0x3FE3_3333_3333_3333;

/// The email-draft engine used when the settings do not name one.
pub fn default_email_draft_engine() -> (s: String)
    ensures
        s@ == "ollama"@,
{
    owned("ollama")
}

/// The email-draft model used when the settings do not name one.
pub fn default_email_draft_model() -> (s: String)
    ensures
        s@ == "llama3.2:1b"@,
{
    owned("llama3.2:1b")
}

/// Global hotkeys.
#[derive(Debug, Clone, PartialEq)]
pub struct Hotkeys {
    pub dictation: String,
    pub command_mode: String,
    pub recording_mode: String,
}

/// The recording overlay.
#[derive(Debug, Clone, PartialEq)]
pub struct Overlay {
    pub style: String,
    pub size: String,
    pub position: String,
    pub custom_pos: Option<OverlayPos>,
}

/// The overlay size used when the settings do not name one.
pub fn default_overlay_size() -> (s: String)
    ensures
        s@ == "medium"@,
{
    owned("medium")
}

/// A position on screen.
#[derive(Debug, Clone, Copy, PartialEq, Eq)]
pub struct OverlayPos {
    pub x: i32,
    pub y: i32,
}

/// Text formatting passes.
#[derive(Debug, Clone, PartialEq)]
pub struct Formatting {
    pub enhance_enabled: bool,
    pub remove_fillers: bool,
    pub filler_words: Vec<String>,
    pub explicit_commands: bool,
}

/// Dictionary behaviour.
#[derive(Debug, Clone, Copy, PartialEq, Eq)]
pub struct Dictionary {
    pub auto_add: bool,
}

/// Usage statistics.
#[derive(Debug, Clone, Copy, PartialEq, Eq)]
pub struct Stats {
    pub enabled: bool,
    pub milestone_notifications: bool,
}

/// How much transcription history is kept.
#[derive(Debug, Clone, Copy, PartialEq, Eq)]
pub struct DataPolicy {
    pub word_count_cap: u64,
    pub purge_on_exceed: bool,
}

/// Desktop integration.
#[derive(Debug, Clone, Copy, PartialEq, Eq)]
pub struct System {
    pub launch_at_login: bool,
    pub close_to_tray: bool,
    pub dictation_sounds: bool,
    pub mute_music_on_dictate: bool,
}

/// Look and language of the interface.
#[derive(Debug, Clone, PartialEq)]
pub struct Ui {
    pub language: String,
    pub theme: String,
    pub accent: String,
}

/// The current schema version.
pub const SCHEMA_VERSION: u32 = 3;

/// Whether the fields of `s` that the legacy flat shape does not carry
/// hold their defaults.
pub open spec fn defaults_outside_v1(s: Settings) -> bool {
    &&& s.transcription.email_draft_engine@ == "ollama"@
    &&& s.transcription.email_draft_model@ == "llama3.2:1b"@
    &&& s.transcription.languages@.map_values(|l: String| l@) == seq!["pt"@, "en"@]
    &&& s.transcription.auto_detect
    &&& s.transcription.gpu_acceleration@ == "auto"@
    &&& s.transcription.vad_enabled
    &&& s.transcription.no_speech_threshold_bits == DEFAULT_NO_SPEECH_THRESHOLD_BITS
    &&& s.hotkeys.command_mode@ == "Pause"@
    &&& s.overlay.style@ == "capsule"@
    &&& s.overlay.size@ == "medium"@
    &&& s.overlay.position@ == "near-cursor"@
    &&& s.overlay.custom_pos is None
    &&& !s.formatting.enhance_enabled
    &&& s.formatting.remove_fillers
    &&& s.formatting.filler_words@.map_values(|w: String| w@) == seq![
        "uh"@,
        "um"@,
        "né"@,
        "tipo"@,
    ]
    &&& s.formatting.explicit_commands
    &&& !s.dictionary.auto_add
    &&& s.stats.enabled
    &&& s.stats.milestone_notifications
    &&& s.data.word_count_cap == 500_000
    &&& s.data.purge_on_exceed
    &&& !s.system.launch_at_login
    &&& s.system.close_to_tray
    &&& s.system.dictation_sounds
    &&& !s.system.mute_music_on_dictate
    &&& s.ui.language@ == "en"@
    &&& s.ui.theme@ == "system"@
    &&& s.ui.accent@ == "indigo"@
}

/// Whether `s` holds the default settings.
pub open spec fn is_default_settings(s: Settings) -> bool {
    &&& s.schema_version == 3
    &&& s.microphone@ == "default"@
    &&& s.transcription.engine@ == "local"@
    &&& s.transcription.whisper_model@ == "turbo"@
    &&& s.hotkeys.dictation@ == "F24"@
    &&& s.hotkeys.recording_mode@ == "push-to-talk"@
    &&& defaults_outside_v1(s)
}

/// Whether `a` and `b` agree on everything but the schema version and the
/// whisper model.
pub open spec fn same_but_model_and_version(a: Settings, b: Settings) -> bool {
    &&& a.microphone == b.microphone
    &&& a.transcription.engine == b.transcription.engine
    &&& a.transcription.email_draft_engine == b.transcription.email_draft_engine
    &&& a.transcription.email_draft_model == b.transcription.email_draft_model
    &&& a.transcription.languages == b.transcription.languages
    &&& a.transcription.auto_detect == b.transcription.auto_detect
    &&& a.transcription.gpu_acceleration == b.transcription.gpu_acceleration
    &&& a.transcription.vad_enabled == b.transcription.vad_enabled
    &&& a.transcription.no_speech_threshold_bits == b.transcription.no_speech_threshold_bits
    &&& a.hotkeys == b.hotkeys
    &&& a.overlay == b.overlay
    &&& a.formatting == b.formatting
    &&& a.dictionary == b.dictionary
    &&& a.stats == b.stats
    &&& a.data == b.data
    &&& a.system == b.system
    &&& a.ui == b.ui
}

impl Default for Settings {
    fn default() -> (s: Self)
        ensures
            is_default_settings(s),
    {
        let languages = vec![owned("pt"), owned("en")];
        let filler_words = vec![owned("uh"), owned("um"), owned("né"), owned("tipo")];
        let s = Settings {
            schema_version: 3,
            microphone: owned("default"),
            transcription: Transcription {
                engine: owned("local"),
                whisper_model: owned("turbo"),
                email_draft_engine: default_email_draft_engine(),
                email_draft_model: default_email_draft_model(),
                languages,
                auto_detect: true,
                gpu_acceleration: owned("auto"),
                vad_enabled: true,
                no_speech_threshold_bits: DEFAULT_NO_SPEECH_THRESHOLD_BITS,
            },
            hotkeys: Hotkeys {
                dictation: owned("F24"),
                command_mode: owned("Pause"),
                recording_mode: owned("push-to-talk"),
            },
            overlay: Overlay {
                style: owned("capsule"),
                size: default_overlay_size(),
                position: owned("near-cursor"),
                custom_pos: None,
            },
            formatting: Formatting {
                enhance_enabled: false,
                remove_fillers: true,
                filler_words,
                explicit_commands: true,
            },
            dictionary: Dictionary { auto_add: false },
            stats: Stats { enabled: true, milestone_notifications: true },
            data: DataPolicy { word_count_cap: 500_000, purge_on_exceed: true },
            system: System {
                launch_at_login: false,
                close_to_tray: true,
                dictation_sounds: true,
                mute_music_on_dictate: false,
            },
            ui: Ui { language: owned("en"), theme: owned("system"), accent: owned("indigo") },
        };
        assert(s.transcription.languages@.map_values(|l: String| l@) =~= seq!["pt"@, "en"@]);
        assert(s.formatting.filler_words@.map_values(|w: String| w@) =~= seq![
            "uh"@,
            "um"@,
            "né"@,
            "tipo"@,
        ]);
        s
    }
}

} // verus!
