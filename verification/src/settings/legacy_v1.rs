//! The flat settings shape of the first releases, still spoken by the
//! settings screen.
use vstd::prelude::*;

use crate::settings::schema::{default_email_draft_engine, default_email_draft_model, default_overlay_size};
use crate::text::owned;

verus! {

/// Settings in the legacy flat shape.
#[derive(Debug, Clone, PartialEq)]
pub struct Settings {
    pub microphone: String,
    pub engine: String,
    pub whisper_model: String,
    pub email_draft_engine: String,
    pub email_draft_model: String,
    pub groq_api_key: String,
    pub recording_mode: String,
    pub hotkey: String,
    pub command_hotkey: String,
    pub overlay_style: String,
    pub overlay_size: String,
}

/// The command-mode hotkey used when the legacy file names none.
pub fn default_command_hotkey() -> (s: String)
    ensures
        s@ == "Pause"@,
{
    owned("Pause")
}

/// The overlay style used when the legacy file names none.
pub fn default_overlay_style() -> (s: String)
    ensures
        s@ == "capsule"@,
{
    owned("capsule")
}

impl Default for Settings {
    fn default() -> (s: Self)
        ensures
            s.microphone@ == "default"@,
            s.engine@ == "local"@,
            s.whisper_model@ == "small"@,
            s.email_draft_engine@ == "ollama"@,
            s.email_draft_model@ == "llama3.2:1b"@,
            s.groq_api_key@ == Seq::<char>::empty(),
            s.recording_mode@ == "toggle"@,
            s.hotkey@ == "F24"@,
            s.command_hotkey@ == "Pause"@,
            s.overlay_style@ == "capsule"@,
            s.overlay_size@ == "medium"@,
    {
        let empty = String::new();
        Settings {
            microphone: owned("default"),
            engine: owned("local"),
            whisper_model: owned("small"),
            email_draft_engine: default_email_draft_engine(),
            email_draft_model: default_email_draft_model(),
            groq_api_key: empty,
            recording_mode: owned("toggle"),
            hotkey: owned("F24"),
            command_hotkey: default_command_hotkey(),
            overlay_style: default_overlay_style(),
            overlay_size: default_overlay_size(),
        }
    }
}

} // verus!
