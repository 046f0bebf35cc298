//! The settings screen still speaks the legacy flat shape: this module
//! projects the settings tree and the stored Groq key into it, and applies
//! an edited flat payload back onto the tree and the key store.
use vstd::prelude::*;

use crate::settings::keyring::{KeyringBackend, KeyringError};
use crate::settings::legacy_v1;
use crate::settings::schema::Settings;
use crate::text::{owned, chars_of};

verus! {

/// Whether the flat fields of `v1` (all but the Groq key) are those of
/// the tree `v2`.
pub open spec fn projects_to(v2: Settings, v1: legacy_v1::Settings) -> bool {
    &&& v1.microphone == v2.microphone
    &&& v1.engine == v2.transcription.engine
    &&& v1.whisper_model == v2.transcription.whisper_model
    &&& v1.email_draft_engine == v2.transcription.email_draft_engine
    &&& v1.email_draft_model == v2.transcription.email_draft_model
    &&& v1.recording_mode == v2.hotkeys.recording_mode
    &&& v1.hotkey == v2.hotkeys.dictation
    &&& v1.command_hotkey == v2.hotkeys.command_mode
    &&& v1.overlay_style == v2.overlay.style
    &&& v1.overlay_size == v2.overlay.size
}

/// Whether `a` and `b` agree on every field that the flat shape does not
/// carry.
pub open spec fn same_outside_flat_view(a: Settings, b: Settings) -> bool {
    &&& a.schema_version == b.schema_version
    &&& a.transcription.languages == b.transcription.languages
    &&& a.transcription.auto_detect == b.transcription.auto_detect
    &&& a.transcription.gpu_acceleration == b.transcription.gpu_acceleration
    &&& a.transcription.vad_enabled == b.transcription.vad_enabled
    &&& a.transcription.no_speech_threshold_bits == b.transcription.no_speech_threshold_bits
    &&& a.overlay.position == b.overlay.position
    &&& a.overlay.custom_pos == b.overlay.custom_pos
    &&& a.formatting == b.formatting
    &&& a.dictionary == b.dictionary
    &&& a.stats == b.stats
    &&& a.data == b.data
    &&& a.system == b.system
    &&& a.ui == b.ui
}

/// The key store holds what a payload with Groq key `key` asks for: no
/// key when it is empty.
pub open spec fn stored_key(key: Seq<char>) -> Option<Seq<char>> {
    if key.len() == 0 {
        None
    } else {
        Some(key)
    }
}

/// The Groq key a read of the key store shows: the secret read, or an
/// empty key when there is none or the read failed.
pub open spec fn read_key(read: Result<Option<String>, KeyringError>) -> Seq<char> {
    match read {
        Ok(Some(s)) => s@,
        _ => Seq::<char>::empty(),
    }
}

/// The key held by a store that keeps the store laws, empty when none.
pub open spec fn held_key(secret: Option<Seq<char>>) -> Seq<char> {
    match secret {
        Some(s) => s,
        None => Seq::<char>::empty(),
    }
}

/// The Groq key shown for a read of the key store (see [`read_key`]).
pub fn key_from_read(read: Result<Option<String>, KeyringError>) -> (k: String)
    ensures
        k@ == read_key(read),
{
    match read {
        Ok(Some(s)) => s,
        Ok(None) => String::new(),
        Err(_) => String::new(),
    }
}

/// The flat view of `v2`, with the Groq key read from `backend` (see
/// [`key_from_read`]): for a store that keeps the store laws, the key it
/// holds.
pub fn to_v1_view<B: KeyringBackend>(v2: &Settings, backend: &B) -> (v1: legacy_v1::Settings)
    ensures
        projects_to(*v2, v1),
        backend.keeps_store_laws() ==> v1.groq_api_key@ == held_key(backend.secret()),
{
    let groq_api_key = key_from_read(backend.get());
    legacy_v1::Settings {
        microphone: v2.microphone.clone(),
        engine: v2.transcription.engine.clone(),
        whisper_model: v2.transcription.whisper_model.clone(),
        email_draft_engine: v2.transcription.email_draft_engine.clone(),
        email_draft_model: v2.transcription.email_draft_model.clone(),
        groq_api_key,
        recording_mode: v2.hotkeys.recording_mode.clone(),
        hotkey: v2.hotkeys.dictation.clone(),
        command_hotkey: v2.hotkeys.command_mode.clone(),
        overlay_style: v2.overlay.style.clone(),
        overlay_size: v2.overlay.size.clone(),
    }
}

/// Applies an edited flat payload: its fields go to their places in the
/// tree (everything else is left as it was), and its Groq key is stored,
/// or removed when empty. A key-store failure is returned.
pub fn apply_v1_payload<B: KeyringBackend>(
    target: &mut Settings,
    payload: legacy_v1::Settings,
    backend: &mut B,
) -> (r: Result<(), KeyringError>)
    ensures
        projects_to(*final(target), payload),
        same_outside_flat_view(*old(target), *final(target)),
        old(backend).keeps_store_laws() ==> r is Ok && final(backend).keeps_store_laws()
            && final(backend).secret() == stored_key(payload.groq_api_key@),
{
    let ghost p = payload;
    target.microphone = payload.microphone;
    target.transcription.engine = payload.engine;
    target.transcription.whisper_model = payload.whisper_model;
    target.transcription.email_draft_engine = payload.email_draft_engine;
    target.transcription.email_draft_model = payload.email_draft_model;
    target.hotkeys.recording_mode = payload.recording_mode;
    target.hotkeys.dictation = payload.hotkey;
    target.hotkeys.command_mode = payload.command_hotkey;
    target.overlay.style = payload.overlay_style;
    target.overlay.size = payload.overlay_size;
    let key = chars_of(payload.groq_api_key.as_str());
    if key.len() == 0 {
        backend.delete()
    } else {
        backend.set(payload.groq_api_key.as_str())
    }
}

/// Applying a payload and projecting again gives the payload's flat fields
/// back, and the key store then holds the payload's key.
pub proof fn law_apply_then_view_round_trips(
    before: Settings,
    payload: legacy_v1::Settings,
    after: Settings,
    view: legacy_v1::Settings,
)
    requires
        projects_to(after, payload),
        projects_to(after, view),
    ensures
        view.microphone == payload.microphone,
        view.engine == payload.engine,
        view.whisper_model == payload.whisper_model,
        view.email_draft_engine == payload.email_draft_engine,
        view.email_draft_model == payload.email_draft_model,
        view.recording_mode == payload.recording_mode,
        view.hotkey == payload.hotkey,
        view.command_hotkey == payload.command_hotkey,
        view.overlay_style == payload.overlay_style,
        view.overlay_size == payload.overlay_size,
{
}

/// Applying the flat view of a tree to that tree leaves it unchanged.
pub proof fn law_applying_own_view_changes_nothing(
    v2: Settings,
    view: legacy_v1::Settings,
    after: Settings,
)
    requires
        projects_to(v2, view),
        projects_to(after, view),
        same_outside_flat_view(v2, after),
    ensures
        after == v2,
{
}

/// A stored key reads back as the payload's key: reading the store after a
/// successful apply shows the payload's key, or nothing for an empty one.
pub proof fn law_stored_key_reads_back(key: Seq<char>)
    ensures
        stored_key(key) is None <==> key.len() == 0,
        stored_key(key) matches Some(k) ==> k == key,
        held_key(stored_key(key)) == key,
{
}

} // verus!
