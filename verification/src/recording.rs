//! The recording lifecycle of the desktop application: what a toggle, a
//! hotkey press or release, or a cancel does in each state. Starting the
//! microphone and running the pipeline happen outside; the controller
//! says when.
use vstd::prelude::*;

use crate::pipeline::{PipelineError, PipelineMode, StageError};
use crate::text::{chars_of, decimal, decimal_chars, eq_str, owned, push_all, push_str, string_of};

verus! {

/// Where the recorder stands.
#[derive(Debug, Clone, Copy, PartialEq, Eq, Structural)]
pub enum RecordingState {
    Ready,
    Recording,
    Transcribing,
}

/// The name of a pipeline mode in overlay events.
pub fn pipeline_mode_label(mode: PipelineMode) -> (s: &'static str)
    ensures
        mode == PipelineMode::Dictation ==> s@ == "dictation"@,
        mode == PipelineMode::Command ==> s@ == "command"@,
{
    match mode {
        PipelineMode::Dictation => "dictation",
        PipelineMode::Command => "command",
    }
}

/// Reads the pipeline mode of an overlay preview request.
pub fn parse_overlay_mode(mode: &str) -> (r: Result<PipelineMode, String>)
    ensures
        mode@ == "dictation"@ ==> r == Ok::<PipelineMode, String>(PipelineMode::Dictation),
        mode@ == "command"@ ==> r == Ok::<PipelineMode, String>(PipelineMode::Command),
        mode@ != "dictation"@ && mode@ != "command"@ ==> r is Err && r->Err_0@
            == "Unsupported overlay preview mode `"@ + mode@ + "`"@,
{
    proof {
        reveal_strlit("dictation");
        reveal_strlit("command");
        assert("dictation"@.len() != "command"@.len());
    }
    let v = chars_of(mode);
    if eq_str(&v, "dictation") {
        Ok(PipelineMode::Dictation)
    } else if eq_str(&v, "command") {
        Ok(PipelineMode::Command)
    } else {
        let mut m: Vec<char> = Vec::new();
        push_str(&mut m, "Unsupported overlay preview mode `");
        push_all(&mut m, &v);
        push_str(&mut m, "`");
        Err(string_of(&m))
    }
}

/// Reads the recorder state of an overlay preview request: only the two
/// states that show the overlay can be previewed.
pub fn parse_preview_recording_state(state: &str) -> (r: Result<RecordingState, String>)
    ensures
        state@ == "Recording"@ ==> r == Ok::<RecordingState, String>(RecordingState::Recording),
        state@ == "Transcribing"@ ==> r == Ok::<RecordingState, String>(
            RecordingState::Transcribing,
        ),
        state@ != "Recording"@ && state@ != "Transcribing"@ ==> r is Err && r->Err_0@
            == "Unsupported overlay preview state `"@ + state@ + "`"@,
{
    proof {
        reveal_strlit("Recording");
        reveal_strlit("Transcribing");
        assert("Recording"@.len() != "Transcribing"@.len());
    }
    let v = chars_of(state);
    if eq_str(&v, "Recording") {
        Ok(RecordingState::Recording)
    } else if eq_str(&v, "Transcribing") {
        Ok(RecordingState::Transcribing)
    } else {
        let mut m: Vec<char> = Vec::new();
        push_str(&mut m, "Unsupported overlay preview state `");
        push_all(&mut m, &v);
        push_str(&mut m, "`");
        Err(string_of(&m))
    }
}

// ---------------------------------------------------------------------------
// Session time limits
// ---------------------------------------------------------------------------

/// How long a session may run, in seconds: dictation gets four minutes,
/// command mode 35 seconds.
pub open spec fn timeout_secs(mode: PipelineMode) -> u32 {
    match mode {
        PipelineMode::Dictation => 240,
        PipelineMode::Command => 35,
    }
}

/// How long a session may run (see [`timeout_secs`]).
pub fn session_timeout_secs(mode: PipelineMode) -> (s: u32)
    ensures
        s == timeout_secs(mode),
{
    match mode {
        PipelineMode::Dictation => 240,
        PipelineMode::Command => 35,
    }
}

/// The error of a session that ran out of time: a transcription failure
/// for dictation, a drafting failure for command mode.
pub fn timeout_error(mode: PipelineMode) -> (e: PipelineError)
    ensures
        mode == PipelineMode::Dictation ==> (e.stage matches StageError::Transcribe(m) && m@
            == "session timed out after "@ + decimal(timeout_secs(mode) as nat) + " seconds"@),
        mode == PipelineMode::Command ==> (e.stage matches StageError::Draft(m) && m@
            == "session timed out after "@ + decimal(timeout_secs(mode) as nat) + " seconds"@),
{
    let mut m: Vec<char> = Vec::new();
    push_str(&mut m, "session timed out after ");
    let n = decimal_chars(session_timeout_secs(mode) as u64);
    push_all(&mut m, &n);
    push_str(&mut m, " seconds");
    let msg = string_of(&m);
    match mode {
        PipelineMode::Dictation => PipelineError { stage: StageError::Transcribe(msg) },
        PipelineMode::Command => PipelineError { stage: StageError::Draft(msg) },
    }
}

// ---------------------------------------------------------------------------
// The controller
// ---------------------------------------------------------------------------

/// How the recording hotkey behaves, from the `recordingMode` setting.
#[derive(Debug, Clone, Copy, PartialEq, Eq, Structural)]
pub enum HotkeyBehaviour {
    /// A press starts or stops a recording.
    Toggle,
    /// Holding the key records; releasing it stops.
    PushToTalk,
    /// Any other setting: the hotkey does nothing.
    Inert,
}

/// The hotkey behaviour of a `recordingMode` setting.
pub fn hotkey_behaviour(recording_mode: &str) -> (b: HotkeyBehaviour)
    ensures
        recording_mode@ == "toggle"@ ==> b == HotkeyBehaviour::Toggle,
        recording_mode@ == "push-to-talk"@ ==> b == HotkeyBehaviour::PushToTalk,
        recording_mode@ != "toggle"@ && recording_mode@ != "push-to-talk"@ ==> b
            == HotkeyBehaviour::Inert,
{
    proof {
        reveal_strlit("toggle");
        reveal_strlit("push-to-talk");
        assert("toggle"@.len() != "push-to-talk"@.len());
    }
    let v = chars_of(recording_mode);
    if eq_str(&v, "toggle") {
        HotkeyBehaviour::Toggle
    } else if eq_str(&v, "push-to-talk") {
        HotkeyBehaviour::PushToTalk
    } else {
        HotkeyBehaviour::Inert
    }
}

/// The recorder's state and the mode of the recording in progress.
#[derive(Debug, Clone, Copy, PartialEq, Eq)]
pub struct Recorder {
    pub state: RecordingState,
    pub active_mode: PipelineMode,
}

/// Something the user or the pipeline did.
#[derive(Debug, Clone, Copy, PartialEq, Eq)]
pub enum RecorderEvent {
    /// The toggle command, from the window.
    Toggle(PipelineMode),
    /// The hotkey of a mode went down.
    HotkeyPressed(PipelineMode),
    /// The hotkey of a mode came up.
    HotkeyReleased(PipelineMode),
    /// The microphone started for a recording in this mode.
    AudioStarted(PipelineMode),
    /// The pipeline run finished.
    PipelineFinished,
    /// The user cancelled.
    Cancel,
}

/// What the application does next.
#[derive(Debug, Clone, PartialEq, Eq)]
pub enum RecorderAction {
    Nothing,
    /// Start the microphone; report [`RecorderEvent::AudioStarted`] when it
    /// runs.
    StartAudio(PipelineMode),
    /// Run the pipeline in this mode; report
    /// [`RecorderEvent::PipelineFinished`] when it is over.
    RunPipeline(PipelineMode),
    /// Discard the recording.
    CancelAudio,
    /// Refuse, with this message.
    Refuse(String),
}

/// The refusal before first-boot setup is finished.
pub open spec fn setup_unfinished_message() -> Seq<char> {
    "Finish first boot setup before recording."@
}

/// The refusal while a recording is being transcribed.
pub open spec fn busy_message() -> Seq<char> {
    "Currently transcribing, please wait"@
}

/// What an event does to the recorder.
///
/// - Toggle (and a press of a toggle hotkey): before setup, refused; when
///   ready, the microphone starts; when recording, the pipeline runs in
///   the recording's own mode; when transcribing, refused.
/// - A push-to-talk press starts the microphone when ready and setup is
///   done; otherwise it is ignored.
/// - A push-to-talk release stops a recording of the same mode and runs
///   the pipeline; any other release is ignored.
/// - The microphone starting makes the recorder record in that mode.
/// - The pipeline finishing makes the recorder ready.
/// - A cancel discards a recording and makes the recorder ready; it does
///   nothing in the other states.
pub fn recorder_step(
    r: Recorder,
    event: RecorderEvent,
    behaviour: HotkeyBehaviour,
    setup_done: bool,
) -> (out: (Recorder, RecorderAction))
    ensures
        match event {
            RecorderEvent::Toggle(m) => toggle_result(r, m, setup_done, out),
            RecorderEvent::HotkeyPressed(m) => match behaviour {
                HotkeyBehaviour::Toggle => toggle_result(r, m, setup_done, out),
                HotkeyBehaviour::PushToTalk => if setup_done && r.state == RecordingState::Ready {
                    out.0 == r && out.1 == RecorderAction::StartAudio(m)
                } else {
                    out.0 == r && out.1 == RecorderAction::Nothing
                },
                HotkeyBehaviour::Inert => out.0 == r && out.1 == RecorderAction::Nothing,
            },
            RecorderEvent::HotkeyReleased(m) => if behaviour == HotkeyBehaviour::PushToTalk
                && r.state == RecordingState::Recording && r.active_mode == m {
                out.0 == (Recorder { state: RecordingState::Transcribing, active_mode: m })
                    && out.1 == RecorderAction::RunPipeline(m)
            } else {
                out.0 == r && out.1 == RecorderAction::Nothing
            },
            RecorderEvent::AudioStarted(m) => out.0 == (Recorder {
                state: RecordingState::Recording,
                active_mode: m,
            }) && out.1 == RecorderAction::Nothing,
            RecorderEvent::PipelineFinished => out.0 == (Recorder {
                state: RecordingState::Ready,
                ..r
            }) && out.1 == RecorderAction::Nothing,
            RecorderEvent::Cancel => if r.state == RecordingState::Recording {
                out.0 == (Recorder { state: RecordingState::Ready, ..r }) && out.1
                    == RecorderAction::CancelAudio
            } else {
                out.0 == r && out.1 == RecorderAction::Nothing
            },
        },
{
    match event {
        RecorderEvent::Toggle(m) => toggle(r, m, setup_done),
        RecorderEvent::HotkeyPressed(m) => match behaviour {
            HotkeyBehaviour::Toggle => toggle(r, m, setup_done),
            HotkeyBehaviour::PushToTalk => {
                if setup_done && r.state == RecordingState::Ready {
                    (r, RecorderAction::StartAudio(m))
                } else {
                    (r, RecorderAction::Nothing)
                }
            },
            HotkeyBehaviour::Inert => (r, RecorderAction::Nothing),
        },
        RecorderEvent::HotkeyReleased(m) => {
            if behaviour == HotkeyBehaviour::PushToTalk && r.state == RecordingState::Recording
                && r.active_mode == m {
                (
                    Recorder { state: RecordingState::Transcribing, active_mode: m },
                    RecorderAction::RunPipeline(m),
                )
            } else {
                (r, RecorderAction::Nothing)
            }
        },
        RecorderEvent::AudioStarted(m) => (
            Recorder { state: RecordingState::Recording, active_mode: m },
            RecorderAction::Nothing,
        ),
        RecorderEvent::PipelineFinished => (
            Recorder { state: RecordingState::Ready, active_mode: r.active_mode },
            RecorderAction::Nothing,
        ),
        RecorderEvent::Cancel => {
            if r.state == RecordingState::Recording {
                (
                    Recorder { state: RecordingState::Ready, active_mode: r.active_mode },
                    RecorderAction::CancelAudio,
                )
            } else {
                (r, RecorderAction::Nothing)
            }
        },
    }
}

/// What a toggle in mode `m` does (see [`recorder_step`]).
pub open spec fn toggle_result(
    r: Recorder,
    m: PipelineMode,
    setup_done: bool,
    out: (Recorder, RecorderAction),
) -> bool {
    if !setup_done {
        out.0 == r && (out.1 matches RecorderAction::Refuse(msg) && msg@
            == setup_unfinished_message())
    } else {
        match r.state {
            RecordingState::Ready => out.0 == r && out.1 == RecorderAction::StartAudio(m),
            RecordingState::Recording => out.0 == (Recorder {
                state: RecordingState::Transcribing,
                ..r
            }) && out.1 == RecorderAction::RunPipeline(r.active_mode),
            RecordingState::Transcribing => out.0 == r && (out.1 matches RecorderAction::Refuse(
                msg,
            ) && msg@ == busy_message()),
        }
    }
}

fn toggle(r: Recorder, m: PipelineMode, setup_done: bool) -> (out: (Recorder, RecorderAction))
    ensures
        toggle_result(r, m, setup_done, out),
{
    if !setup_done {
        return (r, RecorderAction::Refuse(owned("Finish first boot setup before recording.")));
    }
    match r.state {
        RecordingState::Ready => (r, RecorderAction::StartAudio(m)),
        RecordingState::Recording => (
            Recorder { state: RecordingState::Transcribing, active_mode: r.active_mode },
            RecorderAction::RunPipeline(r.active_mode),
        ),
        RecordingState::Transcribing => (
            r,
            RecorderAction::Refuse(owned("Currently transcribing, please wait")),
        ),
    }
}

/// The pipeline only ever runs on a recording, in the mode that recording
/// was started in, and while it runs the recorder shows it is transcribing.
pub proof fn law_pipeline_runs_on_the_recording(
    r: Recorder,
    m: PipelineMode,
    setup_done: bool,
    behaviour: HotkeyBehaviour,
    out: (Recorder, RecorderAction),
    released: bool,
)
    requires
        released ==> (if behaviour == HotkeyBehaviour::PushToTalk && r.state
            == RecordingState::Recording && r.active_mode == m {
            out.0 == (Recorder { state: RecordingState::Transcribing, active_mode: m }) && out.1
                == RecorderAction::RunPipeline(m)
        } else {
            out.0 == r && out.1 == RecorderAction::Nothing
        }),
        !released ==> toggle_result(r, m, setup_done, out),
    ensures
        out.1 matches RecorderAction::RunPipeline(pm) ==> r.state == RecordingState::Recording
            && pm == r.active_mode && out.0.state == RecordingState::Transcribing,
        out.1 matches RecorderAction::StartAudio(_) ==> r.state == RecordingState::Ready
            && setup_done,
{
}

} // verus!

verus! {

// ---------------------------------------------------------------------------
// Global shortcuts
// ---------------------------------------------------------------------------

/// The shortcut to register for a hotkey setting: the trimmed setting, or
/// none when it is blank.
pub fn shortcut_to_register(hotkey: &str) -> (r: Option<String>)
    ensures
        crate::text::trim(hotkey@).len() == 0 ==> r is None,
        crate::text::trim(hotkey@).len() > 0 ==> (r matches Some(h) && h@ == crate::text::trim(
            hotkey@,
        )),
{
    let t = crate::text::trim_ws(&chars_of(hotkey));
    if t.len() == 0 {
        None
    } else {
        Some(string_of(&t))
    }
}

/// The code of `c` in lower case when it is an ASCII capital.
pub open spec fn ascii_lower(c: char) -> u32 {
    if 'A' <= c && c <= 'Z' {
        ((c as u32) + 32) as u32
    } else {
        c as u32
    }
}

/// Whether `a` and `b` are equal ignoring ASCII case
/// (`str::eq_ignore_ascii_case`).
pub open spec fn eq_ignore_ascii_case(a: Seq<char>, b: Seq<char>) -> bool {
    a.len() == b.len() && forall|i: int| 0 <= i < a.len() ==> ascii_lower(#[trigger] a[i]) == ascii_lower(b[i])
}

fn lower_ascii(c: char) -> (l: u32)
    ensures
        l == ascii_lower(c),
{
    if 'A' <= c && c <= 'Z' {
        c as u32 + 32
    } else {
        c as u32
    }
}

/// Whether the command-mode hotkey is the dictation hotkey (trimmed,
/// ignoring ASCII case): command mode is then left unregistered.
pub fn command_hotkey_clashes(dictation: &str, command: &str) -> (b: bool)
    ensures
        b == eq_ignore_ascii_case(crate::text::trim(command@), crate::text::trim(dictation@)),
{
    let a = crate::text::trim_ws(&chars_of(command));
    let b = crate::text::trim_ws(&chars_of(dictation));
    if a.len() != b.len() {
        return false;
    }
    let mut i: usize = 0;
    while i < a.len()
        invariant
            i <= a.len() == b.len(),
            a@ == crate::text::trim(command@),
            b@ == crate::text::trim(dictation@),
            forall|j: int| 0 <= j < i ==> ascii_lower(#[trigger] a@[j]) == ascii_lower(b@[j]),
        decreases a.len() - i,
    {
        if lower_ascii(a[i]) != lower_ascii(b[i]) {
            assert(!eq_ignore_ascii_case(a@, b@)) by {
                assert(ascii_lower(a@[i as int]) != ascii_lower(b@[i as int]));
            }
            return false;
        }
        i += 1;
    }
    true
}

} // verus!
