//! The dictation pipeline: capture → transcribe → format → inject →
//! persist. The stages themselves (audio, engines, clipboard, database)
//! run outside; this module decides what comes next from what each stage
//! reported, and builds what the stages are handed.
pub mod inject;

use vstd::prelude::*;

use crate::pipeline::inject::InjectMethod;
use crate::settings::schema::DataPolicy;
use crate::text::{chars_of, owned, push_str, split_whitespace, split_whitespace_chars, string_of};
use crate::transcribe::TranscriptionResult;

verus! {

/// Which arm of the pipeline runs.
#[derive(Debug, Clone, Copy, PartialEq, Eq, Structural)]
pub enum PipelineMode {
    Dictation,
    Command,
}

/// The stage that failed, with its message.
#[derive(Debug, Clone, PartialEq)]
pub enum StageError {
    Capture(String),
    Transcribe(String),
    Format(String),
    Inject(String),
    Persist(String),
    Draft(String),
}

/// A failed session.
#[derive(Debug, Clone, PartialEq)]
pub struct PipelineError {
    pub stage: StageError,
}

/// The message of a failed session: the stage's tag, a colon, the stage's
/// message.
pub open spec fn pipeline_error_message(e: PipelineError) -> Seq<char> {
    match e.stage {
        StageError::Capture(m) => "capture: "@ + m@,
        StageError::Transcribe(m) => "transcribe: "@ + m@,
        StageError::Format(m) => "format: "@ + m@,
        StageError::Inject(m) => "inject: "@ + m@,
        StageError::Persist(m) => "persist: "@ + m@,
        StageError::Draft(m) => "draft: "@ + m@,
    }
}

impl PipelineError {
    /// The error's message (see [`pipeline_error_message`]).
    pub fn to_string(&self) -> (s: String)
        ensures
            s@ == pipeline_error_message(*self),
    {
        let mut v: Vec<char> = Vec::new();
        match &self.stage {
            StageError::Capture(m) => {
                push_str(&mut v, "capture: ");
                push_str(&mut v, m.as_str());
            },
            StageError::Transcribe(m) => {
                push_str(&mut v, "transcribe: ");
                push_str(&mut v, m.as_str());
            },
            StageError::Format(m) => {
                push_str(&mut v, "format: ");
                push_str(&mut v, m.as_str());
            },
            StageError::Inject(m) => {
                push_str(&mut v, "inject: ");
                push_str(&mut v, m.as_str());
            },
            StageError::Persist(m) => {
                push_str(&mut v, "persist: ");
                push_str(&mut v, m.as_str());
            },
            StageError::Draft(m) => {
                push_str(&mut v, "draft: ");
                push_str(&mut v, m.as_str());
            },
        }
        string_of(&v)
    }
}

/// What the capture stage produced: the WAV file, how long the recording
/// ran and how large the file is.
#[derive(Debug, Clone, PartialEq)]
pub struct CaptureOutput {
    pub wav_path: String,
    pub duration_ms: u64,
    pub byte_size: u64,
}

/// A WAV smaller than this holds no recognisable audio.
pub const MIN_WAV_BYTES: u64 = 1024;

/// One finished session, ready to persist.
#[derive(Debug, Clone, PartialEq)]
pub struct TranscriptionRecord {
    pub raw_text: String,
    pub final_text: String,
    pub word_count: i64,
    pub duration_ms: i64,
    /// ISO-639-1 code, or empty when unknown.
    pub language: String,
    pub engine: String,
    pub model: String,
    /// Foreground application; empty when unknown.
    pub app_context: String,
    pub mode: String,
    pub enhanced: bool,
}

// ---------------------------------------------------------------------------
// The session
// ---------------------------------------------------------------------------

/// Where a session stands.
#[derive(Debug, Clone, Copy, PartialEq, Eq, Structural)]
pub enum SessionStage {
    Capturing,
    Transcribing,
    Formatting,
    Injecting,
    Persisting,
    Done,
}

/// A dictation session in progress.
#[derive(Debug)]
pub struct Session {
    pub stage: SessionStage,
    /// The transcription engine of the settings.
    pub engine: String,
    pub capture: Option<CaptureOutput>,
    pub transcript: Option<TranscriptionResult>,
    pub final_text: Option<String>,
}

/// What the session asks for next.
#[derive(Debug)]
pub enum SessionAction {
    /// Stop the recorder and save the WAV; report [`SessionEvent::Captured`].
    StopAndSave,
    /// Transcribe the WAV; report [`SessionEvent::Transcribed`].
    Transcribe { wav_path: String },
    /// Format the raw transcript; report [`SessionEvent::Formatted`].
    Format { raw: String },
    /// Put the text into the focused application; report
    /// [`SessionEvent::Injected`].
    Inject { text: String },
    /// Store the record; report [`SessionEvent::Persisted`].
    Persist { record: TranscriptionRecord },
    /// The session is over; remove the WAV when one is named.
    Finish { outcome: Result<i64, PipelineError>, remove_wav: Option<String> },
}

/// What a stage reported.
#[derive(Debug)]
pub enum SessionEvent {
    Captured(Result<CaptureOutput, String>),
    Transcribed(Result<TranscriptionResult, String>),
    Formatted(Result<String, String>),
    Injected(Result<InjectMethod, String>),
    Persisted(Result<i64, String>),
}

impl Session {
    /// The session holds what its stage needs.
    pub open spec fn wf(&self) -> bool {
        &&& (self.stage == SessionStage::Transcribing || self.stage == SessionStage::Formatting
            || self.stage == SessionStage::Injecting || self.stage == SessionStage::Persisting)
            ==> self.capture is Some
        &&& (self.stage == SessionStage::Formatting || self.stage == SessionStage::Injecting
            || self.stage == SessionStage::Persisting) ==> self.transcript is Some
        &&& (self.stage == SessionStage::Injecting || self.stage == SessionStage::Persisting)
            ==> self.final_text is Some
    }
}

/// Whether `e` is the report that a session at `stage` waits for.
pub open spec fn event_fits(stage: SessionStage, e: SessionEvent) -> bool {
    match e {
        SessionEvent::Captured(_) => stage == SessionStage::Capturing,
        SessionEvent::Transcribed(_) => stage == SessionStage::Transcribing,
        SessionEvent::Formatted(_) => stage == SessionStage::Formatting,
        SessionEvent::Injected(_) => stage == SessionStage::Injecting,
        SessionEvent::Persisted(_) => stage == SessionStage::Persisting,
    }
}

/// The number of white-space separated words of `s`.
pub open spec fn word_count(s: Seq<char>) -> int {
    split_whitespace(s).len() as int
}

/// Whether `r` is the record of a session with capture `c`, transcript
/// `t`, final text `text` and engine `engine`.
pub open spec fn record_of(
    r: TranscriptionRecord,
    c: CaptureOutput,
    t: TranscriptionResult,
    text: Seq<char>,
    engine: Seq<char>,
) -> bool {
    &&& r.raw_text@ == t.text@
    &&& r.final_text@ == text
    &&& r.word_count == word_count(text) as i64
    &&& r.duration_ms == c.duration_ms as i64
    &&& r.language@ == match t.language {
        Some(l) => l@,
        None => Seq::<char>::empty(),
    }
    &&& r.engine@ == engine
    &&& r.model@ == t.model@
    &&& r.app_context@ == Seq::<char>::empty()
    &&& r.mode@ == "dictation"@
    &&& !r.enhanced
}

/// Builds the record of a finished session (see [`record_of`]).
pub fn build_record(c: &CaptureOutput, t: &TranscriptionResult, text: &str, engine: &str) -> (r:
    TranscriptionRecord)
    ensures
        record_of(r, *c, *t, text@, engine@),
{
    let words = split_whitespace_chars(&chars_of(text));
    let language = match &t.language {
        Some(l) => owned(l.as_str()),
        None => String::new(),
    };
    TranscriptionRecord {
        raw_text: owned(t.text.as_str()),
        final_text: owned(text),
        word_count: words.len() as i64,
        duration_ms: c.duration_ms as i64,
        language,
        engine: owned(engine),
        model: owned(t.model.as_str()),
        app_context: String::new(),
        mode: owned("dictation"),
        enhanced: false,
    }
}

/// Starts a session: a dictation session first stops the recorder; the
/// command arm is not served by this pipeline.
pub fn start_session(mode: PipelineMode, engine: &str) -> (r: (Session, SessionAction))
    ensures
        r.0.wf(),
        r.0.engine@ == engine@,
        mode == PipelineMode::Dictation ==> r.0.stage == SessionStage::Capturing
            && r.1 is StopAndSave,
        mode == PipelineMode::Command ==> r.0.stage == SessionStage::Done && (r.1 matches
            SessionAction::Finish { outcome: Err(e), remove_wav: None } && (e.stage matches
            StageError::Capture(m) && m@ == "command mode is Phase 4"@)),
{
    let s = Session {
        stage: SessionStage::Capturing,
        engine: owned(engine),
        capture: None,
        transcript: None,
        final_text: None,
    };
    match mode {
        PipelineMode::Dictation => (s, SessionAction::StopAndSave),
        PipelineMode::Command => {
            let s = Session { stage: SessionStage::Done, ..s };
            (
                s,
                SessionAction::Finish {
                    outcome: Err(
                        PipelineError {
                            stage: StageError::Capture(owned("command mode is Phase 4")),
                        },
                    ),
                    remove_wav: None,
                },
            )
        },
    }
}

/// Whether `a` ends the session with the failure of stage `stage` and
/// keeps the WAV.
pub open spec fn fails_at(a: SessionAction, stage: StageError) -> bool {
    a matches SessionAction::Finish { outcome: Err(e), remove_wav: None } && e.stage == stage
}

/// Moves a session on with what its stage reported.
///
/// A failed stage ends the session with that stage's error, leaving the
/// WAV for the temporary-file sweep. A recording too small to hold audio
/// ends it with `zero speech captured` and removes the WAV. An empty
/// formatted text is not injected but still persisted. A persisted
/// session ends with the new row's id and removes the WAV.
pub fn session_step(s: Session, e: SessionEvent) -> (r: (Session, SessionAction))
    requires
        s.wf(),
        event_fits(s.stage, e),
    ensures
        r.0.wf(),
        r.0.engine == s.engine,
        r.0.stage == SessionStage::Done <==> r.1 is Finish,
        match e {
            SessionEvent::Captured(Err(m)) => fails_at(r.1, StageError::Capture(m)),
            SessionEvent::Captured(Ok(c)) => if c.byte_size < MIN_WAV_BYTES {
                r.1 matches SessionAction::Finish { outcome: Err(err), remove_wav: Some(w) }
                    && w == c.wav_path && (err.stage matches StageError::Capture(m) && m@
                    == "zero speech captured"@)
            } else {
                r.0.stage == SessionStage::Transcribing && r.0.capture == Some(c) && (r.1 matches
                    SessionAction::Transcribe { wav_path } && wav_path == c.wav_path)
            },
            SessionEvent::Transcribed(Err(m)) => fails_at(r.1, StageError::Transcribe(m)),
            SessionEvent::Transcribed(Ok(t)) => r.0.stage == SessionStage::Formatting
                && r.0.capture == s.capture && r.0.transcript == Some(t) && (r.1 matches
                SessionAction::Format { raw } && raw@ == t.text@),
            SessionEvent::Formatted(Err(m)) => fails_at(r.1, StageError::Format(m)),
            SessionEvent::Formatted(Ok(text)) => r.0.final_text == Some(text) && (if text@.len()
                > 0 {
                r.0.stage == SessionStage::Injecting && (r.1 matches SessionAction::Inject {
                    text: t,
                } && t == text)
            } else {
                r.0.stage == SessionStage::Persisting && (r.1 matches SessionAction::Persist {
                    record,
                } && record_of(
                    record,
                    s.capture->Some_0,
                    s.transcript->Some_0,
                    text@,
                    s.engine@,
                ))
            }),
            SessionEvent::Injected(Err(m)) => fails_at(r.1, StageError::Inject(m)),
            SessionEvent::Injected(Ok(_)) => r.0.stage == SessionStage::Persisting && (r.1 matches
                SessionAction::Persist { record } && record_of(
                record,
                s.capture->Some_0,
                s.transcript->Some_0,
                s.final_text->Some_0@,
                s.engine@,
            )),
            SessionEvent::Persisted(Err(m)) => fails_at(r.1, StageError::Persist(m)),
            SessionEvent::Persisted(Ok(id)) => r.1 matches SessionAction::Finish {
                outcome: Ok(i),
                remove_wav: Some(w),
            } && i == id && w == s.capture->Some_0.wav_path,
        },
{
    let mut s = s;
    match e {
        SessionEvent::Captured(Err(m)) => {
            s.stage = SessionStage::Done;
            (s, fail(StageError::Capture(m)))
        },
        SessionEvent::Captured(Ok(c)) => {
            if c.byte_size < MIN_WAV_BYTES {
                s.stage = SessionStage::Done;
                let w = c.wav_path;
                (
                    s,
                    SessionAction::Finish {
                        outcome: Err(
                            PipelineError {
                                stage: StageError::Capture(owned("zero speech captured")),
                            },
                        ),
                        remove_wav: Some(w),
                    },
                )
            } else {
                let w = c.wav_path.clone();
                s.capture = Some(c);
                s.stage = SessionStage::Transcribing;
                (s, SessionAction::Transcribe { wav_path: w })
            }
        },
        SessionEvent::Transcribed(Err(m)) => {
            s.stage = SessionStage::Done;
            (s, fail(StageError::Transcribe(m)))
        },
        SessionEvent::Transcribed(Ok(t)) => {
            let raw = owned(t.text.as_str());
            s.transcript = Some(t);
            s.stage = SessionStage::Formatting;
            (s, SessionAction::Format { raw })
        },
        SessionEvent::Formatted(Err(m)) => {
            s.stage = SessionStage::Done;
            (s, fail(StageError::Format(m)))
        },
        SessionEvent::Formatted(Ok(text)) => {
            let tv = chars_of(text.as_str());
            if tv.len() > 0 {
                let t2 = text.clone();
                s.final_text = Some(text);
                s.stage = SessionStage::Injecting;
                (s, SessionAction::Inject { text: t2 })
            } else {
                let record = match (&s.capture, &s.transcript) {
                    (Some(c), Some(t)) => build_record(c, t, text.as_str(), s.engine.as_str()),
                    _ => {
                        proof {
                            assert(false);
                        }
                        return (s, SessionAction::StopAndSave);
                    },
                };
                s.final_text = Some(text);
                s.stage = SessionStage::Persisting;
                (s, SessionAction::Persist { record })
            }
        },
        SessionEvent::Injected(Err(m)) => {
            s.stage = SessionStage::Done;
            (s, fail(StageError::Inject(m)))
        },
        SessionEvent::Injected(Ok(_)) => {
            let record = match (&s.capture, &s.transcript, &s.final_text) {
                (Some(c), Some(t), Some(text)) => build_record(
                    c,
                    t,
                    text.as_str(),
                    s.engine.as_str(),
                ),
                _ => {
                    proof {
                        assert(false);
                    }
                    return (s, SessionAction::StopAndSave);
                },
            };
            s.stage = SessionStage::Persisting;
            (s, SessionAction::Persist { record })
        },
        SessionEvent::Persisted(Err(m)) => {
            s.stage = SessionStage::Done;
            (s, fail(StageError::Persist(m)))
        },
        SessionEvent::Persisted(Ok(id)) => {
            let w = match &s.capture {
                Some(c) => c.wav_path.clone(),
                None => {
                    proof {
                        assert(false);
                    }
                    String::new()
                },
            };
            s.stage = SessionStage::Done;
            (s, SessionAction::Finish { outcome: Ok(id), remove_wav: Some(w) })
        },
    }
}

fn fail(stage: StageError) -> (a: SessionAction)
    ensures
        fails_at(a, stage),
{
    SessionAction::Finish { outcome: Err(PipelineError { stage }), remove_wav: None }
}

// ---------------------------------------------------------------------------
// Persisting
// ---------------------------------------------------------------------------

/// A text stored as a nullable column: empty means no value.
pub open spec fn nullable(s: Seq<char>) -> Option<Seq<char>> {
    if s.len() == 0 {
        None
    } else {
        Some(s)
    }
}

/// The column value of `s`: `None` for an empty text.
pub fn nullable_text(s: &str) -> (r: Option<String>)
    ensures
        match r {
            Some(t) => nullable(s@) == Some(t@),
            None => nullable(s@) is None,
        },
{
    let v = chars_of(s);
    if v.len() == 0 {
        None
    } else {
        Some(owned(s))
    }
}

/// The word cap to purge down to after a session, when the policy asks
/// for a purge and the stored words exceed the cap.
pub fn purge_cap(policy: &DataPolicy, total_words: i64) -> (r: Option<i64>)
    ensures
        r == (if policy.purge_on_exceed && total_words > policy.word_count_cap as i64 {
            Some(policy.word_count_cap as i64)
        } else {
            None
        }),
{
    if policy.purge_on_exceed {
        let cap = policy.word_count_cap as i64;
        if total_words > cap {
            return Some(cap);
        }
    }
    None
}

} // verus!

verus! {

// ---------------------------------------------------------------------------
// Temporary files
// ---------------------------------------------------------------------------

/// The extension of the path `p`, as `Path::extension` gives it: what
/// follows the last `.` of the file name, unless that dot starts it.
pub open spec fn extension(p: Seq<char>) -> Option<Seq<char>> {
    match crate::transcribe::file_name(p) {
        Some(n) => match crate::transcribe::last_dot(n) {
            Some(i) => if i > 0 {
                Some(n.skip(i + 1))
            } else {
                None
            },
            None => None,
        },
        None => None,
    }
}

/// A file in the temporary directory, with its age when it could be
/// read (`None` when the file's metadata or time could not be read, or
/// lies in the future).
#[derive(Debug, Clone, PartialEq)]
pub struct TempFile {
    pub path: String,
    pub age_ms: Option<u128>,
}

/// Whether the sweep deletes `f`: a `.wav` or `.txt` file at least
/// `older_than_ms` old.
pub open spec fn sweepable(f: TempFile, older_than_ms: u128) -> bool {
    &&& (extension(f.path@) == Some("wav"@) || extension(f.path@) == Some("txt"@))
    &&& f.age_ms matches Some(age) && age >= older_than_ms
}

fn extension_is(path: &Vec<char>, ext: &str) -> (b: bool)
    ensures
        b == (extension(path@) == Some(ext@)),
{
    let label_bounds = crate::transcribe::file_name_bounds(path);
    match label_bounds {
        Some((a, b)) => {
            let ghost name = path@.subrange(a as int, b as int);
            let mut k: usize = b;
            while k > a && path[k - 1] != '.'
                invariant
                    a <= k <= b <= path.len(),
                    name == path@.subrange(a as int, b as int),
                    crate::transcribe::last_dot(name) == crate::transcribe::last_dot(
                        path@.subrange(a as int, k as int),
                    ),
                decreases k,
            {
                assert(path@.subrange(a as int, k as int).drop_last() =~= path@.subrange(
                    a as int,
                    k - 1,
                ));
                k -= 1;
            }
            if k > a && k - a > 1 {
                assert(path@.subrange(a as int, k as int).last() == path@[k - 1]);
                let e = crate::text::copy_range(path, k, b);
                assert(e@ =~= name.skip(k - a));
                crate::text::eq_str(&e, ext)
            } else {
                proof {
                    if k > a {
                        assert(path@.subrange(a as int, k as int).last() == path@[k - 1]);
                    } else {
                        assert(path@.subrange(a as int, k as int) =~= Seq::<char>::empty());
                    }
                }
                false
            }
        },
        None => false,
    }
}

/// The temporary files the sweep deletes, in order (see [`sweepable`]).
pub fn sweep_candidates(files: &[TempFile], older_than_ms: u128) -> (out: Vec<String>)
    ensures
        out@.map_values(|p: String| p@) == files@.filter(|f: TempFile| sweepable(f, older_than_ms)).map_values(
            |f: TempFile| f.path@,
        ),
{
    let ghost pick = |f: TempFile| sweepable(f, older_than_ms);
    let mut out: Vec<String> = Vec::new();
    let mut i: usize = 0;
    while i < files.len()
        invariant
            i <= files.len(),
            pick == (|f: TempFile| sweepable(f, older_than_ms)),
            out@.map_values(|p: String| p@) == files@.take(i as int).filter(pick).map_values(
                |f: TempFile| f.path@,
            ),
        decreases files.len() - i,
    {
        let f = &files[i];
        let p = chars_of(f.path.as_str());
        let old_enough = match f.age_ms {
            Some(age) => age >= older_than_ms,
            None => false,
        };
        let keep = old_enough && (extension_is(&p, "wav") || extension_is(&p, "txt"));
        proof {
            assert(files@.take(i + 1).drop_last() =~= files@.take(i as int));
            assert(files@.take(i + 1).last() == files@[i as int]);
            reveal(Seq::filter);
        }
        let ghost before = out@;
        if keep {
            out.push(owned(f.path.as_str()));
            assert(out@.map_values(|p: String| p@) =~= before.map_values(|p: String| p@).push(
                files@[i as int].path@,
            ));
            assert(files@.take(i + 1).filter(pick) =~= files@.take(i as int).filter(pick).push(
                files@[i as int],
            ));
            assert(files@.take(i + 1).filter(pick).map_values(|f: TempFile| f.path@) =~= files@.take(
                i as int,
            ).filter(pick).map_values(|f: TempFile| f.path@).push(files@[i as int].path@));
        } else {
            assert(files@.take(i + 1).filter(pick) =~= files@.take(i as int).filter(pick));
        }
        i += 1;
    }
    assert(files@.take(files.len() as int) =~= files@);
    out
}

} // verus!
