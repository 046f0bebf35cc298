use typr_lib::pipeline::inject::{
    after_clipboard, after_paste, after_typing, insert, paste, typing_plan, InjectMethod,
    InjectStep, InjectStrategy, Keystroke,
};
use typr_lib::pipeline::{
    build_record, nullable_text, purge_cap, session_step, start_session, sweep_candidates,
    CaptureOutput, PipelineError, PipelineMode, SessionAction, SessionEvent, SessionStage,
    StageError, TempFile,
};
use typr_lib::settings::schema::DataPolicy;
use typr_lib::storage::purge_plan;
use typr_lib::transcribe::TranscriptionResult;

#[test]
fn empty_text_is_noop_returning_enigo() {
    let m = insert("", InjectStrategy::DirectText);
    assert_eq!(m, InjectStep::Done(InjectMethod::Enigo));
}

#[test]
fn inject_method_is_clone_and_eq() {
    let a = InjectMethod::ClipboardOnly;
    let b = a.clone();
    assert_eq!(a, b);
    assert_ne!(a, InjectMethod::Enigo);
}

#[test]
fn inject_strategy_is_copy_and_eq() {
    let a = InjectStrategy::DirectText;
    let b = a;
    assert_eq!(a, b);
    assert_ne!(a, InjectStrategy::ClipboardPaste);
}

#[test]
fn pipeline_error_display_includes_stage_name() {
    let err = PipelineError { stage: StageError::Capture("zero speech".into()) };
    let s = err.to_string();
    assert!(s.starts_with("capture:"), "got {s}");
    assert!(s.contains("zero speech"), "got {s}");
}

#[test]
fn pipeline_error_display_covers_each_stage() {
    let cases = [
        (PipelineError { stage: StageError::Transcribe("x".into()) }, "transcribe:"),
        (PipelineError { stage: StageError::Format("x".into()) }, "format:"),
        (PipelineError { stage: StageError::Inject("x".into()) }, "inject:"),
        (PipelineError { stage: StageError::Persist("x".into()) }, "persist:"),
        (PipelineError { stage: StageError::Draft("x".into()) }, "draft:"),
    ];
    for (err, prefix) in cases {
        let s = err.to_string();
        assert!(s.starts_with(prefix), "got {s}, expected prefix {prefix}");
    }
}

#[test]
fn inject_method_clones_correctly() {
    let m = InjectMethod::Enigo;
    assert_eq!(m.clone(), InjectMethod::Enigo);
}

#[test]
fn inject_steps_degrade_to_clipboard() {
    assert_eq!(insert("hi", InjectStrategy::DirectText), InjectStep::TypeText);
    assert_eq!(insert("hi", InjectStrategy::ClipboardPaste), InjectStep::WriteClipboard);
    assert_eq!(paste("hi"), InjectStep::WriteClipboard);
    assert_eq!(after_typing(Ok(())), InjectStep::Done(InjectMethod::DirectText));
    assert_eq!(after_typing(Err("no".into())), InjectStep::WriteClipboard);
    assert_eq!(after_clipboard(Ok(())), InjectStep::PressPaste);
    assert_eq!(after_clipboard(Err("clipboard set: busy".into())), InjectStep::Failed("clipboard set: busy".into()));
    assert_eq!(after_paste(Ok(())), InjectStep::Done(InjectMethod::Enigo));
    assert_eq!(after_paste(Err("x".into())), InjectStep::Done(InjectMethod::ClipboardOnly));
}

#[test]
fn typing_plan_maps_control_characters() {
    let p = typing_plan("a\r\n\tb");
    assert_eq!(
        p.keys,
        vec![Keystroke::Unicode('a'), Keystroke::Return, Keystroke::Tab, Keystroke::Unicode('b')]
    );
    assert_eq!(p.error, None);
    let p = typing_plan("ab\0c");
    assert_eq!(p.keys, vec![Keystroke::Unicode('a'), Keystroke::Unicode('b')]);
    assert_eq!(p.error.as_deref(), Some("text contains null byte"));
}

fn capture(bytes: u64) -> CaptureOutput {
    CaptureOutput { wav_path: "C:\\tmp\\s.wav".into(), duration_ms: 1500, byte_size: bytes }
}

fn transcript(text: &str) -> TranscriptionResult {
    TranscriptionResult { text: text.into(), language: Some("pt".into()), duration_ms: 10, model: "turbo".into() }
}

#[test]
fn session_runs_all_stages() {
    let (s, a) = start_session(PipelineMode::Dictation, "local");
    assert!(matches!(a, SessionAction::StopAndSave));
    let (s, a) = session_step(s, SessionEvent::Captured(Ok(capture(4096))));
    match a {
        SessionAction::Transcribe { wav_path } => assert_eq!(wav_path, "C:\\tmp\\s.wav"),
        other => panic!("unexpected {:?}", other),
    }
    let (s, a) = session_step(s, SessionEvent::Transcribed(Ok(transcript("olá mundo"))));
    match a {
        SessionAction::Format { raw } => assert_eq!(raw, "olá mundo"),
        other => panic!("unexpected {:?}", other),
    }
    let (s, a) = session_step(s, SessionEvent::Formatted(Ok("Olá mundo.".into())));
    match a {
        SessionAction::Inject { text } => assert_eq!(text, "Olá mundo."),
        other => panic!("unexpected {:?}", other),
    }
    let (s, a) = session_step(s, SessionEvent::Injected(Ok(InjectMethod::DirectText)));
    match a {
        SessionAction::Persist { record } => {
            assert_eq!(record.raw_text, "olá mundo");
            assert_eq!(record.final_text, "Olá mundo.");
            assert_eq!(record.word_count, 2);
            assert_eq!(record.duration_ms, 1500);
            assert_eq!(record.language, "pt");
            assert_eq!(record.engine, "local");
            assert_eq!(record.model, "turbo");
            assert_eq!(record.app_context, "");
            assert_eq!(record.mode, "dictation");
            assert!(!record.enhanced);
        }
        other => panic!("unexpected {:?}", other),
    }
    let (s, a) = session_step(s, SessionEvent::Persisted(Ok(42)));
    assert_eq!(s.stage, SessionStage::Done);
    match a {
        SessionAction::Finish { outcome, remove_wav } => {
            assert_eq!(outcome, Ok(42));
            assert_eq!(remove_wav.as_deref(), Some("C:\\tmp\\s.wav"));
        }
        other => panic!("unexpected {:?}", other),
    }
}

#[test]
fn session_short_circuits_on_silence_and_failures() {
    let (s, _) = start_session(PipelineMode::Dictation, "local");
    let (_, a) = session_step(s, SessionEvent::Captured(Ok(capture(100))));
    match a {
        SessionAction::Finish { outcome: Err(e), remove_wav } => {
            assert_eq!(e.to_string(), "capture: zero speech captured");
            assert_eq!(remove_wav.as_deref(), Some("C:\\tmp\\s.wav"));
        }
        other => panic!("unexpected {:?}", other),
    }
    let (_, a) = start_session(PipelineMode::Command, "local");
    match a {
        SessionAction::Finish { outcome: Err(e), remove_wav: None } => {
            assert_eq!(e.to_string(), "capture: command mode is Phase 4")
        }
        other => panic!("unexpected {:?}", other),
    }
    let (s, _) = start_session(PipelineMode::Dictation, "cloud");
    let (s, _) = session_step(s, SessionEvent::Captured(Ok(capture(4096))));
    let (_, a) = session_step(s, SessionEvent::Transcribed(Err("boom".into())));
    match a {
        SessionAction::Finish { outcome: Err(e), remove_wav: None } => {
            assert_eq!(e.to_string(), "transcribe: boom")
        }
        other => panic!("unexpected {:?}", other),
    }
}

#[test]
fn empty_formatted_text_skips_injection() {
    let (s, _) = start_session(PipelineMode::Dictation, "local");
    let (s, _) = session_step(s, SessionEvent::Captured(Ok(capture(4096))));
    let (s, _) = session_step(s, SessionEvent::Transcribed(Ok(transcript(""))));
    let (_, a) = session_step(s, SessionEvent::Formatted(Ok(String::new())));
    match a {
        SessionAction::Persist { record } => assert_eq!(record.word_count, 0),
        other => panic!("unexpected {:?}", other),
    }
}

#[test]
fn record_and_column_helpers() {
    let r = build_record(&capture(4096), &transcript("a"), "one two  three", "groq");
    assert_eq!(r.word_count, 3);
    assert_eq!(nullable_text(""), None);
    assert_eq!(nullable_text("turbo").as_deref(), Some("turbo"));
    let on = DataPolicy { word_count_cap: 5, purge_on_exceed: true };
    let off = DataPolicy { word_count_cap: 5, purge_on_exceed: false };
    assert_eq!(purge_cap(&on, 6), Some(5));
    assert_eq!(purge_cap(&on, 5), None);
    assert_eq!(purge_cap(&off, 6), None);
}

#[test]
fn sweep_picks_old_wav_and_txt_only() {
    let files = vec![
        TempFile { path: "C:\\tmp\\old.wav".into(), age_ms: Some(1_800_000) },
        TempFile { path: "C:\\tmp\\new.wav".into(), age_ms: Some(1_000) },
        TempFile { path: "C:\\tmp\\old.txt".into(), age_ms: Some(1_800_000) },
        TempFile { path: "C:\\tmp\\other.bin".into(), age_ms: Some(1_800_000) },
        TempFile { path: "C:\\tmp\\.wav".into(), age_ms: Some(1_800_000) },
        TempFile { path: "C:\\tmp\\unknown.wav".into(), age_ms: None },
    ];
    assert_eq!(
        sweep_candidates(&files, 600_000),
        vec!["C:\\tmp\\old.wav".to_string(), "C:\\tmp\\old.txt".to_string()]
    );
}

#[test]
fn capture_output_carries_expected_fields() {
    let cap = CaptureOutput { wav_path: "Z:/tmp/x.wav".to_string(), duration_ms: 1234, byte_size: 4096 };
    assert_eq!(cap.duration_ms, 1234);
    assert_eq!(cap.byte_size, 4096);
    assert_eq!(std::path::Path::new(&cap.wav_path).extension().and_then(|s| s.to_str()), Some("wav"));
}

/// Commits sessions of `words` words each into an in-memory table (oldest
/// first), purging after each commit as the policy says.
fn commit_all(policy: &DataPolicy, words: i64, sessions: usize) -> Vec<i64> {
    let mut rows: Vec<i64> = Vec::new();
    for _ in 0..sessions {
        rows.push(words);
        let total: i64 = rows.iter().sum();
        if let Some(cap) = purge_cap(policy, total) {
            let k = purge_plan(&rows, cap);
            rows.drain(0..k);
        }
    }
    rows
}

#[test]
fn purges_when_cap_exceeded() {
    let policy = DataPolicy { word_count_cap: 5, purge_on_exceed: true };
    let rows = commit_all(&policy, 2, 10);
    let total: i64 = rows.iter().sum();
    assert!(total <= 5, "purge should keep total under cap, got {total}");
    assert_eq!(total, 4);
}

#[test]
fn skips_purge_when_disabled() {
    let policy = DataPolicy { word_count_cap: 5, purge_on_exceed: false };
    let rows = commit_all(&policy, 2, 10);
    let total: i64 = rows.iter().sum();
    assert!(total > 5, "purge disabled, expected total > 5, got {total}");
    assert_eq!(total, 20, "all 10 rows of 2 words each should remain");
}

#[test]
fn empty_app_context_stored_as_null() {
    assert!(nullable_text("").is_none());
    assert_eq!(nullable_text("code.exe"), Some("code.exe".to_string()));
}

#[test]
fn sweep_dir_deletes_old_files_only() {
    let files = vec![
        TempFile { path: "/tmp/typr/old.wav".into(), age_ms: Some(30 * 60 * 1000) },
        TempFile { path: "/tmp/typr/new.wav".into(), age_ms: Some(0) },
    ];
    let n = sweep_candidates(&files, 10 * 60 * 1000);
    assert_eq!(n, vec!["/tmp/typr/old.wav".to_string()]);
}

#[test]
fn sweep_dir_ignores_non_wav() {
    let files = vec![TempFile { path: "/tmp/typr/other.bin".into(), age_ms: Some(30 * 60 * 1000) }];
    assert!(sweep_candidates(&files, 10 * 60 * 1000).is_empty());
}
