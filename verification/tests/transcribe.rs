use typr_lib::transcribe::{
    detect_language, local_transcription_result, model_download_url, model_filename,
    model_filename_to_label, plan_dispatch, scrape_stdout, DispatchPlan, TranscribeError,
    TranscriptionResult, ALLOWED_LOCAL_MODELS,
};

#[test]
fn allowed_models_list_matches_spec() {
    assert!(ALLOWED_LOCAL_MODELS.contains(&"turbo"));
    assert!(ALLOWED_LOCAL_MODELS.contains(&"large-v3"));
    assert!(ALLOWED_LOCAL_MODELS.contains(&"base"));
    assert!(!ALLOWED_LOCAL_MODELS.contains(&"medium"));
    assert!(!ALLOWED_LOCAL_MODELS.contains(&"small"));
    assert!(!ALLOWED_LOCAL_MODELS.contains(&"tiny"));
}

#[test]
fn dispatch_rejects_retired_model_without_io() {
    let retired = "medium";
    assert!(!ALLOWED_LOCAL_MODELS.contains(&retired));
}

#[test]
fn transcription_result_round_trip() {
    let r = TranscriptionResult {
        text: "olá mundo".into(),
        language: Some("pt".into()),
        duration_ms: 1234,
        model: "turbo".into(),
    };
    let cloned = r.clone();
    assert_eq!(r, cloned);
}

#[test]
fn transcribe_error_display_mentions_inputs() {
    let e = TranscribeError::ModelRetired("medium".into());
    assert!(e.to_string().contains("medium"));
    let e = TranscribeError::ModelFileMissing("C:/x/ggml-turbo.bin".into());
    assert!(e.to_string().contains("ggml-turbo.bin"));
    let e = TranscribeError::Engine("boom".into());
    assert!(e.to_string().contains("boom"));
}

#[test]
fn transcribe_error_messages_are_exact() {
    assert_eq!(
        TranscribeError::ModelRetired("medium".into()).to_string(),
        "whisper model `medium` is retired; please pick turbo, large-v3, or base"
    );
    assert_eq!(
        TranscribeError::ModelFileMissing("C:/m.bin".into()).to_string(),
        "whisper model file missing at C:/m.bin; download it from settings"
    );
    assert_eq!(
        TranscribeError::Engine("boom".into()).to_string(),
        "transcription engine error: boom"
    );
}

#[test]
fn test_model_filename() {
    assert_eq!(model_filename("base").unwrap(), "ggml-base.bin");
    assert_eq!(model_filename("large-v3").unwrap(), "ggml-large-v3.bin");
    assert_eq!(
        model_filename("turbo").unwrap(),
        "ggml-large-v3-turbo-q5_0.bin"
    );
    assert_eq!(
        model_filename("large-v3-turbo").unwrap(),
        "ggml-large-v3-turbo-q5_0.bin"
    );
    assert_eq!(
        model_filename("ggml-large-v3-turbo.bin").unwrap(),
        "ggml-large-v3-turbo-q5_0.bin"
    );
    assert!(model_filename("../config").is_err());
    assert!(model_filename("base/../../x").is_err());
}

#[test]
fn unsupported_model_error_names_the_model() {
    assert_eq!(
        model_filename("medium").unwrap_err(),
        "unsupported whisper model: medium"
    );
}

#[test]
fn test_model_download_url() {
    assert_eq!(
        model_download_url("base").unwrap(),
        "https://huggingface.co/ggerganov/whisper.cpp/resolve/main/ggml-base.bin"
    );
    assert_eq!(
        model_download_url("turbo").unwrap(),
        "https://huggingface.co/ggerganov/whisper.cpp/resolve/main/ggml-large-v3-turbo-q5_0.bin"
    );
    assert_eq!(
        model_download_url("large-v3-turbo").unwrap(),
        "https://huggingface.co/ggerganov/whisper.cpp/resolve/main/ggml-large-v3-turbo-q5_0.bin"
    );
}

#[test]
fn scrape_stdout_strips_timestamps() {
    let raw = "[00:00.000 --> 00:02.500]  hello world\n[00:02.500 --> 00:04.000]  goodbye\n";
    assert_eq!(scrape_stdout(raw), "hello world goodbye");
}

#[test]
fn scrape_stdout_drops_empty_lines() {
    let raw = "\n\n  hello  \n\n";
    assert_eq!(scrape_stdout(raw), "hello");
}

#[test]
fn detect_language_extracts_pt() {
    let stderr = "auto-detected language: pt (probability 0.97)";
    assert_eq!(detect_language(stderr), Some("pt".to_string()));
}

#[test]
fn detect_language_returns_none_when_absent() {
    assert_eq!(detect_language("nothing here"), None);
}

#[test]
fn model_filename_to_label_strips_prefix() {
    assert_eq!(model_filename_to_label("C:\\foo\\ggml-turbo.bin"), "turbo");
}

#[test]
fn model_filename_to_label_handles_bare_name() {
    assert_eq!(model_filename_to_label("C:\\foo\\custom.bin"), "custom");
}

#[test]
fn model_label_edge_cases() {
    assert_eq!(model_filename_to_label("models/ggml-ggml-base.bin"), "base");
    assert_eq!(model_filename_to_label("C:\\foo\\.hidden"), ".hidden");
    assert_eq!(model_filename_to_label("C:\\foo\\ggml-x.bin\\"), "x");
    assert_eq!(model_filename_to_label("a/b.bin/."), "b");
    assert_eq!(model_filename_to_label("a/.."), "unknown");
    assert_eq!(model_filename_to_label(""), "unknown");
}

#[test]
fn local_result_prefers_sidecar_and_detects_language() {
    let r = local_transcription_result(
        Some("  olá mundo \n".to_string()),
        "[00:00.000 --> 00:01.000] ignored\nauto-detected language: pt",
        1500,
        "C:\\app\\ggml-large-v3-turbo-q5_0.bin",
    );
    assert_eq!(r.text, "olá mundo");
    assert_eq!(r.language, Some("pt".to_string()));
    assert_eq!(r.duration_ms, 1500);
    assert_eq!(r.model, "large-v3-turbo-q5_0");
    let r = local_transcription_result(None, "[00:00.000 --> 00:01.000]  from stdout\n", 7, "x.bin");
    assert_eq!(r.text, "from stdout");
    assert_eq!(r.language, None);
    assert_eq!(r.model, "x");
}

#[test]
fn dispatch_plans() {
    match plan_dispatch("local", "turbo", None) {
        Ok(DispatchPlan::Local { model_file }) => assert_eq!(model_file, "ggml-large-v3-turbo-q5_0.bin"),
        other => panic!("unexpected {:?}", other),
    }
    match plan_dispatch("local", "medium", None) {
        Err(TranscribeError::ModelRetired(m)) => assert_eq!(m, "medium"),
        other => panic!("unexpected {:?}", other),
    }
    match plan_dispatch("groq", "turbo", Some("k")) {
        Ok(DispatchPlan::Cloud { key }) => assert_eq!(key, "k"),
        other => panic!("unexpected {:?}", other),
    }
    match plan_dispatch("cloud", "turbo", Some("")) {
        Err(TranscribeError::Engine(m)) => assert_eq!(m, "groq key missing"),
        other => panic!("unexpected {:?}", other),
    }
    match plan_dispatch("other", "turbo", None) {
        Err(TranscribeError::Engine(m)) => assert_eq!(m, "unknown engine: other"),
        other => panic!("unexpected {:?}", other),
    }
}

#[test]
fn model_file_names_select_themselves() {
    let accepted = [
        "turbo", "large-v3-turbo", "ggml-large-v3-turbo", "ggml-large-v3-turbo.bin",
        "large-v3-turbo-q5_0", "ggml-large-v3-turbo-q5_0", "ggml-large-v3-turbo-q5_0.bin",
        "base", "ggml-base", "ggml-base.bin", "large-v3", "ggml-large-v3", "ggml-large-v3.bin",
    ];
    for m in accepted {
        let f = model_filename(m).unwrap();
        assert!(["ggml-base.bin", "ggml-large-v3.bin", "ggml-large-v3-turbo-q5_0.bin"].contains(&f.as_str()));
        assert_eq!(model_filename(&f), Ok(f.clone()));
    }
    for m in ["medium", "small", "tiny", "", "Turbo", "../ggml-base.bin"] {
        assert!(model_filename(m).is_err());
    }
}
