use typr_lib::download::{
    bonsai_download_check, bonsai_gguf_valid, bonsai_load_failure, bonsai_modelfile,
    download_begin, download_chunk, download_end, temp_path_for, DownloadStep,
};
use typr_lib::draft::bonsai_model;
use typr_lib::ollama::{
    check_plan, download_plan, final_pull_status, groq_models_check, installer_download_ok,
    installer_poll,
    installer_usable, join_path, ollama_candidate_paths, ollama_executable_candidates,
    ollama_start_failure, ollama_tags_check, pull_status, smoke_test_failure, CheckPlan,
    InstallerPoll, ModelFetch, OllamaTag, PullLines,
};

#[test]
fn ollama_candidates_include_path_name() {
    let candidates = ollama_executable_candidates(None, None);
    assert_eq!(candidates.first().unwrap(), "ollama");
    let candidates = ollama_executable_candidates(Some("C:\\Users\\b\\AppData\\Local"), Some("C:\\Program Files\\"));
    assert_eq!(
        candidates,
        vec![
            "ollama".to_string(),
            "C:\\Users\\b\\AppData\\Local\\Programs\\Ollama\\ollama.exe".to_string(),
            "C:\\Program Files\\Ollama\\ollama.exe".to_string(),
        ]
    );
}

#[test]
fn wizard_candidate_paths() {
    assert_eq!(
        ollama_candidate_paths(Some("L"), None, Some("X")),
        vec!["L\\Programs/Ollama/ollama.exe".to_string(), "X\\Ollama/ollama.exe".to_string()]
    );
    assert_eq!(join_path("", "a"), "a");
    assert_eq!(join_path("b/", "a"), "b/a");
}

#[test]
fn start_failure_messages() {
    assert!(ollama_start_failure(true, "x").starts_with("Ollama was found"));
    assert!(ollama_start_failure(false, "").ends_with("then retry."));
    assert!(ollama_start_failure(false, "denied").ends_with("then retry. Last error: denied"));
}

#[test]
fn model_checks() {
    match check_plan("", "groq", "llama-3.3-70b-versatile") {
        Err(m) => assert_eq!(m, "Groq API key not set. Add it in Settings > Transcription."),
        Ok(_) => panic!("expected refusal"),
    }
    match check_plan("gsk", "groq", "llama-3.3-70b-versatile") {
        Ok(CheckPlan::Groq { model }) => assert_eq!(model, "llama-3.3-70b-versatile"),
        other => panic!("unexpected {:?}", other),
    }
    match check_plan("", "ollama", "veyra-bonsai-1.7b") {
        Ok(CheckPlan::Ollama { model, bonsai }) => {
            assert_eq!(model, "veyra-bonsai:f16-1.7b");
            assert!(bonsai.is_some());
        }
        other => panic!("unexpected {:?}", other),
    }
    assert!(check_plan("", "other", "x").is_err());
    let ids = vec!["a".to_string(), "b".to_string()];
    assert!(groq_models_check(&ids, "b").is_ok());
    assert_eq!(
        groq_models_check(&ids, "c").unwrap_err(),
        "Groq model `c` is not available for this API key."
    );
    let tags = vec![
        OllamaTag { name: None, model: Some("qwen3:4b".into()) },
        OllamaTag { name: Some("llama3.2:latest".into()), model: None },
    ];
    assert!(ollama_tags_check(&tags, "llama3.2").is_ok());
    assert!(ollama_tags_check(&tags, "qwen3:4b").is_ok());
    assert_eq!(
        ollama_tags_check(&tags, "qwen3:1.7b").unwrap_err(),
        "Ollama model `qwen3:1.7b` is not downloaded."
    );
    let b = bonsai_model("veyra-bonsai-1.7b");
    assert!(smoke_test_failure(b, "x", "boom").starts_with("Bonsai model `veyra-bonsai:f16-1.7b`"));
    assert_eq!(
        smoke_test_failure(None, "llama3.2", "boom"),
        "Ollama model `llama3.2` is installed but did not pass a generation test: boom"
    );
}

#[test]
fn download_plans() {
    assert!(matches!(download_plan("groq", "whatever"), Ok(ModelFetch::Nothing)));
    assert!(matches!(download_plan("ollama", "veyra-bonsai-1.7b"), Ok(ModelFetch::Bonsai(_))));
    match download_plan("ollama", " llama3.2 ") {
        Ok(ModelFetch::Pull(m)) => assert_eq!(m, "llama3.2"),
        other => panic!("unexpected {:?}", other),
    }
    assert!(download_plan("ollama", "nope").is_err());
    assert!(download_plan("x", "nope").is_err());
}

#[test]
fn pull_progress_lines() {
    let mut p = PullLines::new();
    assert!(p.push_chunk("{\"status\":\"pull").is_empty());
    assert_eq!(p.push_chunk("ing\"}\n\n  {\"a\":1}  \n{\"b"), vec!["{\"status\":\"pulling\"}".to_string(), "{\"a\":1}".to_string()]);
    assert_eq!(p.finish(), Some("{\"b".to_string()));
    let (shown, last) = pull_status(None, "pulling");
    assert_eq!((shown.as_str(), last.as_str()), ("pulling", "pulling"));
    let (shown, last) = pull_status(Some(String::new()), "");
    assert_eq!((shown.as_str(), last.as_str()), ("Downloading", ""));
    let (shown, last) = pull_status(Some("verifying".into()), "pulling");
    assert_eq!((shown.as_str(), last.as_str()), ("verifying", "verifying"));
    assert_eq!(final_pull_status(None), "success");
}

#[test]
fn installer_decisions() {
    assert!(!installer_usable(Some(1_000_000)));
    assert!(installer_usable(Some(1_000_001)));
    assert!(!installer_usable(None));
    assert_eq!(installer_poll(true, true, true), InstallerPoll::Done);
    assert_eq!(installer_poll(false, true, false), InstallerPoll::LaunchInteractive);
    assert_eq!(installer_poll(false, false, true), InstallerPoll::Done);
    assert_eq!(installer_poll(false, false, false), InstallerPoll::Wait);
}

#[test]
fn model_download_steps() {
    assert_eq!(temp_path_for("C:\\m\\ggml-base.bin").unwrap(), "C:\\m\\ggml-base.bin.part");
    assert_eq!(temp_path_for("C:\\").unwrap_err(), "model destination has no file name");
    assert_eq!(temp_path_for("models/models").unwrap(), "models/models.part");
    assert_eq!(temp_path_for("models/ggml-base.bin/./").unwrap(), "models/ggml-base.bin.part");
    assert_eq!(download_begin(true).as_deref(), Some("Download cancelled"));
    assert_eq!(download_begin(false), None);
    assert_eq!(download_chunk(10, false, Ok(5), Ok(())), (15, DownloadStep::Continue));
    assert_eq!(
        download_chunk(10, false, Err("reset".into()), Ok(())).1,
        DownloadStep::Abort { error: "Download stream error: reset".into(), remove_partial: true }
    );
    assert_eq!(
        download_chunk(10, true, Ok(5), Ok(())).1,
        DownloadStep::Abort { error: "Download cancelled".into(), remove_partial: true }
    );
    assert_eq!(
        download_end("base", 10, 20, false),
        DownloadStep::Abort { error: "Download incomplete for base: 10 of 20 bytes".into(), remove_partial: true }
    );
    assert_eq!(download_end("base", 20, 20, false), DownloadStep::Finalize);
    assert_eq!(download_end("base", 7, 0, false), DownloadStep::Finalize);
}

#[test]
fn bonsai_file_checks() {
    let b = bonsai_model("veyra-bonsai-1.7b").unwrap();
    assert!(bonsai_gguf_valid(Some(3_400_000_000), b));
    assert!(!bonsai_gguf_valid(Some(3_399_999_999), b));
    assert!(!bonsai_gguf_valid(None, b));
    assert!(bonsai_download_check(3_500_000_000, b).is_ok());
    assert_eq!(
        bonsai_download_check(1_234_567_890, b).unwrap_err(),
        "Bonsai GGUF download was incomplete: got 1234 MB, expected at least 3400 MB."
    );
    let m = bonsai_modelfile("C:\\m\\x.gguf");
    assert!(m.starts_with("FROM C:\\m\\x.gguf\nPARAMETER temperature 0.35\nPARAMETER num_ctx 4096\nSYSTEM \"\"\"You write polished drafts"));
    assert!(m.ends_with("\"\"\"\n"));
    assert!(bonsai_load_failure(b, "eof").contains("cannot load it: eof. Restart"));
}

#[test]
fn installer_download_size_check() {
    assert!(installer_download_ok(1_000_000));
    assert!(installer_download_ok(50_000_000));
    assert!(!installer_download_ok(999_999));
    assert!(!installer_download_ok(0));
}
