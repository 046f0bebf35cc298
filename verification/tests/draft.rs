use typr_lib::draft::{
    bonsai_download_url, bonsai_model, compact_command_output, extract_draft,
    finish_email_draft, finish_ollama_response, local_email_fallback,
    normalize_groq_draft_model, normalize_ollama_draft_model, ollama_model_matches,
    ollama_runtime_model, should_use_local_fallback, start_email_draft, ChatChoice,
    ChatMessage, ChatResponse, DraftStart, DEFAULT_GROQ_DRAFT_MODEL,
};

#[test]
fn falls_back_when_groq_key_is_missing() {
    match start_email_draft("", "groq", DEFAULT_GROQ_DRAFT_MODEL, "reply in English") {
        DraftStart::Fallback(draft) => {
            assert!(draft.contains("Olá,"));
            assert!(draft.contains("reply in English"));
        }
        other => panic!("unexpected {:?}", other),
    }
}

#[test]
fn rejects_empty_instruction() {
    match start_email_draft("gsk_test", "groq", DEFAULT_GROQ_DRAFT_MODEL, "   ") {
        DraftStart::Refuse(m) => assert!(m.contains("No command instruction")),
        other => panic!("unexpected {:?}", other),
    }
}

#[test]
fn accepts_only_known_groq_draft_models() {
    assert!(normalize_groq_draft_model("llama-3.3-70b-versatile").is_ok());
    assert!(normalize_groq_draft_model("../not-a-model").is_err());
}

#[test]
fn accepts_only_known_ollama_draft_models() {
    assert!(normalize_ollama_draft_model("llama3.2").is_ok());
    assert!(normalize_ollama_draft_model("llama3.2:1b").is_ok());
    assert!(normalize_ollama_draft_model("veyra-bonsai-1.7b").is_ok());
    assert!(normalize_ollama_draft_model("veyra-bonsai-4b").is_err());
    assert!(normalize_ollama_draft_model("../not-a-model").is_err());
}

#[test]
fn unsupported_model_message_is_exact() {
    assert_eq!(
        normalize_groq_draft_model("  nope ").unwrap_err(),
        "Unsupported Groq email draft model `nope`. Pick one from Settings > Transcription."
    );
    assert_eq!(normalize_ollama_draft_model(" qwen3:4b ").unwrap(), "qwen3:4b");
}

#[test]
fn bonsai_model_metadata_maps_to_ollama_runtime_name() {
    assert_eq!(
        bonsai_model("veyra-bonsai-1.7b").unwrap().ollama_name,
        "veyra-bonsai:f16-1.7b"
    );
    assert_eq!(
        ollama_runtime_model("veyra-bonsai-1.7b").unwrap(),
        "veyra-bonsai:f16-1.7b"
    );
    assert_eq!(ollama_runtime_model("llama3.2").unwrap(), "llama3.2");
}

#[test]
fn bonsai_download_url_points_to_hugging_face_gguf() {
    let bonsai = bonsai_model("veyra-bonsai-1.7b").unwrap();
    assert_eq!(
        bonsai_download_url(bonsai),
        "https://huggingface.co/prism-ml/Ternary-Bonsai-1.7B-gguf/resolve/main/Ternary-Bonsai-1.7B-F16.gguf?download=true"
    );
}

#[test]
fn detects_low_quality_model_output() {
    assert!(should_use_local_fallback(
        "Greeting:\nOla,\nBody:\nO que voce pode fazer hoje? O que voce pode fazer hoje?"
    ));
    assert!(should_use_local_fallback(
        ", que esta em casa.\n\nObrigado, e espero que ele me ajude.\n\nP.S. Se voce nao estiver aqui hoje, por favor, me avise.\n\nP.S. Se voce nao estiver aqui hoje, por favor, me avise."
    ));
    assert!(!should_use_local_fallback(
        "Ola Sr. Bruno Rodrigues,\n\nEscrevo para informar que hoje vou ai estar as 17h.\n\nCumprimentos,"
    ));
}

#[test]
fn compact_command_output_strips_ansi_and_repeated_lines() {
    let output = "\u{1b}[?2026hgathering model components\r\n\u{1b}[?25lgathering model components\r\nerror";
    assert_eq!(
        compact_command_output(output),
        "gathering model components | error"
    );
}

#[test]
fn local_fallback_creates_basic_portuguese_email() {
    let draft = local_email_fallback(
        "faz me um email a dizer, que hoje vou la as 5 da tarde para o senhor Bruno Rodrigues",
    );
    assert!(draft.contains("Olá Sr. Bruno Rodrigues,"));
    assert!(draft.contains("hoje vou aí às 17h"));
    assert!(draft.contains("Cumprimentos,"));
}

#[test]
fn local_fallback_strips_transcribed_request_wording() {
    let draft = local_email_fallback(
        "Queria-me um email que diga que eu vou aí estar às 10 da noite para o senhor Luís Rodrigues",
    );
    assert!(draft.contains("Olá Sr. Luís Rodrigues,"));
    assert!(draft.contains("vou aí estar às 22h"));
    assert!(!draft.contains("Queria-me"));
    assert!(!draft.contains("email que diga"));
}

#[test]
fn ollama_latest_tag_matches_short_model_name() {
    assert!(ollama_model_matches("llama3.2:latest", "llama3.2"));
    assert!(ollama_model_matches("llama3.2:1b", "llama3.2:1b"));
    assert!(!ollama_model_matches("llama3.2:1b", "llama3.2"));
}

#[test]
fn extracts_first_choice_text() {
    let response = ChatResponse {
        choices: vec![ChatChoice {
            message: ChatMessage {
                role: "assistant".to_string(),
                content: "  Hello there.  ".to_string(),
            },
        }],
    };
    assert_eq!(extract_draft(response).unwrap(), "Hello there.");
}

#[test]
fn extract_draft_without_text_is_an_error() {
    let response = ChatResponse { choices: vec![] };
    assert_eq!(
        extract_draft(response).unwrap_err(),
        "Groq draft response did not include text."
    );
}

#[test]
fn start_email_draft_plans_each_engine() {
    match start_email_draft("gsk", "groq", " llama-3.1-8b-instant ", " olá ") {
        DraftStart::AskGroq { model, messages, max_tokens } => {
            assert_eq!(model, "llama-3.1-8b-instant");
            assert_eq!(max_tokens, 700);
            assert_eq!(messages.len(), 2);
            assert_eq!(messages[0].role, "system");
            assert_eq!(messages[1].content, "olá");
        }
        other => panic!("unexpected {:?}", other),
    }
    match start_email_draft("", "ollama", "veyra-bonsai-1.7b", "olá") {
        DraftStart::AskOllama { model, is_bonsai, timeout_secs, num_predict, .. } => {
            assert_eq!(model, "veyra-bonsai:f16-1.7b");
            assert!(is_bonsai);
            assert_eq!(timeout_secs, 90);
            assert_eq!(num_predict, 180);
        }
        other => panic!("unexpected {:?}", other),
    }
    match start_email_draft("", "ollama", "llama3.2", "olá") {
        DraftStart::AskOllama { is_bonsai, timeout_secs, num_predict, .. } => {
            assert!(!is_bonsai);
            assert_eq!(timeout_secs, 15);
            assert_eq!(num_predict, 320);
        }
        other => panic!("unexpected {:?}", other),
    }
    match start_email_draft("", "smtp", "x", "olá") {
        DraftStart::Refuse(m) => assert_eq!(m, "Unsupported email draft engine `smtp`."),
        other => panic!("unexpected {:?}", other),
    }
}

#[test]
fn finishing_a_draft_falls_back_except_on_refusals() {
    assert_eq!(finish_email_draft("x", Ok("draft".into())).unwrap(), "draft");
    assert_eq!(
        finish_email_draft("x", Err("Unsupported thing".into())).unwrap_err(),
        "Unsupported thing"
    );
    let d = finish_email_draft("  reply now ", Err("timeout".into())).unwrap();
    assert!(d.contains("reply now"));
    assert_eq!(
        finish_ollama_response("   ", false, "x").unwrap_err(),
        "Ollama response did not include text."
    );
    assert_eq!(finish_ollama_response(" Olá. ", false, "x").unwrap(), "Olá.");
}
