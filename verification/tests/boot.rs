use typr_lib::overlay::preview_level_hundredths;
use typr_lib::recording::{command_hotkey_clashes, shortcut_to_register};
use typr_lib::settings::normalize_boot_settings;
use typr_lib::settings::schema::Settings;
use typr_lib::storage::wizard_completed;

#[test]
fn preview_level_sequence_loops_inside_expected_bounds() {
    for tick in 0..64u64 {
        let level = preview_level_hundredths(tick) as f32 / 100.0;
        assert!((0.0..=1.0).contains(&level));
    }
    assert_eq!(preview_level_hundredths(0), preview_level_hundredths(16));
    assert_eq!(preview_level_hundredths(0), 10);
    assert_eq!(preview_level_hundredths(7), 84);
    assert_eq!(preview_level_hundredths(31), 68);
}

#[test]
fn boot_keeps_valid_settings() {
    let mut s = Settings::default();
    s.hotkeys.command_mode = "Pause".into();
    let before = s.clone();
    assert!(!normalize_boot_settings(&mut s));
    assert_eq!(s, before);
}

#[test]
fn boot_replaces_retired_and_blank_command_hotkeys() {
    for hk in ["Shift+F24", "F12", " Shift+F12 ", "Ctrl+Alt+M", "Ctrl+Alt+D", "", "   "] {
        let mut s = Settings::default();
        s.hotkeys.command_mode = hk.into();
        assert!(normalize_boot_settings(&mut s), "{hk:?}");
        assert_eq!(s.hotkeys.command_mode, "Pause");
    }
    let mut s = Settings::default();
    s.hotkeys.command_mode = "ctrl+alt+m".into();
    assert!(!normalize_boot_settings(&mut s));
    assert_eq!(s.hotkeys.command_mode, "ctrl+alt+m");
}

#[test]
fn boot_resets_mismatched_email_draft_model() {
    let mut s = Settings::default();
    s.hotkeys.command_mode = "Pause".into();
    s.transcription.email_draft_engine = "groq".into();
    s.transcription.email_draft_model = "llama3.2".into();
    assert!(normalize_boot_settings(&mut s));
    assert_eq!(s.transcription.email_draft_engine, "ollama");
    assert_eq!(s.transcription.email_draft_model, "llama3.2:1b");

    let mut s = Settings::default();
    s.hotkeys.command_mode = "Pause".into();
    s.transcription.email_draft_engine = "groq".into();
    s.transcription.email_draft_model = "openai/gpt-oss-20b".into();
    assert!(!normalize_boot_settings(&mut s));
    assert_eq!(s.transcription.email_draft_engine, "groq");

    let mut s = Settings::default();
    s.hotkeys.command_mode = "Pause".into();
    s.transcription.email_draft_engine = "openai".into();
    assert!(normalize_boot_settings(&mut s));
    assert_eq!(s.transcription.email_draft_engine, "ollama");
}

#[test]
fn shortcut_to_register_trims_and_skips_blank() {
    assert_eq!(shortcut_to_register("  F24 "), Some("F24".to_string()));
    assert_eq!(shortcut_to_register("   "), None);
    assert_eq!(shortcut_to_register(""), None);
}

#[test]
fn command_hotkey_clash_ignores_ascii_case_and_spaces() {
    assert!(command_hotkey_clashes("F24", " f24 "));
    assert!(command_hotkey_clashes("Ctrl+Alt+M", "ctrl+alt+m"));
    assert!(!command_hotkey_clashes("F24", "Pause"));
    assert!(!command_hotkey_clashes("F2", "F24"));
    assert!(!command_hotkey_clashes("Ä", "ä"));
}

#[test]
fn wizard_completed_only_for_one() {
    assert!(wizard_completed(Some("1")));
    assert!(!wizard_completed(Some("0")));
    assert!(!wizard_completed(Some(" 1")));
    assert!(!wizard_completed(None));
}
