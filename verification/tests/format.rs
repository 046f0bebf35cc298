use typr_lib::format::{
    auto_add_promotes, auto_add_unseen, collapse_punctuation, dictionary_pass, drop_fillers,
    expand_snippets, match_first_trigger, next_char_len, preserve_case, run_format,
    DICTIONARY_AUTO_ADD_THRESHOLD,
};
use typr_lib::settings::schema::Settings;
use typr_lib::storage::{DictionaryTerm, Snippet};

fn s(v: &[&str]) -> Vec<String> {
    v.iter().map(|x| x.to_string()).collect()
}

fn term(t: &str, rep: Option<&str>, abbr: bool, enabled: bool) -> DictionaryTerm {
    DictionaryTerm {
        id: 1,
        created_at: 1,
        updated_at: 1,
        term: t.into(),
        replacement: rep.map(|r| r.to_string()),
        is_abbreviation: abbr,
        auto_added: false,
        enabled,
    }
}

fn snippet(id: i64, trigger: &str, expansion: &str) -> Snippet {
    Snippet {
        id,
        created_at: 1,
        updated_at: 1,
        trigger: trigger.into(),
        expansion: expansion.into(),
        description: None,
        enabled: true,
        use_count: 0,
    }
}

#[test]
fn drops_simple_filler() {
    assert_eq!(drop_fillers("um hello world", &s(&["um"])), "hello world");
}

#[test]
fn case_insensitive_match() {
    assert_eq!(drop_fillers("UM hello", &s(&["um"])), "hello");
}

#[test]
fn preserves_word_boundary() {
    assert_eq!(drop_fillers("umbrella opens", &s(&["um"])), "umbrella opens");
}

#[test]
fn multi_word_filler_supported() {
    assert_eq!(drop_fillers("I mean hello", &s(&["i mean"])), "hello");
}

#[test]
fn collapses_double_spaces_after_drop() {
    assert_eq!(drop_fillers("hello um world", &s(&["um"])), "hello world");
}

#[test]
fn empty_filler_list_is_noop() {
    assert_eq!(drop_fillers("um hello", &s(&[])), "um hello");
}

#[test]
fn drops_pt_filler_ne() {
    assert_eq!(drop_fillers("isto né funciona", &s(&["né"])), "isto funciona");
}

#[test]
fn blank_fillers_are_skipped() {
    assert_eq!(drop_fillers("a  b", &s(&["  "])), "a b");
}

#[test]
fn replaces_basic_term_with_lowercase_input() {
    let terms = vec![term("tauri", Some("Tauri"), false, true)];
    assert_eq!(dictionary_pass("we use tauri here", &terms), "we use Tauri here");
}

#[test]
fn case_preserving_uppercase_match() {
    let terms = vec![term("tauri", Some("Tauri"), false, true)];
    assert_eq!(dictionary_pass("TAURI rocks", &terms), "TAURI rocks");
}

#[test]
fn case_preserving_titlecase_match() {
    let terms = vec![term("tauri", Some("tauri"), false, true)];
    assert_eq!(dictionary_pass("Tauri opens", &terms), "Tauri opens");
}

#[test]
fn abbreviation_always_uppercases() {
    let terms = vec![term("api", Some("API"), true, true)];
    assert_eq!(dictionary_pass("call api now", &terms), "call API now");
    assert_eq!(dictionary_pass("CALL API NOW", &terms), "CALL API NOW");
}

#[test]
fn disabled_entries_skipped() {
    let terms = vec![term("tauri", Some("Tauri"), false, false), term("x", None, false, true)];
    assert_eq!(dictionary_pass("we use tauri x", &terms), "we use tauri x");
}

#[test]
fn dictionary_terms_match_literally() {
    let terms = vec![term("node.js", Some("Node.js"), false, true)];
    assert_eq!(dictionary_pass("use nodexjs and node.js", &terms), "use nodexjs and Node.js");
}

#[test]
fn preserve_case_rules() {
    assert_eq!(preserve_case("HELLO", "world"), "WORLD");
    assert_eq!(preserve_case("Hello", "world"), "World");
    assert_eq!(preserve_case("hello", "World"), "World");
    assert_eq!(preserve_case("", "abc"), "ABC");
    assert_eq!(preserve_case("Hi", ""), "");
}

#[test]
fn auto_add_lists_new_long_words_once() {
    let known = vec![term("tauri", Some("Tauri"), false, true)];
    assert_eq!(auto_add_unseen("Acme rocket acme a be Tauri tauri", &known, true), s(&["acme", "rocket"]));
    assert!(auto_add_unseen("acme acme", &known, false).is_empty());
    assert!(auto_add_unseen("   ", &known, true).is_empty());
    assert!(auto_add_unseen("a be the", &known, true).is_empty());
    assert!(auto_add_promotes(5, DICTIONARY_AUTO_ADD_THRESHOLD));
    assert!(!auto_add_promotes(4, DICTIONARY_AUTO_ADD_THRESHOLD));
}

#[test]
fn collapse_handles_question_and_exclamation() {
    assert_eq!(collapse_punctuation("hello?? world!!"), "hello? world!");
}

#[test]
fn collapse_strips_space_before_punctuation() {
    assert_eq!(collapse_punctuation("hello , world ."), "hello, world.");
}

#[test]
fn collapse_idempotent() {
    let once = collapse_punctuation("a, b. c! d?");
    assert_eq!(once, "a, b. c! d?");
    let twice = collapse_punctuation(&once);
    assert_eq!(twice, once);
}

#[test]
fn collapse_drops_comma_before_terminator() {
    assert_eq!(collapse_punctuation("mundo, . fim,, ok"), "mundo. fim, ok");
}

#[test]
fn expands_at_byte_zero() {
    let snips = vec![snippet(1, "/sig", "Bruno Rodrigues")];
    assert_eq!(expand_snippets("/sig hello", &snips).text, "Bruno Rodrigues hello");
}

#[test]
fn does_not_expand_mid_text() {
    let snips = vec![snippet(1, "/sig", "Bruno Rodrigues")];
    assert_eq!(expand_snippets("hello /sig hello", &snips).text, "hello /sig hello");
}

#[test]
fn expands_after_newline() {
    let snips = vec![snippet(1, "/sig", "Bruno")];
    assert_eq!(expand_snippets("hello\n/sig", &snips).text, "hello\nBruno");
}

#[test]
fn longest_trigger_wins_when_prefixes_collide() {
    let snips = vec![snippet(1, "/sig", "short"), snippet(2, "/sigfull", "long")];
    let e = expand_snippets("/sigfull hello", &snips);
    assert_eq!(e.text, "long hello");
    assert_eq!(e.used, vec![2]);
}

#[test]
fn empty_repo_passthrough() {
    assert_eq!(expand_snippets("hello", &[]).text, "hello");
}

#[test]
fn increments_use_count_on_match() {
    let snips = vec![snippet(7, "/sig", "B")];
    let e = expand_snippets("/sig\n/sig", &snips);
    assert_eq!(e.text, "B\nB");
    assert_eq!(e.used, vec![7, 7]);
}

#[test]
fn first_trigger_ties_go_to_the_first_listed() {
    let mut off = snippet(3, "/a", "x");
    off.enabled = false;
    let snips = vec![snippet(1, "/ab", "one"), snippet(2, "/ab", "two"), off];
    let w: Vec<char> = "/abc".chars().collect();
    assert_eq!(match_first_trigger(&w, &snips), Some(0));
    let w: Vec<char> = "/a".chars().collect();
    assert_eq!(match_first_trigger(&w, &snips), None);
}

#[test]
fn utf8_sequence_lengths() {
    assert_eq!(next_char_len(b"a"), 1);
    assert_eq!(next_char_len(&[0x80]), 1);
    assert_eq!(next_char_len("é".as_bytes()), 2);
    assert_eq!(next_char_len("€".as_bytes()), 3);
    assert_eq!(next_char_len("🎉".as_bytes()), 4);
}

#[test]
fn end_to_end_dictation_path() {
    let terms = vec![term("tauri", Some("Tauri"), false, true)];
    let snips = vec![snippet(1, "/sig", "Bruno")];
    let mut settings = Settings::default();
    settings.formatting.remove_fillers = true;
    settings.formatting.filler_words = vec!["um".to_string()];
    settings.formatting.explicit_commands = true;
    let out = run_format("/sig um we use tauri comma yes period", &settings.formatting, &terms, &snips);
    assert_eq!(out.text, "Bruno we use Tauri, yes.");
    assert_eq!(out.used, vec![1]);
}

#[test]
fn format_empty_input_returns_empty() {
    let out = run_format("", &Settings::default().formatting, &[], &[]);
    assert_eq!(out.text, "");
}

#[test]
fn formatting_toggles_off_skips_passes() {
    let mut settings = Settings::default();
    settings.formatting.remove_fillers = false;
    settings.formatting.explicit_commands = false;
    settings.formatting.filler_words = vec!["um".to_string()];
    let out = run_format("um hello comma", &settings.formatting, &[], &[]);
    assert_eq!(out.text, "um hello comma");
}

#[test]
fn collapse_pt_double_punctuation_after_command_replace() {
    let mut settings = Settings::default();
    settings.formatting.remove_fillers = false;
    settings.formatting.explicit_commands = true;
    let out = run_format(
        "olá mundo, vírgula, isto é teste, ponto final.",
        &settings.formatting,
        &[],
        &[],
    );
    assert_eq!(out.text, "olá mundo, isto é teste.");
}

/// The candidate table and dictionary that auto-add fills, kept in memory:
/// each sighting of a listed word counts once, and a word promoted to the
/// dictionary leaves the candidates.
struct AutoAddTables {
    candidates: Vec<(String, i64)>,
    dictionary: Vec<DictionaryTerm>,
}

impl AutoAddTables {
    fn new() -> Self {
        AutoAddTables { candidates: Vec::new(), dictionary: Vec::new() }
    }

    fn observe(&mut self, raw: &str, threshold: i64, enabled: bool) {
        for tok in auto_add_unseen(raw, &self.dictionary, enabled) {
            let count = match self.candidates.iter_mut().find(|(t, _)| *t == tok) {
                Some(entry) => {
                    entry.1 += 1;
                    entry.1
                }
                None => {
                    self.candidates.push((tok.clone(), 1));
                    1
                }
            };
            if auto_add_promotes(count, threshold) {
                let mut t = term(&tok, None, false, true);
                t.auto_added = true;
                self.dictionary.push(t);
                self.candidates.retain(|(c, _)| *c != tok);
            }
        }
    }

    fn seen(&self, tok: &str) -> Option<i64> {
        self.candidates.iter().find(|(t, _)| t == tok).map(|(_, n)| *n)
    }
}

#[test]
fn auto_add_disabled_is_noop() {
    let mut tables = AutoAddTables::new();
    tables.observe("acme acme acme acme acme acme", 5, false);
    assert!(tables.seen("acme").is_none());
    assert!(tables.dictionary.is_empty());
}

#[test]
fn auto_add_promotes_after_threshold() {
    let mut tables = AutoAddTables::new();
    for _ in 0..4 {
        tables.observe("acme rocket", DICTIONARY_AUTO_ADD_THRESHOLD, true);
    }
    assert_eq!(tables.seen("acme"), Some(4));
    assert!(tables.dictionary.is_empty());
    tables.observe("acme rocket", DICTIONARY_AUTO_ADD_THRESHOLD, true);
    let acme = tables.dictionary.iter().find(|t| t.term == "acme").unwrap();
    assert!(acme.auto_added);
    assert_eq!(acme.replacement, None);
    assert!(tables.seen("acme").is_none());
}

#[test]
fn auto_add_skips_known_dictionary_terms() {
    let mut tables = AutoAddTables::new();
    tables.dictionary.push(term("tauri", Some("Tauri"), false, true));
    for _ in 0..6 {
        tables.observe("tauri tauri tauri", 5, true);
    }
    assert!(tables.seen("tauri").is_none());
}

#[test]
fn auto_add_skips_short_tokens() {
    let mut tables = AutoAddTables::new();
    for _ in 0..6 {
        tables.observe("a be the", 5, true);
    }
    assert!(tables.seen("the").is_none());
}

#[test]
fn collapse_leaves_comma_run_before_terminator_for_a_second_pass() {
    let once = collapse_punctuation(",,.");
    assert_eq!(once, ",.");
    assert_eq!(collapse_punctuation(&once), ".");
    assert_eq!(collapse_punctuation("hello?? world!!"), "hello? world!");
    assert_eq!(collapse_punctuation("hello , world ."), "hello, world.");
    assert_eq!(collapse_punctuation("a, b. c! d?"), "a, b. c! d?");
}
