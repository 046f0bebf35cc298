//! Email-draft text logic: model selection, prompt text, clean-up of model
//! output and the Portuguese template used when no model answers well.
use vstd::prelude::*;

use crate::text::{
    find, find_chars, occurs_at, digit, trim_end_class, char_utf8_len, decimal, decimal_chars, starts_with, starts_with_chars, trim_start_by,
    trim_start_class, lowercase, lowercase_chars, trim_by, trim_class, trim_end, trim_end_by, CharClass,
    split_whitespace, split_whitespace_chars, char_index_at_byte, chars_in_bytes, copy_range, is_byte_boundary, join, join_chars,
    lemma_chars_in_bytes_exact, lines, lines_of, replace, replace_chars, utf8_len, utf8_len_of,
    is_ascii_alphabetic, chars_of, contains, contains_chars, eq_chars, eq_str, list_contains, listed, owned, push_all,
    push_str, string_of, trim, trim_ws, lemma_trim_idempotent,
};

verus! {

pub const DEFAULT_GROQ_DRAFT_MODEL: &'static str = "llama-3.3-70b-versatile";

pub const DEFAULT_OLLAMA_DRAFT_MODEL: &'static str = "llama3.2:1b";

pub const ALLOWED_GROQ_DRAFT_MODELS: [&'static str; 4] = [
    "llama-3.3-70b-versatile",
    "llama-3.1-8b-instant",
    "openai/gpt-oss-120b",
    "openai/gpt-oss-20b",
];

pub const ALLOWED_OLLAMA_DRAFT_MODELS: [&'static str; 5] = [
    "llama3.2",
    "llama3.2:1b",
    "qwen3:1.7b",
    "qwen3:4b",
    "veyra-bonsai-1.7b",
];

// ---------------------------------------------------------------------------
// Model selection
// ---------------------------------------------------------------------------

/// The message of a rejected draft model.
pub open spec fn unsupported_model_message(engine: Seq<char>, model: Seq<char>) -> Seq<char> {
    "Unsupported "@ + engine + " email draft model `"@ + model
        + "`. Pick one from Settings > Transcription."@
}

fn unsupported_model_error(engine: &str, model: &Vec<char>) -> (e: String)
    ensures
        e@ == unsupported_model_message(engine@, model@),
{
    let mut m: Vec<char> = Vec::new();
    push_str(&mut m, "Unsupported ");
    push_str(&mut m, engine);
    push_str(&mut m, " email draft model `");
    push_all(&mut m, model);
    push_str(&mut m, "`. Pick one from Settings > Transcription.");
    string_of(&m)
}

/// Accepts a Groq draft model only when, once trimmed, it is one of
/// [`ALLOWED_GROQ_DRAFT_MODELS`].
pub fn normalize_groq_draft_model(model: &str) -> (r: Result<String, String>)
    ensures
        listed(ALLOWED_GROQ_DRAFT_MODELS@, trim(model@)) ==> r == Ok::<String, String>(r->Ok_0)
            && r->Ok_0@ == trim(model@),
        !listed(ALLOWED_GROQ_DRAFT_MODELS@, trim(model@)) ==> r is Err && r->Err_0@
            == unsupported_model_message("Groq"@, trim(model@)),
{
    let v = chars_of(model);
    let t = trim_ws(&v);
    if list_contains(&ALLOWED_GROQ_DRAFT_MODELS, &t) {
        Ok(string_of(&t))
    } else {
        Err(unsupported_model_error("Groq", &t))
    }
}

/// Accepts an Ollama draft model only when, once trimmed, it is one of
/// [`ALLOWED_OLLAMA_DRAFT_MODELS`].
pub fn normalize_ollama_draft_model(model: &str) -> (r: Result<String, String>)
    ensures
        listed(ALLOWED_OLLAMA_DRAFT_MODELS@, trim(model@)) ==> r is Ok && r->Ok_0@ == trim(
            model@,
        ),
        !listed(ALLOWED_OLLAMA_DRAFT_MODELS@, trim(model@)) ==> r is Err && r->Err_0@
            == unsupported_model_message("Ollama"@, trim(model@)),
{
    let v = chars_of(model);
    let t = trim_ws(&v);
    if list_contains(&ALLOWED_OLLAMA_DRAFT_MODELS, &t) {
        Ok(string_of(&t))
    } else {
        Err(unsupported_model_error("Ollama", &t))
    }
}

/// A Bonsai GGUF model that the drafter registers with Ollama itself.
#[derive(Clone, Copy, Debug, PartialEq, Eq)]
pub struct BonsaiModel {
    pub selected_id: &'static str,
    pub ollama_name: &'static str,
    pub repo: &'static str,
    pub file: &'static str,
    pub min_bytes: u64,
}

/// The Bonsai models the drafter knows, in lookup order.
pub open spec fn bonsai_table() -> Seq<BonsaiModel> {
    seq![
    BonsaiModel {
        selected_id: "veyra-bonsai-1.7b",
        ollama_name: "veyra-bonsai:f16-1.7b",
        repo: "prism-ml/Ternary-Bonsai-1.7B-gguf",
        file: "Ternary-Bonsai-1.7B-F16.gguf",
        min_bytes: 3_400_000_000,
    },
    BonsaiModel {
        selected_id: "veyra-bonsai-4b",
        ollama_name: "veyra-bonsai:4b",
        repo: "prism-ml/Ternary-Bonsai-4B-gguf",
        file: "Ternary-Bonsai-4B-Q2_0.gguf",
        min_bytes: 1_000_000_000,
    },
    BonsaiModel {
        selected_id: "veyra-bonsai-8b",
        ollama_name: "veyra-bonsai:8b",
        repo: "prism-ml/Ternary-Bonsai-8B-gguf",
        file: "Ternary-Bonsai-8B-Q2_0.gguf",
        min_bytes: 1_900_000_000,
    },
    ]
}

/// The Bonsai models the drafter knows, in lookup order.
pub fn bonsai_models() -> (r: Vec<BonsaiModel>)
    ensures
        r@ == bonsai_table(),
{
    let r = vec![
    BonsaiModel {
        selected_id: "veyra-bonsai-1.7b",
        ollama_name: "veyra-bonsai:f16-1.7b",
        repo: "prism-ml/Ternary-Bonsai-1.7B-gguf",
        file: "Ternary-Bonsai-1.7B-F16.gguf",
        min_bytes: 3_400_000_000,
    },
    BonsaiModel {
        selected_id: "veyra-bonsai-4b",
        ollama_name: "veyra-bonsai:4b",
        repo: "prism-ml/Ternary-Bonsai-4B-gguf",
        file: "Ternary-Bonsai-4B-Q2_0.gguf",
        min_bytes: 1_000_000_000,
    },
    BonsaiModel {
        selected_id: "veyra-bonsai-8b",
        ollama_name: "veyra-bonsai:8b",
        repo: "prism-ml/Ternary-Bonsai-8B-gguf",
        file: "Ternary-Bonsai-8B-Q2_0.gguf",
        min_bytes: 1_900_000_000,
    },
    ];
    assert(r@ =~= bonsai_table());
    r
}

/// `b` is known by the id `m` (its selectable id or its Ollama name).
pub open spec fn bonsai_named(b: BonsaiModel, m: Seq<char>) -> bool {
    b.selected_id@ == m || b.ollama_name@ == m
}

/// The first entry of `table` from index `i` on that is known by `m`.
pub open spec fn find_bonsai_from(table: Seq<BonsaiModel>, m: Seq<char>, i: int) -> Option<
    BonsaiModel,
>
    decreases table.len() - i,
{
    if i < 0 || i >= table.len() {
        None
    } else if bonsai_named(table[i], m) {
        Some(table[i])
    } else {
        find_bonsai_from(table, m, i + 1)
    }
}

/// The Bonsai entry known by `m`, if any.
pub open spec fn bonsai_spec(m: Seq<char>) -> Option<BonsaiModel> {
    find_bonsai_from(bonsai_table(), m, 0)
}

/// Looks a model id up in [`BONSAI_MODELS`].
pub fn bonsai_model(model: &str) -> (r: Option<BonsaiModel>)
    ensures
        r == bonsai_spec(model@),
{
    let m = chars_of(model);
    let table = bonsai_models();
    let mut i: usize = 0;
    while i < table.len()
        invariant
            i <= table.len(),
            table@ == bonsai_table(),
            m@ == model@,
            find_bonsai_from(table@, m@, 0) == find_bonsai_from(table@, m@, i as int),
        decreases table.len() - i,
    {
        let b = table[i];
        assert(b == table@[i as int]);
        if eq_str(&m, b.selected_id) || eq_str(&m, b.ollama_name) {
            assert(bonsai_named(table@[i as int], m@));
            assert(find_bonsai_from(table@, m@, i as int) == Some(table@[i as int]));
            return Some(b);
        }
        i += 1;
    }
    None
}

/// The name Ollama runs a selected draft model under.
pub open spec fn runtime_model_spec(trimmed: Seq<char>) -> Seq<char> {
    match bonsai_spec(trimmed) {
        Some(b) => b.ollama_name@,
        None => trimmed,
    }
}

/// Validates an Ollama draft model and maps a Bonsai id to its Ollama name.
pub fn ollama_runtime_model(model: &str) -> (r: Result<String, String>)
    ensures
        listed(ALLOWED_OLLAMA_DRAFT_MODELS@, trim(model@)) ==> r is Ok && r->Ok_0@
            == runtime_model_spec(trim(model@)),
        !listed(ALLOWED_OLLAMA_DRAFT_MODELS@, trim(model@)) ==> r is Err && r->Err_0@
            == unsupported_model_message("Ollama"@, trim(model@)),
{
    let model = normalize_ollama_draft_model(model)?;
    match bonsai_model(model.as_str()) {
        Some(b) => Ok(owned(b.ollama_name)),
        None => Ok(model),
    }
}

/// Where a Bonsai GGUF is downloaded from.
pub open spec fn bonsai_url_spec(b: BonsaiModel) -> Seq<char> {
    "https://huggingface.co/"@ + b.repo@ + "/resolve/main/"@ + b.file@ + "?download=true"@
}

/// Where a Bonsai GGUF is downloaded from.
pub fn bonsai_download_url(bonsai: BonsaiModel) -> (r: String)
    ensures
        r@ == bonsai_url_spec(bonsai),
{
    let mut m: Vec<char> = Vec::new();
    push_str(&mut m, "https://huggingface.co/");
    push_str(&mut m, bonsai.repo);
    push_str(&mut m, "/resolve/main/");
    push_str(&mut m, bonsai.file);
    push_str(&mut m, "?download=true");
    string_of(&m)
}

/// An installed Ollama tag satisfies the selected model: same name, or the
/// `:latest` tag of an untagged name.
pub open spec fn ollama_matches_spec(installed: Seq<char>, selected: Seq<char>) -> bool {
    installed == selected || (!contains(selected, seq![':']) && installed == selected
        + ":latest"@)
}

/// Whether an installed Ollama tag satisfies the selected model.
pub fn ollama_model_matches(installed: &str, selected: &str) -> (r: bool)
    ensures
        r == ollama_matches_spec(installed@, selected@),
{
    let i = chars_of(installed);
    let s = chars_of(selected);
    if eq_chars(&i, &s) {
        return true;
    }
    let colon: Vec<char> = vec![':'];
    assert(colon@ == seq![':']);
    if contains_chars(&s, &colon) {
        return false;
    }
    let mut latest = s.clone();
    assert(latest@ == s@);
    push_str(&mut latest, ":latest");
    eq_chars(&i, &latest)
}

// ---------------------------------------------------------------------------
// Chat completion replies
// ---------------------------------------------------------------------------

/// One chat message of an OpenAI-style completion.
#[derive(Debug, Clone, PartialEq)]
pub struct ChatMessage {
    pub role: String,
    pub content: String,
}

/// One choice of an OpenAI-style completion.
#[derive(Debug, Clone, PartialEq)]
pub struct ChatChoice {
    pub message: ChatMessage,
}

/// An OpenAI-style completion reply.
#[derive(Debug, Clone, PartialEq)]
pub struct ChatResponse {
    pub choices: Vec<ChatChoice>,
}

pub open spec fn no_draft_text_message() -> Seq<char> {
    "Groq draft response did not include text."@
}

/// The trimmed text of the first choice, if it has any.
pub open spec fn extract_draft_spec(choices: Seq<ChatChoice>) -> Option<Seq<char>> {
    if choices.len() > 0 && trim(choices[0].message.content@).len() > 0 {
        Some(trim(choices[0].message.content@))
    } else {
        None
    }
}

/// The draft carried by a completion reply: the first choice's text,
/// trimmed; an error when there is no choice or its text is blank.
pub fn extract_draft(response: ChatResponse) -> (r: Result<String, String>)
    ensures
        extract_draft_spec(response.choices@) matches Some(d) ==> r is Ok && r->Ok_0@ == d,
        extract_draft_spec(response.choices@) is None ==> r is Err && r->Err_0@
            == no_draft_text_message(),
{
    if response.choices.len() > 0 {
        let c = chars_of(response.choices[0].message.content.as_str());
        let t = trim_ws(&c);
        if t.len() > 0 {
            return Ok(string_of(&t));
        }
    }
    Err(owned("Groq draft response did not include text."))
}

// ---------------------------------------------------------------------------
// Command output clean-up
// ---------------------------------------------------------------------------

/// Characters consumed by an ANSI escape sequence after its `ESC`: everything
/// up to and including the first ASCII letter (or all that is left).
pub open spec fn escape_len(s: Seq<char>) -> nat
    decreases s.len(),
{
    if s.len() == 0 {
        0
    } else if is_ascii_alphabetic(s[0]) {
        1
    } else {
        1 + escape_len(s.drop_first())
    }
}

pub proof fn lemma_escape_len_le(s: Seq<char>)
    ensures
        escape_len(s) <= s.len(),
    decreases s.len(),
{
    if s.len() > 0 && !is_ascii_alphabetic(s[0]) {
        lemma_escape_len_le(s.drop_first());
    }
}

/// `s` without its ANSI escape sequences.
pub open spec fn strip_ansi_spec(s: Seq<char>) -> Seq<char>
    decreases s.len(),
{
    if s.len() == 0 {
        s
    } else if s[0] == '\u{1b}' {
        proof {
            lemma_escape_len_le(s.drop_first());
        }
        strip_ansi_spec(s.drop_first().skip(escape_len(s.drop_first()) as int))
    } else {
        seq![s[0]] + strip_ansi_spec(s.drop_first())
    }
}

/// Index just past the escape sequence whose body starts at `start`.
fn escape_end(v: &Vec<char>, start: usize) -> (e: usize)
    requires
        start <= v.len(),
    ensures
        e == start + escape_len(v@.skip(start as int)),
        e <= v.len(),
{
    let mut i = start;
    while i < v.len()
        invariant
            start <= i <= v.len(),
            escape_len(v@.skip(start as int)) == (i - start) + escape_len(v@.skip(i as int)),
        decreases v.len() - i,
    {
        let c = v[i];
        assert(v@.skip(i as int)[0] == c);
        assert(v@.skip(i as int).drop_first() =~= v@.skip(i + 1));
        if ('a' <= c && c <= 'z') || ('A' <= c && c <= 'Z') {
            return i + 1;
        }
        i += 1;
    }
    i
}

/// Removes ANSI escape sequences: an `ESC` and everything after it up to and
/// including the next ASCII letter.
pub fn strip_ansi(input: &str) -> (out: String)
    ensures
        out@ == strip_ansi_spec(input@),
{
    let v = chars_of(input);
    let mut out: Vec<char> = Vec::new();
    let mut i: usize = 0;
    assert(v@.skip(0) =~= v@);
    while i < v.len()
        invariant
            i <= v.len(),
            v@ == input@,
            out@ + strip_ansi_spec(v@.skip(i as int)) == strip_ansi_spec(input@),
        decreases v.len() - i,
    {
        let ghost rest = v@.skip(i as int);
        assert(rest[0] == v@[i as int]);
        assert(rest.drop_first() =~= v@.skip(i + 1));
        if v[i] == '\u{1b}' {
            let e = escape_end(&v, i + 1);
            assert(rest.drop_first().skip(escape_len(rest.drop_first()) as int) =~= v@.skip(e as int));
            assert(strip_ansi_spec(rest) == strip_ansi_spec(v@.skip(e as int)));
            i = e;
        } else {
            out.push(v[i]);
            i += 1;
        }
        assert(out@ + strip_ansi_spec(v@.skip(i as int)) =~= strip_ansi_spec(input@));
    }
    assert(v@.skip(i as int) =~= Seq::<char>::empty());
    assert(out@ + Seq::<char>::empty() =~= out@);
    string_of(&out)
}

/// Each line trimmed, blank lines dropped.
pub open spec fn trimmed_nonblank(ls: Seq<Seq<char>>) -> Seq<Seq<char>>
    decreases ls.len(),
{
    if ls.len() == 0 {
        ls
    } else if trim(ls.last()).len() > 0 {
        trimmed_nonblank(ls.drop_last()).push(trim(ls.last()))
    } else {
        trimmed_nonblank(ls.drop_last())
    }
}

/// `Vec::dedup`: runs of equal consecutive items collapsed to one.
pub open spec fn dedup(ls: Seq<Seq<char>>) -> Seq<Seq<char>>
    decreases ls.len(),
{
    if ls.len() <= 1 {
        ls
    } else if ls.last() == ls[ls.len() - 2] {
        dedup(ls.drop_last())
    } else {
        dedup(ls.drop_last()).push(ls.last())
    }
}

/// The lines of a command's output, without escapes, trimmed, blank lines
/// and repeated neighbours dropped, joined with ` | `.
pub open spec fn compact_joined(s: Seq<char>) -> Seq<char> {
    join(dedup(trimmed_nonblank(lines(replace(strip_ansi_spec(s), seq!['\r'], seq!['\n'])))), " | "@)
}

/// Whether `compact_command_output` can cut its text at 900 bytes (the cut
/// must fall on a character boundary).
pub open spec fn compact_cut_ok(s: Seq<char>) -> bool {
    let t = compact_joined(s);
    utf8_len(t) > 900 ==> is_byte_boundary(t, 900)
}

/// What `compact_command_output` returns: the compacted text, cut to its
/// first 900 bytes and marked with `...` when longer.
pub open spec fn compact_spec(s: Seq<char>) -> Seq<char> {
    let t = compact_joined(s);
    if utf8_len(t) > 900 {
        t.take(chars_in_bytes(t, 900) as int) + "..."@
    } else {
        t
    }
}

/// Trimmed, non-blank lines of `ls`, computed.
pub(crate) fn trimmed_nonblank_lines(ls: &Vec<Vec<char>>) -> (out: Vec<Vec<char>>)
    ensures
        out@.map_values(|l: Vec<char>| l@) == trimmed_nonblank(ls@.map_values(|l: Vec<char>| l@)),
{
    let ghost src = ls@.map_values(|l: Vec<char>| l@);
    let mut out: Vec<Vec<char>> = Vec::new();
    let mut i: usize = 0;
    while i < ls.len()
        invariant
            i <= ls.len(),
            src == ls@.map_values(|l: Vec<char>| l@),
            out@.map_values(|l: Vec<char>| l@) == trimmed_nonblank(src.take(i as int)),
        decreases ls.len() - i,
    {
        assert(src.take(i + 1).drop_last() =~= src.take(i as int));
        assert(src.take(i + 1).last() == ls@[i as int]@);
        let t = trim_ws(&ls[i]);
        let ghost before = out@;
        if t.len() > 0 {
            out.push(t);
            assert(out@.map_values(|l: Vec<char>| l@) =~= before.map_values(|l: Vec<char>| l@).push(
                t@,
            ));
        }
        i += 1;
    }
    assert(src.take(ls.len() as int) =~= src);
    out
}

/// `Vec::dedup`, computed.
fn dedup_lines(ls: Vec<Vec<char>>) -> (out: Vec<Vec<char>>)
    ensures
        out@.map_values(|l: Vec<char>| l@) == dedup(ls@.map_values(|l: Vec<char>| l@)),
{
    let ghost src = ls@.map_values(|l: Vec<char>| l@);
    let mut out: Vec<Vec<char>> = Vec::new();
    let mut i: usize = 0;
    while i < ls.len()
        invariant
            i <= ls.len(),
            src == ls@.map_values(|l: Vec<char>| l@),
            out@.map_values(|l: Vec<char>| l@) == dedup(src.take(i as int)),
            i > 0 ==> out.len() > 0 && out@[out.len() - 1]@ == src[i - 1],
        decreases ls.len() - i,
    {
        let ghost t = src.take(i + 1);
        assert(t.drop_last() =~= src.take(i as int));
        assert(t.last() == ls@[i as int]@);
        let ghost before = out@;
        if i == 0 {
            out.push(ls[i].clone());
            assert(out@.map_values(|l: Vec<char>| l@) =~= seq![ls@[0]@]);
            assert(dedup(t) == t);
            assert(t =~= seq![ls@[0]@]);
        } else {
            assert(t[t.len() - 2] == src[i - 1]);
            let same = eq_chars(&out[out.len() - 1], &ls[i]);
            if !same {
                out.push(ls[i].clone());
                assert(out@.map_values(|l: Vec<char>| l@) =~= before.map_values(|l: Vec<char>| l@).push(
                    ls@[i as int]@,
                ));
            }
        }
        i += 1;
    }
    assert(src.take(ls.len() as int) =~= src);
    out
}

/// Whether [`compact_command_output`] can cut the compacted text of `output`
/// at 900 bytes without splitting a character.
pub fn compact_cut_is_safe(output: &str) -> (r: bool)
    ensures
        r == compact_cut_ok(output@),
{
    let t = compact_joined_exec(output);
    let n = utf8_len_of(&t);
    if n <= 900 {
        return true;
    }
    let k = char_index_at_byte(&t, 900);
    let head = copy_range(&t, 0, k);
    let hb = utf8_len_of(&head);
    proof {
        assert(head@ =~= t@.take(k as int));
        if is_byte_boundary(t@, 900) {
            let j = choose|j: int| 0 <= j <= t@.len() && utf8_len(#[trigger] t@.take(j)) == 900;
            lemma_chars_in_bytes_exact(t@, j);
        }
    }
    hb == 900
}

fn compact_joined_exec(output: &str) -> (t: Vec<char>)
    ensures
        t@ == compact_joined(output@),
{
    let stripped = strip_ansi(output);
    let sv = chars_of(stripped.as_str());
    let cr: Vec<char> = vec!['\r'];
    let lf: Vec<char> = vec!['\n'];
    assert(cr@ == seq!['\r']);
    assert(lf@ == seq!['\n']);
    let cleaned = replace_chars(&sv, &cr, &lf);
    let ls = lines_of(&cleaned);
    let kept = trimmed_nonblank_lines(&ls);
    let deduped = dedup_lines(kept);
    let sep = chars_of(" | ");
    join_chars(&deduped, &sep)
}

/// Condenses a command's output for an error message: escapes stripped,
/// `\r` read as a line break, lines trimmed, blank lines and repeated
/// neighbours dropped, joined with ` | `, and cut after 900 bytes.
pub fn compact_command_output(output: &str) -> (r: String)
    requires
        compact_cut_ok(output@),
    ensures
        r@ == compact_spec(output@),
{
    let t = compact_joined_exec(output);
    let n = utf8_len_of(&t);
    if n > 900 {
        let k = char_index_at_byte(&t, 900);
        let mut head = copy_range(&t, 0, k);
        assert(head@ =~= t@.take(k as int));
        push_str(&mut head, "...");
        string_of(&head)
    } else {
        string_of(&t)
    }
}

// ---------------------------------------------------------------------------
// Prompts
// ---------------------------------------------------------------------------

/// The system prompt sent with every draft request.
pub open spec fn system_prompt_spec() -> Seq<char> {
    join(
        seq![
            "You write polished drafts for direct insertion into the user's active text field."@,
            "The user speaks an instruction, often in Portuguese, for an email or message reply."@,
            "Return only the finished draft text. No explanations, no markdown fences, no subject line unless explicitly requested."@,
            "Respect the language requested by the user. If no language is requested, use the language that best fits the instruction."@,
            "Keep the tone professional, warm, concise, and natural. Do not invent facts not present in the instruction."@,
        ],
        " "@,
    )
}

/// The system prompt sent with every draft request.
pub fn system_prompt() -> (r: String)
    ensures
        r@ == system_prompt_spec(),
{
    let parts: Vec<Vec<char>> = vec![
        chars_of(
            "You write polished drafts for direct insertion into the user's active text field.",
        ),
        chars_of(
            "The user speaks an instruction, often in Portuguese, for an email or message reply.",
        ),
        chars_of(
            "Return only the finished draft text. No explanations, no markdown fences, no subject line unless explicitly requested.",
        ),
        chars_of(
            "Respect the language requested by the user. If no language is requested, use the language that best fits the instruction.",
        ),
        chars_of(
            "Keep the tone professional, warm, concise, and natural. Do not invent facts not present in the instruction.",
        ),
    ];
    let sep = chars_of(" ");
    let out = join_chars(&parts, &sep);
    assert(parts@.map_values(|l: Vec<char>| l@) =~= seq![
        "You write polished drafts for direct insertion into the user's active text field."@,
        "The user speaks an instruction, often in Portuguese, for an email or message reply."@,
        "Return only the finished draft text. No explanations, no markdown fences, no subject line unless explicitly requested."@,
        "Respect the language requested by the user. If no language is requested, use the language that best fits the instruction."@,
        "Keep the tone professional, warm, concise, and natural. Do not invent facts not present in the instruction."@,
    ]);
    string_of(&out)
}

/// The prompt given to Ollama: the instruction itself, or for a Bonsai model
/// a fixed frame around the trimmed instruction.
pub open spec fn ollama_prompt_spec(instruction: Seq<char>, is_bonsai: bool) -> Seq<char> {
    if !is_bonsai {
        instruction
    } else {
        join(
            seq![
                "Task: write one finished email draft from the instruction."@,
                "Return only the email text."@,
                "No labels, no explanation, no repeated alternatives."@,
                "Use Portuguese unless the instruction asks for another language."@,
                ""@,
                "Instruction:"@,
                trim(instruction),
                ""@,
                "Email draft:"@,
            ],
            "\n"@,
        )
    }
}

/// The prompt given to Ollama for `instruction`.
pub fn ollama_prompt(instruction: &str, is_bonsai: bool) -> (r: String)
    ensures
        r@ == ollama_prompt_spec(instruction@, is_bonsai),
{
    if !is_bonsai {
        return owned(instruction);
    }
    let iv = chars_of(instruction);
    let t = trim_ws(&iv);
    let parts: Vec<Vec<char>> = vec![
        chars_of("Task: write one finished email draft from the instruction."),
        chars_of("Return only the email text."),
        chars_of("No labels, no explanation, no repeated alternatives."),
        chars_of("Use Portuguese unless the instruction asks for another language."),
        chars_of(""),
        chars_of("Instruction:"),
        t,
        chars_of(""),
        chars_of("Email draft:"),
    ];
    let sep = chars_of("\n");
    assert(parts@.map_values(|l: Vec<char>| l@) =~= seq![
        "Task: write one finished email draft from the instruction."@,
        "Return only the email text."@,
        "No labels, no explanation, no repeated alternatives."@,
        "Use Portuguese unless the instruction asks for another language."@,
        ""@,
        "Instruction:"@,
        trim(instruction@),
        ""@,
        "Email draft:"@,
    ]);
    let out = join_chars(&parts, &sep);
    string_of(&out)
}

// ---------------------------------------------------------------------------
// Model output clean-up and quality check
// ---------------------------------------------------------------------------

/// A line that only labels a part of a draft (`Body:`, `Draft:` ...).
pub open spec fn is_label_line(l: Seq<char>) -> bool {
    let lower = lowercase(trim(l));
    lower == "email draft:"@ || lower == "draft:"@ || lower == "resposta:"@ || lower
        == "greeting:"@ || lower == "body:"@ || lower == "closing:"@
}

/// Lines with their trailing whitespace removed, label lines dropped.
pub open spec fn unlabelled_lines(ls: Seq<Seq<char>>) -> Seq<Seq<char>>
    decreases ls.len(),
{
    if ls.len() == 0 {
        ls
    } else if is_label_line(trim_end(ls.last())) {
        unlabelled_lines(ls.drop_last())
    } else {
        unlabelled_lines(ls.drop_last()).push(trim_end(ls.last()))
    }
}

/// What `clean_model_draft` returns: the trimmed draft without surrounding
/// backticks, each line right-trimmed, label lines dropped, trimmed again.
pub open spec fn clean_model_draft_spec(d: Seq<char>) -> Seq<char> {
    trim(join(unlabelled_lines(lines(trim_class(trim(d), CharClass::Exactly('`')))), "\n"@))
}

fn is_label_line_exec(l: &Vec<char>) -> (r: bool)
    ensures
        r == is_label_line(l@),
{
    let t = trim_ws(l);
    let lower = lowercase_chars(&t);
    eq_str(&lower, "email draft:") || eq_str(&lower, "draft:") || eq_str(&lower, "resposta:")
        || eq_str(&lower, "greeting:") || eq_str(&lower, "body:") || eq_str(&lower, "closing:")
}

/// Strips what models wrap around a draft: surrounding whitespace and
/// backticks, trailing spaces, and lines that are only a label.
pub fn clean_model_draft(draft: &str) -> (r: String)
    ensures
        r@ == clean_model_draft_spec(draft@),
{
    let v = clean_model_draft_chars(draft);
    string_of(&v)
}

fn clean_model_draft_chars(draft: &str) -> (r: Vec<char>)
    ensures
        r@ == clean_model_draft_spec(draft@),
{
    let v = chars_of(draft);
    let t = trim_ws(&v);
    let t2 = trim_by(&t, CharClass::Exactly('`'));
    let ls = lines_of(&t2);
    let ghost src = ls@.map_values(|l: Vec<char>| l@);
    let mut kept: Vec<Vec<char>> = Vec::new();
    let mut i: usize = 0;
    while i < ls.len()
        invariant
            i <= ls.len(),
            src == ls@.map_values(|l: Vec<char>| l@),
            kept@.map_values(|l: Vec<char>| l@) == unlabelled_lines(src.take(i as int)),
        decreases ls.len() - i,
    {
        assert(src.take(i + 1).drop_last() =~= src.take(i as int));
        assert(src.take(i + 1).last() == ls@[i as int]@);
        let line = trim_end_by(&ls[i], CharClass::Whitespace);
        let ghost before = kept@;
        if !is_label_line_exec(&line) {
            kept.push(line);
            assert(kept@.map_values(|l: Vec<char>| l@) =~= before.map_values(|l: Vec<char>| l@).push(
                line@,
            ));
        }
        i += 1;
    }
    assert(src.take(ls.len() as int) =~= src);
    let nl = chars_of("\n");
    let joined = join_chars(&kept, &nl);
    trim_ws(&joined)
}

/// Phrases that betray a model talking about the task instead of drafting.
pub open spec fn bad_markers() -> Seq<Seq<char>> {
    seq![
        "return only"@,
        "just the"@,
        "here is"@,
        "aqui est"@,
        "posso ajudar"@,
        "o que voc"@,
        "greeting"@,
        "body:"@,
        "closing:"@,
        "subject:"@,
        "instruction:"@,
        "email draft:"@,
    ]
}

/// The trimmed lines of `ls` longer than 12 bytes.
pub open spec fn long_lines(ls: Seq<Seq<char>>) -> Seq<Seq<char>>
    decreases ls.len(),
{
    if ls.len() == 0 {
        ls
    } else if utf8_len(trim(ls.last())) > 12 {
        long_lines(ls.drop_last()).push(trim(ls.last()))
    } else {
        long_lines(ls.drop_last())
    }
}

/// Some item of `s` occurs twice.
pub open spec fn has_duplicate(s: Seq<Seq<char>>) -> bool {
    exists|i: int, j: int| 0 <= i < j < s.len() && s[i] == s[j]
}

/// The words of `text` for n-gram comparison: whitespace-separated, stripped
/// of non-alphanumeric characters at both ends, empty ones dropped.
pub open spec fn ngram_words_of(ws: Seq<Seq<char>>) -> Seq<Seq<char>>
    decreases ws.len(),
{
    if ws.len() == 0 {
        ws
    } else if trim_class(ws.last(), CharClass::NotAlphanumeric).len() > 0 {
        ngram_words_of(ws.drop_last()).push(trim_class(ws.last(), CharClass::NotAlphanumeric))
    } else {
        ngram_words_of(ws.drop_last())
    }
}

pub open spec fn ngram_words(text: Seq<char>) -> Seq<Seq<char>> {
    ngram_words_of(split_whitespace(text))
}

/// The `size` words of `ws` from index `k`, joined with spaces.
#[verifier::opaque]
pub open spec fn window_text(ws: Seq<Seq<char>>, k: int, size: int) -> Seq<char> {
    join(ws.subrange(k, k + size), " "@)
}

/// Two consecutive `size`-word windows of `text` read the same (checked only
/// when there are at least `2 * size` words).
pub open spec fn repeated_ngram_spec(text: Seq<char>, size: int) -> bool {
    let ws = ngram_words(text);
    ws.len() >= 2 * size && exists|k: int|
        1 <= k <= ws.len() - size && #[trigger] window_text(ws, k, size) == window_text(
            ws,
            k - 1,
            size,
        )
}

proof fn lemma_join_nonempty(parts: Seq<Seq<char>>, sep: Seq<char>)
    requires
        parts.len() > 0,
        forall|i: int| 0 <= i < parts.len() ==> parts[i].len() > 0,
    ensures
        join(parts, sep).len() > 0,
    decreases parts.len(),
{
    if parts.len() > 1 {
        lemma_join_nonempty(parts.drop_last(), sep);
    }
}

fn ngram_words_exec(text: &str) -> (words: Vec<Vec<char>>)
    ensures
        words@.map_values(|l: Vec<char>| l@) == ngram_words(text@),
        forall|i: int| 0 <= i < words.len() ==> (#[trigger] words@[i])@.len() > 0,
{
    let v = chars_of(text);
    let raw = split_whitespace_chars(&v);
    let ghost src = raw@.map_values(|l: Vec<char>| l@);
    let mut words: Vec<Vec<char>> = Vec::new();
    let mut i: usize = 0;
    while i < raw.len()
        invariant
            i <= raw.len(),
            src == raw@.map_values(|l: Vec<char>| l@),
            words@.map_values(|l: Vec<char>| l@) == ngram_words_of(src.take(i as int)),
            forall|j: int| 0 <= j < words.len() ==> (#[trigger] words@[j])@.len() > 0,
        decreases raw.len() - i,
    {
        assert(src.take(i + 1).drop_last() =~= src.take(i as int));
        assert(src.take(i + 1).last() == raw@[i as int]@);
        let w = trim_by(&raw[i], CharClass::NotAlphanumeric);
        let ghost before = words@;
        if w.len() > 0 {
            words.push(w);
            assert(words@.map_values(|l: Vec<char>| l@) =~= before.map_values(|l: Vec<char>| l@).push(
                w@,
            ));
        }
        i += 1;
    }
    assert(src.take(raw.len() as int) =~= src);
    words
}

/// The words `k..k + size` of `words`, joined with spaces.
fn window_exec(words: &Vec<Vec<char>>, k: usize, size: usize) -> (r: Vec<char>)
    requires
        k + size <= words.len(),
        size > 0,
        forall|i: int| 0 <= i < words.len() ==> (#[trigger] words@[i])@.len() > 0,
    ensures
        r@ == window_text(words@.map_values(|l: Vec<char>| l@), k as int, size as int),
        r@.len() > 0,
{
    reveal(window_text);
    let ghost ws = words@.map_values(|l: Vec<char>| l@);
    let mut window: Vec<Vec<char>> = Vec::new();
    let mut j: usize = k;
    while j < k + size
        invariant
            ws == words@.map_values(|l: Vec<char>| l@),
            k <= j <= k + size <= words.len(),
            window@.map_values(|l: Vec<char>| l@) == ws.subrange(k as int, j as int),
        decreases k + size - j,
    {
        let w = words[j].clone();
        assert(w@ == ws[j as int]);
        let ghost before = window@;
        window.push(w);
        assert(window@.map_values(|l: Vec<char>| l@) =~= before.map_values(|l: Vec<char>| l@).push(
            ws[j as int],
        ));
        assert(ws.subrange(k as int, j + 1) =~= ws.subrange(k as int, j as int).push(ws[j as int]));
        j += 1;
    }
    let sep = chars_of(" ");
    proof {
        let parts = ws.subrange(k as int, k + size);
        assert forall|i: int| 0 <= i < parts.len() implies (#[trigger] parts[i]).len() > 0 by {
            assert(parts[i] == ws[k + i]);
            assert(ws[k + i] == words@[k + i]@);
        }
        lemma_join_nonempty(parts, " "@);
    }
    join_chars(&window, &sep)
}

/// Whether two consecutive `size`-word windows of `text` repeat.
pub fn has_repeated_ngram(text: &str, size: usize) -> (r: bool)
    requires
        0 < size <= usize::MAX / 2,
    ensures
        r == repeated_ngram_spec(text@, size as int),
{
    let words = ngram_words_exec(text);
    let ghost ws = words@.map_values(|l: Vec<char>| l@);
    if words.len() < size * 2 {
        return false;
    }
    let mut previous: Vec<char> = Vec::new();
    let mut k: usize = 0;
    while k <= words.len() - size
        invariant
            ws == words@.map_values(|l: Vec<char>| l@),
            ws == ngram_words(text@),
            0 < size,
            words.len() >= 2 * size,
            forall|i: int| 0 <= i < words.len() ==> (#[trigger] words@[i])@.len() > 0,
            k <= words.len() - size + 1,
            k == 0 ==> previous@.len() == 0,
            k > 0 ==> previous@ == window_text(ws, k - 1, size as int),
            forall|j: int|
                1 <= j < k ==> #[trigger] window_text(ws, j, size as int) != window_text(
                    ws,
                    j - 1,
                    size as int,
                ),
        decreases words.len() + 1 - k,
    {
        let current = window_exec(&words, k, size);
        if eq_chars(&current, &previous) {
            return true;
        }
        previous = current;
        k += 1;
    }
    false
}

/// Whether a model's draft is poor enough to use the local template instead:
/// too long, too many lines, talking about the task, repeating a line, or
/// repeating a 3- or 4-word phrase back to back.
pub open spec fn fallback_spec(d: Seq<char>) -> bool {
    let cleaned = clean_model_draft_spec(d);
    let lower = lowercase(cleaned);
    ||| utf8_len(cleaned) > 1200
    ||| lines(cleaned).len() > 12
    ||| exists|i: int| 0 <= i < bad_markers().len() && contains(lower, #[trigger] bad_markers()[i])
    ||| has_duplicate(long_lines(lines(lower)))
    ||| repeated_ngram_spec(lower, 3)
    ||| repeated_ngram_spec(lower, 4)
}

fn bad_markers_exec() -> (r: Vec<Vec<char>>)
    ensures
        r@.map_values(|l: Vec<char>| l@) == bad_markers(),
{
    let r: Vec<Vec<char>> = vec![
        chars_of("return only"),
        chars_of("just the"),
        chars_of("here is"),
        chars_of("aqui est"),
        chars_of("posso ajudar"),
        chars_of("o que voc"),
        chars_of("greeting"),
        chars_of("body:"),
        chars_of("closing:"),
        chars_of("subject:"),
        chars_of("instruction:"),
        chars_of("email draft:"),
    ];
    assert(r@.map_values(|l: Vec<char>| l@) =~= bad_markers());
    r
}

fn long_lines_exec(ls: &Vec<Vec<char>>) -> (out: Vec<Vec<char>>)
    ensures
        out@.map_values(|l: Vec<char>| l@) == long_lines(ls@.map_values(|l: Vec<char>| l@)),
{
    let ghost src = ls@.map_values(|l: Vec<char>| l@);
    let mut out: Vec<Vec<char>> = Vec::new();
    let mut i: usize = 0;
    while i < ls.len()
        invariant
            i <= ls.len(),
            src == ls@.map_values(|l: Vec<char>| l@),
            out@.map_values(|l: Vec<char>| l@) == long_lines(src.take(i as int)),
        decreases ls.len() - i,
    {
        assert(src.take(i + 1).drop_last() =~= src.take(i as int));
        assert(src.take(i + 1).last() == ls@[i as int]@);
        let t = trim_ws(&ls[i]);
        let ghost before = out@;
        if utf8_len_of(&t) > 12 {
            out.push(t);
            assert(out@.map_values(|l: Vec<char>| l@) =~= before.map_values(|l: Vec<char>| l@).push(
                t@,
            ));
        }
        i += 1;
    }
    assert(src.take(ls.len() as int) =~= src);
    out
}

fn has_duplicate_exec(v: &Vec<Vec<char>>) -> (r: bool)
    ensures
        r == has_duplicate(v@.map_values(|l: Vec<char>| l@)),
{
    let ghost s = v@.map_values(|l: Vec<char>| l@);
    let mut j: usize = 0;
    while j < v.len()
        invariant
            j <= v.len(),
            s == v@.map_values(|l: Vec<char>| l@),
            forall|a: int, b: int| 0 <= a < b < j ==> s[a] != s[b],
        decreases v.len() - j,
    {
        let mut i: usize = 0;
        while i < j
            invariant
                i <= j < v.len(),
                s == v@.map_values(|l: Vec<char>| l@),
                forall|a: int| 0 <= a < i ==> s[a] != s[j as int],
            decreases j - i,
        {
            if eq_chars(&v[i], &v[j]) {
                assert(s[i as int] == s[j as int]);
                return true;
            }
            i += 1;
        }
        j += 1;
    }
    false
}

/// Whether a model's draft is poor enough to use the local template instead.
pub fn should_use_local_fallback(draft: &str) -> (r: bool)
    ensures
        r == fallback_spec(draft@),
{
    let cleaned = clean_model_draft_chars(draft);
    let lower = lowercase_chars(&cleaned);
    if utf8_len_of(&cleaned) > 1_200 || lines_of(&cleaned).len() > 12 {
        return true;
    }
    let markers = bad_markers_exec();
    let mut i: usize = 0;
    while i < markers.len()
        invariant
            i <= markers.len(),
            markers@.map_values(|l: Vec<char>| l@) == bad_markers(),
            lower@ == lowercase(clean_model_draft_spec(draft@)),
            forall|j: int| 0 <= j < i ==> !contains(lower@, #[trigger] bad_markers()[j]),
        decreases markers.len() - i,
    {
        assert(markers@[i as int]@ == bad_markers()[i as int]);
        if contains_chars(&lower, &markers[i]) {
            assert(contains(lower@, bad_markers()[i as int]));
            return true;
        }
        i += 1;
    }
    let lower_lines = lines_of(&lower);
    let long = long_lines_exec(&lower_lines);
    if has_duplicate_exec(&long) {
        return true;
    }
    let lower_s = string_of(&lower);
    has_repeated_ngram(lower_s.as_str(), 3) || has_repeated_ngram(lower_s.as_str(), 4)
}

// ---------------------------------------------------------------------------
// Local Portuguese template
// ---------------------------------------------------------------------------

/// Afternoon hour `h` (1..=12) on the 24-hour clock.
pub open spec fn afternoon_hour(h: nat) -> nat {
    if h == 12 {
        12
    } else {
        h + 12
    }
}

/// Night hour `h` (1..=12) on the 24-hour clock.
pub open spec fn night_hour(h: nat) -> nat {
    if h == 12 {
        0
    } else {
        h + 12
    }
}

/// ` às <h>h`.
pub open spec fn at_hour(h: nat) -> Seq<char> {
    " às "@ + decimal(h) + "h"@
}

/// The six rewrites for hour `h`: "às/as h da tarde|noite|manhã" becomes
/// "às Hh" on the 24-hour clock.
pub open spec fn rewrite_hour(t: Seq<char>, h: nat) -> Seq<char> {
    let t1 = replace(t, " às "@ + decimal(h) + " da tarde"@, at_hour(afternoon_hour(h)));
    let t2 = replace(t1, " as "@ + decimal(h) + " da tarde"@, at_hour(afternoon_hour(h)));
    let t3 = replace(t2, " às "@ + decimal(h) + " da noite"@, at_hour(night_hour(h)));
    let t4 = replace(t3, " as "@ + decimal(h) + " da noite"@, at_hour(night_hour(h)));
    let t5 = replace(t4, " as "@ + decimal(h) + " da manhã"@, at_hour(h));
    replace(t5, " às "@ + decimal(h) + " da manhã"@, at_hour(h))
}

/// The rewrites for hours 1..=h, in increasing order.
pub open spec fn rewrite_hours_upto(t: Seq<char>, h: nat) -> Seq<char>
    decreases h,
{
    if h == 0 {
        t
    } else {
        rewrite_hour(rewrite_hours_upto(t, (h - 1) as nat), h)
    }
}

/// Spoken Portuguese times ("às 5 da tarde") written as 24-hour times
/// ("às 17h"), for hours 1 to 12.
pub open spec fn normalize_times_spec(t: Seq<char>) -> Seq<char> {
    rewrite_hours_upto(t, 12)
}

fn phrase(a: &str, h: u32, b: &str) -> (out: Vec<char>)
    ensures
        out@ == a@ + decimal(h as nat) + b@,
{
    let mut out = chars_of(a);
    let d = decimal_chars(h as u64);
    push_all(&mut out, &d);
    push_str(&mut out, b);
    out
}

fn rewrite_hour_exec(t: Vec<char>, h: u32) -> (out: Vec<char>)
    requires
        1 <= h <= 12,
    ensures
        out@ == rewrite_hour(t@, h as nat),
{
    proof {
        reveal_strlit(" às ");
        reveal_strlit(" as ");
    }
    let pm: u32 = if h == 12 {
        12
    } else {
        h + 12
    };
    let night: u32 = if h == 12 {
        0
    } else {
        h + 12
    };
    let to_pm = phrase(" às ", pm, "h");
    let to_night = phrase(" às ", night, "h");
    let to_morning = phrase(" às ", h, "h");
    let t1 = replace_chars(&t, &phrase(" às ", h, " da tarde"), &to_pm);
    let t2 = replace_chars(&t1, &phrase(" as ", h, " da tarde"), &to_pm);
    let t3 = replace_chars(&t2, &phrase(" às ", h, " da noite"), &to_night);
    let t4 = replace_chars(&t3, &phrase(" as ", h, " da noite"), &to_night);
    let t5 = replace_chars(&t4, &phrase(" as ", h, " da manhã"), &to_morning);
    replace_chars(&t5, &phrase(" às ", h, " da manhã"), &to_morning)
}

fn normalize_times_chars(input: &Vec<char>) -> (out: Vec<char>)
    ensures
        out@ == normalize_times_spec(input@),
{
    let mut text = input.clone();
    assert(text@ == input@);
    let mut hour: u32 = 1;
    while hour <= 12
        invariant
            1 <= hour <= 13,
            text@ == rewrite_hours_upto(input@, (hour - 1) as nat),
        decreases 13 - hour,
    {
        text = rewrite_hour_exec(text, hour);
        hour += 1;
    }
    text
}

/// Rewrites spoken Portuguese times ("às 5 da tarde") as 24-hour times
/// ("às 17h").
pub fn normalize_portuguese_times(input: &str) -> (out: String)
    ensures
        out@ == normalize_times_spec(input@),
{
    let v = chars_of(input);
    let t = normalize_times_chars(&v);
    string_of(&t)
}

/// The request phrasings stripped from the front of a spoken instruction, in
/// the order they are tried.
pub open spec fn request_prefixes() -> Seq<Seq<char>> {
    seq![
        "queria-me um email que diga que"@,
        "queria me um email que diga que"@,
        "queria-me um email que diga"@,
        "queria me um email que diga"@,
        "queria um email que diga que"@,
        "queria um email que diga"@,
        "quero um email que diga que"@,
        "quero um email que diga"@,
        "faz-me um email a dizer que"@,
        "faz me um email a dizer que"@,
        "faz-me um email a dizer, que"@,
        "faz me um email a dizer, que"@,
        "faz-me um email a dizer"@,
        "faz me um email a dizer"@,
        "cria um email a dizer que"@,
        "cria um email a dizer"@,
        "escreve um email a dizer que"@,
        "escreve um email a dizer"@,
    ]
}

/// The first entry of `ps`, from index `i` on, that `lower` starts with.
pub open spec fn first_prefix_from(ps: Seq<Seq<char>>, lower: Seq<char>, i: int) -> Option<
    Seq<char>,
>
    decreases ps.len() - i,
{
    if i < 0 || i >= ps.len() {
        None
    } else if starts_with(lower, ps[i]) {
        Some(ps[i])
    } else {
        first_prefix_from(ps, lower, i + 1)
    }
}

pub proof fn lemma_chars_in_bytes_le(s: Seq<char>, k: int)
    ensures
        chars_in_bytes(s, k) <= s.len(),
        s.len() > 0 && k > 0 ==> chars_in_bytes(s, k) > 0,
    decreases s.len(),
{
    if s.len() > 0 && k > 0 {
        lemma_chars_in_bytes_le(s.drop_first(), k - char_utf8_len(s[0]));
    }
}

/// `text` after dropping the bytes of a matched prefix, then any leading
/// commas, colons and whitespace.
pub open spec fn drop_matched(text: Seq<char>, bytes: int) -> Seq<char> {
    trim_start_class(text.skip(chars_in_bytes(text, bytes) as int), CharClass::CommaColonOrWhitespace)
}

pub proof fn lemma_drop_matched_shorter(text: Seq<char>, bytes: int)
    requires
        chars_in_bytes(text, bytes) > 0,
    ensures
        drop_matched(text, bytes).len() < text.len(),
{
    lemma_chars_in_bytes_le(text, bytes);
    crate::text::lemma_leading_le(
        text.skip(chars_in_bytes(text, bytes) as int),
        CharClass::CommaColonOrWhitespace,
    );
}

/// Request phrasings stripped from the front of `text`, repeatedly, each
/// matched case-insensitively and cut at its byte length.
pub open spec fn strip_request_prefixes(text: Seq<char>) -> Seq<char>
    decreases text.len(),
{
    match first_prefix_from(request_prefixes(), lowercase(text), 0) {
        None => text,
        Some(p) => if chars_in_bytes(text, utf8_len(p) as int) == 0 {
            text
        } else {
            proof {
                lemma_drop_matched_shorter(text, utf8_len(p) as int);
            }
            strip_request_prefixes(drop_matched(text, utf8_len(p) as int))
        },
    }
}

/// Leading "que " words stripped, repeatedly, matched case-insensitively.
pub open spec fn strip_que(text: Seq<char>) -> Seq<char>
    decreases text.len(),
{
    if starts_with(lowercase(text), "que "@) && chars_in_bytes(text, 4) > 0 {
        proof {
            lemma_drop_matched_shorter(text, 4);
        }
        strip_que(drop_matched(text, 4))
    } else {
        text
    }
}

/// What `clean_email_instruction` returns.
pub open spec fn clean_instruction_spec(instruction: Seq<char>) -> Seq<char> {
    strip_que(strip_request_prefixes(trim(trim_class(trim(instruction), CharClass::Exactly('"')))))
}

fn request_prefixes_exec() -> (r: Vec<Vec<char>>)
    ensures
        r@.map_values(|l: Vec<char>| l@) == request_prefixes(),
{
    let r: Vec<Vec<char>> = vec![
        chars_of("queria-me um email que diga que"),
        chars_of("queria me um email que diga que"),
        chars_of("queria-me um email que diga"),
        chars_of("queria me um email que diga"),
        chars_of("queria um email que diga que"),
        chars_of("queria um email que diga"),
        chars_of("quero um email que diga que"),
        chars_of("quero um email que diga"),
        chars_of("faz-me um email a dizer que"),
        chars_of("faz me um email a dizer que"),
        chars_of("faz-me um email a dizer, que"),
        chars_of("faz me um email a dizer, que"),
        chars_of("faz-me um email a dizer"),
        chars_of("faz me um email a dizer"),
        chars_of("cria um email a dizer que"),
        chars_of("cria um email a dizer"),
        chars_of("escreve um email a dizer que"),
        chars_of("escreve um email a dizer"),
    ];
    assert(r@.map_values(|l: Vec<char>| l@) =~= request_prefixes());
    r
}

fn first_prefix_exec(ps: &Vec<Vec<char>>, lower: &Vec<char>) -> (r: Option<usize>)
    ensures
        r matches Some(i) ==> i < ps.len() && first_prefix_from(
            ps@.map_values(|l: Vec<char>| l@),
            lower@,
            0,
        ) == Some(ps@[i as int]@),
        r is None ==> first_prefix_from(ps@.map_values(|l: Vec<char>| l@), lower@, 0) is None,
{
    let ghost src = ps@.map_values(|l: Vec<char>| l@);
    let mut i: usize = 0;
    while i < ps.len()
        invariant
            i <= ps.len(),
            src == ps@.map_values(|l: Vec<char>| l@),
            first_prefix_from(src, lower@, 0) == first_prefix_from(src, lower@, i as int),
        decreases ps.len() - i,
    {
        if starts_with_chars(lower, &ps[i]) {
            return Some(i);
        }
        i += 1;
    }
    None
}

fn drop_matched_exec(text: &Vec<char>, bytes: u128) -> (out: Vec<char>)
    ensures
        out@ == drop_matched(text@, bytes as int),
{
    let n = char_index_at_byte(text, bytes);
    let rest = copy_range(text, n, text.len());
    assert(rest@ =~= text@.skip(n as int));
    trim_start_by(&rest, CharClass::CommaColonOrWhitespace)
}

fn clean_email_instruction_chars(instruction: &str) -> (out: Vec<char>)
    ensures
        out@ == clean_instruction_spec(instruction@),
{
    let v = chars_of(instruction);
    let t1 = trim_ws(&v);
    let t2 = trim_by(&t1, CharClass::Exactly('"'));
    let mut text = trim_ws(&t2);
    let ghost start = text@;
    let prefixes = request_prefixes_exec();
    loop
        invariant
            prefixes@.map_values(|l: Vec<char>| l@) == request_prefixes(),
            strip_request_prefixes(text@) == strip_request_prefixes(start),
        ensures
            text@ == strip_request_prefixes(start),
        decreases text@.len(),
    {
        let lower = lowercase_chars(&text);
        match first_prefix_exec(&prefixes, &lower) {
            None => {
                break;
            },
            Some(i) => {
                let b = utf8_len_of(&prefixes[i]);
                assert(prefixes@[i as int]@ == prefixes@.map_values(|l: Vec<char>| l@)[i as int]);
                let n = char_index_at_byte(&text, b);
                if n == 0 {
                    break;
                }
                proof {
                    lemma_drop_matched_shorter(text@, b as int);
                }
                text = drop_matched_exec(&text, b);
            },
        }
    }
    let ghost mid = text@;
    assert(mid == strip_request_prefixes(start));
    let que = chars_of("que ");
    proof {
        reveal_strlit("que ");
    }
    loop
        invariant
            que@ == "que "@,
            strip_que(text@) == strip_que(mid),
        ensures
            text@ == strip_que(mid),
        decreases text@.len(),
    {
        let lower = lowercase_chars(&text);
        if !starts_with_chars(&lower, &que) {
            break;
        }
        let n = char_index_at_byte(&text, 4);
        if n == 0 {
            break;
        }
        proof {
            lemma_drop_matched_shorter(text@, 4);
        }
        text = drop_matched_exec(&text, 4);
    }
    text
}

/// Strips the request wording ("faz-me um email a dizer que ...") from a
/// spoken instruction, leaving what the email should say.
pub fn clean_email_instruction(instruction: &str) -> (out: String)
    ensures
        out@ == clean_instruction_spec(instruction@),
{
    let t = clean_email_instruction_chars(instruction);
    string_of(&t)
}

/// Words that end a recipient's name.
pub open spec fn name_stops() -> Seq<Seq<char>> {
    seq![" que "@, " hoje "@, " amanhã "@, " as "@, " às "@, "."@, ","@]
}

/// The byte offset in `tail_lower` at which the name ends: the earliest
/// stop word from index `i` on, or `end` when none is earlier.
pub open spec fn name_end_from(tail_lower: Seq<char>, end: int, i: int) -> int
    decreases name_stops().len() - i,
{
    if i < 0 || i >= name_stops().len() {
        end
    } else {
        match find(tail_lower, name_stops()[i]) {
            Some(p) => {
                let pos = utf8_len(tail_lower.take(p)) as int;
                name_end_from(tail_lower, if pos < end { pos } else { end }, i + 1)
            },
            None => name_end_from(tail_lower, end, i + 1),
        }
    }
}

/// The name written after "para o senhor " (found case-insensitively), up to
/// the first stop word, trimmed; `None` when absent or blank. Offsets found
/// in the lowercased text are applied as byte offsets to the instruction as given.
pub open spec fn recipient_spec(instruction: Seq<char>) -> Option<Seq<char>> {
    let lower = lowercase(instruction);
    match find(lower, "para o senhor "@) {
        None => None,
        Some(ci) => {
            let start = utf8_len(lower.take(ci)) + utf8_len("para o senhor "@);
            let tail = instruction.skip(chars_in_bytes(instruction, start as int) as int);
            let end = name_end_from(lowercase(tail), utf8_len(tail) as int, 0);
            let name = trim(tail.take(chars_in_bytes(tail, end) as int));
            if name.len() == 0 {
                None
            } else {
                Some(name)
            }
        },
    }
}

fn name_stops_exec() -> (r: Vec<Vec<char>>)
    ensures
        r@.map_values(|l: Vec<char>| l@) == name_stops(),
{
    let r: Vec<Vec<char>> = vec![
        chars_of(" que "),
        chars_of(" hoje "),
        chars_of(" amanhã "),
        chars_of(" as "),
        chars_of(" às "),
        chars_of("."),
        chars_of(","),
    ];
    assert(r@.map_values(|l: Vec<char>| l@) =~= name_stops());
    r
}

fn recipient_chars(instruction: &Vec<char>) -> (r: Option<Vec<char>>)
    ensures
        r matches Some(n) ==> recipient_spec(instruction@) == Some(n@),
        r is None ==> recipient_spec(instruction@) is None,
{
    let lower = lowercase_chars(instruction);
    let marker = chars_of("para o senhor ");
    let ci = match find_chars(&lower, &marker) {
        None => {
            return None;
        },
        Some(ci) => ci,
    };
    let head = copy_range(&lower, 0, ci);
    assert(head@ =~= lower@.take(ci as int));
    let start = utf8_len_of(&head) + utf8_len_of(&marker);
    let k = char_index_at_byte(instruction, start);
    let tail = copy_range(instruction, k, instruction.len());
    assert(tail@ =~= instruction@.skip(k as int));
    let tail_lower = lowercase_chars(&tail);
    let stops = name_stops_exec();
    let mut end: u128 = utf8_len_of(&tail);
    let mut i: usize = 0;
    while i < stops.len()
        invariant
            i <= stops.len(),
            stops@.map_values(|l: Vec<char>| l@) == name_stops(),
            name_end_from(tail_lower@, utf8_len(tail@) as int, 0) == name_end_from(
                tail_lower@,
                end as int,
                i as int,
            ),
        decreases stops.len() - i,
    {
        assert(stops@[i as int]@ == name_stops()[i as int]);
        match find_chars(&tail_lower, &stops[i]) {
            Some(p) => {
                let before = copy_range(&tail_lower, 0, p);
                assert(before@ =~= tail_lower@.take(p as int));
                let pos = utf8_len_of(&before);
                if pos < end {
                    end = pos;
                }
            },
            None => {},
        }
        i += 1;
    }
    let m = char_index_at_byte(&tail, end);
    let name_raw = copy_range(&tail, 0, m);
    assert(name_raw@ =~= tail@.take(m as int));
    let name = trim_ws(&name_raw);
    if name.len() == 0 {
        None
    } else {
        Some(name)
    }
}

/// The recipient named after "para o senhor " in a spoken instruction.
pub fn extract_portuguese_recipient(instruction: &str) -> (r: Option<String>)
    ensures
        r matches Some(n) ==> recipient_spec(instruction@) == Some(n@),
        r is None ==> recipient_spec(instruction@) is None,
{
    let v = chars_of(instruction);
    match recipient_chars(&v) {
        Some(n) => Some(string_of(&n)),
        None => None,
    }
}

/// The body rewrites: times on the 24-hour clock and "vou lá" as "vou aí".
pub open spec fn body_rewrites(b: Seq<char>) -> Seq<char> {
    let b1 = normalize_times_spec(b);
    let b2 = replace(b1, "eu vou aí estar"@, "vou aí estar"@);
    let b3 = replace(b2, "eu vou la estar"@, "vou aí estar"@);
    let b4 = replace(b3, "eu vou lá estar"@, "vou aí estar"@);
    let b5 = replace(b4, "vou la"@, "vou aí"@);
    replace(b5, "vou lá"@, "vou aí"@)
}

/// What `clean_body_sentence` returns: the instruction without its final
/// period, rewritten, without the recipient phrase, trimmed and without
/// leading commas.
pub open spec fn clean_body_spec(instruction: Seq<char>) -> Seq<char> {
    let b = body_rewrites(trim_end_class(trim(instruction), CharClass::Exactly('.')));
    let b2 = match recipient_spec(b) {
        Some(name) => replace(b, " para o senhor "@ + name, Seq::empty()),
        None => b,
    };
    trim_start_class(trim(b2), CharClass::CommaOrWhitespace)
}

fn replace_lit(v: &Vec<char>, p: &str, r: &str) -> (out: Vec<char>)
    requires
        p@.len() > 0,
    ensures
        out@ == replace(v@, p@, r@),
{
    let pv = chars_of(p);
    let rv = chars_of(r);
    replace_chars(v, &pv, &rv)
}

fn clean_body_chars(instruction: &Vec<char>) -> (out: Vec<char>)
    ensures
        out@ == clean_body_spec(instruction@),
{
    proof {
        reveal_strlit("eu vou aí estar");
        reveal_strlit("eu vou la estar");
        reveal_strlit("eu vou lá estar");
        reveal_strlit("vou la");
        reveal_strlit("vou lá");
        reveal_strlit(" para o senhor ");
    }
    let t = trim_ws(instruction);
    let t = trim_end_by(&t, CharClass::Exactly('.'));
    let b = normalize_times_chars(&t);
    let b = replace_lit(&b, "eu vou aí estar", "vou aí estar");
    let b = replace_lit(&b, "eu vou la estar", "vou aí estar");
    let b = replace_lit(&b, "eu vou lá estar", "vou aí estar");
    let b = replace_lit(&b, "vou la", "vou aí");
    let b = replace_lit(&b, "vou lá", "vou aí");
    let b2 = match recipient_chars(&b) {
        Some(name) => {
            let mut pat = chars_of(" para o senhor ");
            push_all(&mut pat, &name);
            let empty: Vec<char> = Vec::new();
            replace_chars(&b, &pat, &empty)
        },
        None => b,
    };
    let t2 = trim_ws(&b2);
    trim_start_by(&t2, CharClass::CommaOrWhitespace)
}

/// The sentence an instruction asks to say, tidied for the email body.
pub fn clean_body_sentence(instruction: &str) -> (out: String)
    ensures
        out@ == clean_body_spec(instruction@),
{
    let v = chars_of(instruction);
    let b = clean_body_chars(&v);
    string_of(&b)
}

/// The email written without a model: a greeting (to the recipient when
/// one is named), one sentence carrying the instruction, and a closing.
pub open spec fn local_fallback_spec(instruction: Seq<char>) -> Seq<char> {
    let instr = clean_instruction_spec(instruction);
    let greeting = match recipient_spec(instr) {
        Some(name) => "Olá Sr. "@ + name + ","@,
        None => "Olá,"@,
    };
    greeting + "\n\nEscrevo para informar que "@ + clean_body_spec(instr) + ".\n\nCumprimentos,"@
}

/// The email written without a model.
pub fn local_email_fallback(instruction: &str) -> (out: String)
    ensures
        out@ == local_fallback_spec(instruction@),
{
    let instr = clean_email_instruction_chars(instruction);
    let mut out: Vec<char> = match recipient_chars(&instr) {
        Some(name) => {
            let mut g = chars_of("Olá Sr. ");
            push_all(&mut g, &name);
            push_str(&mut g, ",");
            g
        },
        None => chars_of("Olá,"),
    };
    push_str(&mut out, "\n\nEscrevo para informar que ");
    let body = clean_body_chars(&instr);
    push_all(&mut out, &body);
    push_str(&mut out, ".\n\nCumprimentos,");
    string_of(&out)
}

} // verus!

verus! {

// ---------------------------------------------------------------------------
// Drafting an email
// ---------------------------------------------------------------------------

/// The refusal of an empty instruction.
pub open spec fn empty_instruction_message() -> Seq<char> {
    "No command instruction was transcribed."@
}

/// The failure of a Groq request without a key.
pub open spec fn missing_groq_key_message() -> Seq<char> {
    "Groq API key not set. Add it in Settings > Transcription."@
}

/// The refusal of an unknown drafting engine.
pub open spec fn unsupported_engine_message(engine: Seq<char>) -> Seq<char> {
    "Unsupported email draft engine `"@ + engine + "`."@
}

fn unsupported_engine_error(engine: &str) -> (e: String)
    ensures
        e@ == unsupported_engine_message(engine@),
{
    let mut m: Vec<char> = Vec::new();
    push_str(&mut m, "Unsupported email draft engine `");
    push_str(&mut m, engine);
    push_str(&mut m, "`.");
    string_of(&m)
}

/// How long an Ollama draft may take, in seconds: Bonsai models get 90,
/// others 15.
pub open spec fn ollama_timeout_secs(is_bonsai: bool) -> u64 {
    if is_bonsai {
        90
    } else {
        15
    }
}

/// How an email draft request starts.
#[derive(Debug)]
pub enum DraftStart {
    /// Refused, with this message.
    Refuse(String),
    /// No model can be asked: this is the draft, from the local template.
    Fallback(String),
    /// Ask Groq's chat completions with these messages.
    AskGroq { model: String, messages: Vec<ChatMessage>, max_tokens: u32 },
    /// Ask the local Ollama runtime (after making sure it runs).
    AskOllama {
        model: String,
        is_bonsai: bool,
        timeout_secs: u64,
        system: String,
        prompt: String,
        num_predict: u32,
    },
}

/// Starts drafting an email from a spoken `instruction`.
///
/// An empty instruction, an unknown engine and an unknown model are
/// refused. A Groq request without a key falls back to the local template.
/// Otherwise the chosen model is asked, with the drafting system prompt
/// and the (trimmed) instruction.
pub fn start_email_draft(api_key: &str, engine: &str, model: &str, instruction: &str) -> (r:
    DraftStart)
    ensures
        trim(instruction@).len() == 0 ==> (r matches DraftStart::Refuse(m) && m@
            == empty_instruction_message()),
        trim(instruction@).len() > 0 && engine@ == "groq"@ ==> if trim(api_key@).len() == 0 {
            r matches DraftStart::Fallback(d) && d@ == local_fallback_spec(trim(instruction@))
        } else if !listed(ALLOWED_GROQ_DRAFT_MODELS@, trim(model@)) {
            r matches DraftStart::Refuse(m) && m@ == unsupported_model_message(
                "Groq"@,
                trim(model@),
            )
        } else {
            r matches DraftStart::AskGroq { model: m, messages, max_tokens } && m@ == trim(
                model@,
            ) && max_tokens == 700 && messages@.len() == 2 && messages@[0].role@ == "system"@
                && messages@[0].content@ == system_prompt_spec() && messages@[1].role@
                == "user"@ && messages@[1].content@ == trim(instruction@)
        },
        trim(instruction@).len() > 0 && engine@ == "ollama"@ ==> if !listed(
            ALLOWED_OLLAMA_DRAFT_MODELS@,
            trim(model@),
        ) {
            r matches DraftStart::Refuse(m) && m@ == unsupported_model_message(
                "Ollama"@,
                trim(model@),
            )
        } else {
            r matches DraftStart::AskOllama {
                model: m,
                is_bonsai,
                timeout_secs,
                system,
                prompt,
                num_predict,
            } && m@ == runtime_model_spec(trim(model@)) && is_bonsai == (bonsai_spec(
                trim(model@),
            ) is Some) && timeout_secs == ollama_timeout_secs(is_bonsai) && system@
                == system_prompt_spec() && prompt@ == ollama_prompt_spec(
                trim(instruction@),
                is_bonsai,
            ) && num_predict == (if is_bonsai {
                180u32
            } else {
                320u32
            })
        },
        trim(instruction@).len() > 0 && engine@ != "groq"@ && engine@ != "ollama"@ ==> (r matches DraftStart::Refuse(m)
            && m@ == unsupported_engine_message(engine@)),
{
    proof {
        reveal_strlit("groq");
        reveal_strlit("ollama");
        assert("groq"@.len() != "ollama"@.len());
    }
    let tv = trim_ws(&chars_of(instruction));
    let t = string_of(&tv);
    if tv.len() == 0 {
        return DraftStart::Refuse(owned("No command instruction was transcribed."));
    }
    let e = chars_of(engine);
    if eq_str(&e, "groq") {
        if trim_ws(&chars_of(api_key)).len() == 0 {
            return DraftStart::Fallback(local_email_fallback(t.as_str()));
        }
        match normalize_groq_draft_model(model) {
            Err(m) => DraftStart::Refuse(m),
            Ok(m) => DraftStart::AskGroq {
                model: m,
                messages: vec![
                    ChatMessage { role: owned("system"), content: system_prompt() },
                    ChatMessage { role: owned("user"), content: t },
                ],
                max_tokens: 700,
            },
        }
    } else if eq_str(&e, "ollama") {
        match normalize_ollama_draft_model(model) {
            Err(m) => DraftStart::Refuse(m),
            Ok(selected) => {
                let is_bonsai = bonsai_model(selected.as_str()).is_some();
                proof {
                    lemma_trim_idempotent(model@);
                }
                match ollama_runtime_model(selected.as_str()) {
                    Err(m) => DraftStart::Refuse(m),
                    Ok(runtime) => DraftStart::AskOllama {
                        model: runtime,
                        is_bonsai,
                        timeout_secs: if is_bonsai {
                            90
                        } else {
                            15
                        },
                        system: system_prompt(),
                        prompt: ollama_prompt(t.as_str(), is_bonsai),
                        num_predict: if is_bonsai {
                            180
                        } else {
                            320
                        },
                    },
                }
            },
        }
    } else {
        DraftStart::Refuse(unsupported_engine_error(engine))
    }
}

/// Whether a failure message is a refusal (an unknown engine or model):
/// those are reported, all other failures fall back to the template.
pub open spec fn is_refusal(e: Seq<char>) -> bool {
    starts_with(e, "Unsupported"@)
}

/// The draft, once the model answered or failed: a refusal is passed on,
/// any other failure gives the local template for the trimmed instruction.
pub fn finish_email_draft(instruction: &str, outcome: Result<String, String>) -> (r: Result<
    String,
    String,
>)
    ensures
        outcome is Ok ==> r == outcome,
        outcome matches Err(e) ==> if is_refusal(e@) {
            r == outcome
        } else {
            r is Ok && r->Ok_0@ == local_fallback_spec(trim(instruction@))
        },
{
    match outcome {
        Ok(d) => Ok(d),
        Err(e) => {
            let ev = chars_of(e.as_str());
            let p = chars_of("Unsupported");
            if starts_with_chars(&ev, &p) {
                Err(e)
            } else {
                let t = string_of(&trim_ws(&chars_of(instruction)));
                Ok(local_email_fallback(t.as_str()))
            }
        },
    }
}

/// The draft made of Ollama's answer: an empty answer is a failure; a
/// Bonsai answer of low quality is replaced by the local template;
/// otherwise the answer, cleaned.
pub fn finish_ollama_response(response: &str, is_bonsai: bool, instruction: &str) -> (r: Result<
    String,
    String,
>)
    ensures
        trim(response@).len() == 0 ==> (r matches Err(m) && m@
            == "Ollama response did not include text."@),
        trim(response@).len() > 0 && is_bonsai && fallback_spec(trim(response@)) ==> (r matches Ok(
            d,
        ) && d@ == local_fallback_spec(instruction@)),
        trim(response@).len() > 0 && !(is_bonsai && fallback_spec(trim(response@))) ==> (r matches Ok(
            d,
        ) && d@ == clean_model_draft_spec(trim(response@))),
{
    let dv = trim_ws(&chars_of(response));
    let d = string_of(&dv);
    if dv.len() == 0 {
        Err(owned("Ollama response did not include text."))
    } else if is_bonsai && should_use_local_fallback(d.as_str()) {
        Ok(local_email_fallback(instruction))
    } else {
        Ok(clean_model_draft(d.as_str()))
    }
}

} // verus!

verus! {

// ---------------------------------------------------------------------------
// Laws of the draft checks and the local template
// ---------------------------------------------------------------------------

/// A draft that talks about the task instead of being the email is always
/// judged poor: when the lower-cased cleaned draft contains any of the
/// phrases below, the local template is used instead. So is a cleaned
/// draft of more than 1200 bytes or more than 12 lines.
pub proof fn law_task_talk_is_poor(d: Seq<char>)
    ensures
        utf8_len(clean_model_draft_spec(d)) > 1200 ==> fallback_spec(d),
        lines(clean_model_draft_spec(d)).len() > 12 ==> fallback_spec(d),
        ({
            let lower = lowercase(clean_model_draft_spec(d));
            (contains(lower, "return only"@) || contains(lower, "just the"@) || contains(lower, "here is"@)
                || contains(lower, "aqui est"@) || contains(lower, "posso ajudar"@) || contains(
                lower,
                "o que voc"@,
            ) || contains(lower, "greeting"@) || contains(lower, "body:"@) || contains(
                lower,
                "closing:"@,
            ) || contains(lower, "subject:"@) || contains(lower, "instruction:"@) || contains(
                lower,
                "email draft:"@,
            )) ==> fallback_spec(d)
        }),
{
    let m = bad_markers();
    assert(m[0] == "return only"@);
    assert(m[1] == "just the"@);
    assert(m[2] == "here is"@);
    assert(m[3] == "aqui est"@);
    assert(m[4] == "posso ajudar"@);
    assert(m[5] == "o que voc"@);
    assert(m[6] == "greeting"@);
    assert(m[7] == "body:"@);
    assert(m[8] == "closing:"@);
    assert(m[9] == "subject:"@);
    assert(m[10] == "instruction:"@);
    assert(m[11] == "email draft:"@);
}

/// Applying `replace` when the pattern occurs nowhere leaves the text as it is.
proof fn lemma_replace_absent(s: Seq<char>, p: Seq<char>, r: Seq<char>)
    requires
        p.len() > 0,
        forall|i: int| !occurs_at(s, p, i),
    ensures
        replace(s, p, r) == s,
    decreases s.len(),
{
    if s.len() > 0 {
        assert(!occurs_at(s, p, 0));
        assert forall|i: int| !occurs_at(s.drop_first(), p, i) by {
            if occurs_at(s.drop_first(), p, i) {
                assert(s.subrange(i + 1, i + 1 + p.len()) =~= s.drop_first().subrange(i, i + p.len()));
                assert(occurs_at(s, p, i + 1));
            }
        }
        lemma_replace_absent(s.drop_first(), p, r);
        assert(seq![s[0]] + s.drop_first() =~= s);
    }
}

/// Replacing a pattern in the pattern itself gives the replacement.
proof fn lemma_replace_whole(p: Seq<char>, r: Seq<char>)
    requires
        p.len() > 0,
    ensures
        replace(p, p, r) == r,
{
    assert(p.subrange(0, p.len() as int) =~= p);
    assert(starts_with(p, p));
    assert(p.skip(p.len() as int) =~= Seq::<char>::empty());
    assert(replace(p.skip(p.len() as int), p, r) =~= Seq::<char>::empty());
    assert(r + Seq::<char>::empty() =~= r);
}

/// A pattern longer than the text does not occur in it.
proof fn lemma_longer_absent(s: Seq<char>, p: Seq<char>)
    requires
        p.len() > s.len(),
    ensures
        forall|i: int| !occurs_at(s, p, i),
{
}

/// The decimal notation of an hour: one or two digits, none a space, and
/// different hours are written differently.
proof fn lemma_hour_decimal(h: nat, k: nat)
    requires
        1 <= h <= 12,
        1 <= k <= 12,
    ensures
        1 <= decimal(h).len() <= 2,
        forall|j: int| 0 <= j < decimal(h).len() ==> decimal(h)[j] != ' ',
        decimal(h) == decimal(k) ==> h == k,
{
    reveal_with_fuel(decimal, 2);
    assert(decimal(1) == seq![digit(1)]);
    if h >= 10 {
        assert(decimal(h) =~= seq![digit(1), digit((h % 10) as nat)]);
    }
    if k >= 10 {
        assert(decimal(k) =~= seq![digit(1), digit((k % 10) as nat)]);
    }
    assert forall|j: int| 0 <= j < decimal(h).len() implies decimal(h)[j] != ' ' by {
        assert(decimal(h)[j] == digit(1) || decimal(h)[j] == digit((h % 10) as nat));
        assert(' ' as u32 == 32);
    }
    if decimal(h) == decimal(k) {
        if h < 10 && k < 10 {
            assert(decimal(h) =~= seq![digit(h)]);
            assert(decimal(k) =~= seq![digit(k)]);
            assert(decimal(h)[0] == decimal(k)[0]);
            assert(digit(h) == digit(k));
            assert(digit(h) as u32 == digit(k) as u32);
        } else if h >= 10 && k >= 10 {
            assert(decimal(h)[1] == decimal(k)[1]);
            assert(digit((h % 10) as nat) as u32 == digit((k % 10) as nat) as u32);
        }
    }
}

/// The two spellings of "at" and the three parts of the day in a spoken time.
pub open spec fn time_phrase_parts(a: Seq<char>, b: Seq<char>) -> bool {
    &&& a == " às "@ || a == " as "@
    &&& b == " da tarde"@ || b == " da noite"@ || b == " da manhã"@
}

/// In a spoken time `a0 H b0`, no other spoken time `a K b` occurs.
proof fn lemma_no_other_time_phrase(a0: Seq<char>, h: nat, b0: Seq<char>, a: Seq<char>, k: nat, b: Seq<char>)
    requires
        1 <= h <= 12,
        1 <= k <= 12,
        time_phrase_parts(a0, b0),
        time_phrase_parts(a, b),
        !(a == a0 && k == h && b == b0),
    ensures
        forall|i: int| !occurs_at(a0 + decimal(h) + b0, a + decimal(k) + b, i),
{
    reveal_strlit(" às ");
    reveal_strlit(" as ");
    reveal_strlit(" da tarde");
    reveal_strlit(" da noite");
    reveal_strlit(" da manhã");
    lemma_hour_decimal(h, k);
    lemma_hour_decimal(k, h);
    let s = a0 + decimal(h) + b0;
    let p = a + decimal(k) + b;
    let dh = decimal(h).len() as int;
    let dk = decimal(k).len() as int;
    assert(s.len() == 13 + dh);
    assert(p.len() == 13 + dk);
    assert forall|i: int| !occurs_at(s, p, i) by {
        if occurs_at(s, p, i) {
            let w = s.subrange(i, i + p.len());
            assert(w == p);
            if i == 1 {
                assert(w[0] == s[1]);
                assert(p[0] == ' ');
                assert(s[1] == a0[1]);
            } else {
                assert(i == 0);
                if dk < dh {
                    assert(w[4 + dk] == s[4 + dk]);
                    assert(p[4 + dk] == b[0]);
                    assert(s[4 + dk] == decimal(h)[dk]);
                } else {
                    assert(w =~= s);
                    assert(a =~= p.take(4));
                    assert(a0 =~= s.take(4));
                    assert(decimal(k) =~= p.subrange(4, 4 + dk));
                    assert(decimal(h) =~= s.subrange(4, 4 + dh));
                    assert(b =~= p.skip(4 + dk));
                    assert(b0 =~= s.skip(4 + dh));
                }
            }
        }
    }
}

/// The rewrites of an hour `k` other than `h` leave the spoken time `a0 H b0`
/// as it is.
proof fn lemma_other_hour_keeps(a0: Seq<char>, h: nat, b0: Seq<char>, k: nat)
    requires
        1 <= h <= 12,
        1 <= k <= 12,
        k != h,
        time_phrase_parts(a0, b0),
    ensures
        rewrite_hour(a0 + decimal(h) + b0, k) == a0 + decimal(h) + b0,
{
    reveal_strlit(" às ");
    reveal_strlit(" as ");
    reveal_strlit(" da tarde");
    reveal_strlit(" da noite");
    reveal_strlit(" da manhã");
    let s = a0 + decimal(h) + b0;
    lemma_no_other_time_phrase(a0, h, b0, " às "@, k, " da tarde"@);
    lemma_replace_absent(s, " às "@ + decimal(k) + " da tarde"@, at_hour(afternoon_hour(k)));
    lemma_no_other_time_phrase(a0, h, b0, " as "@, k, " da tarde"@);
    lemma_replace_absent(s, " as "@ + decimal(k) + " da tarde"@, at_hour(afternoon_hour(k)));
    lemma_no_other_time_phrase(a0, h, b0, " às "@, k, " da noite"@);
    lemma_replace_absent(s, " às "@ + decimal(k) + " da noite"@, at_hour(night_hour(k)));
    lemma_no_other_time_phrase(a0, h, b0, " as "@, k, " da noite"@);
    lemma_replace_absent(s, " as "@ + decimal(k) + " da noite"@, at_hour(night_hour(k)));
    lemma_no_other_time_phrase(a0, h, b0, " as "@, k, " da manhã"@);
    lemma_replace_absent(s, " as "@ + decimal(k) + " da manhã"@, at_hour(k));
    lemma_no_other_time_phrase(a0, h, b0, " às "@, k, " da manhã"@);
    lemma_replace_absent(s, " às "@ + decimal(k) + " da manhã"@, at_hour(k));
}

/// A written time ` às Hh` is left as it is by every hour's rewrites.
proof fn lemma_written_time_keeps(m: nat, k: nat)
    requires
        m <= 23,
        1 <= k <= 12,
    ensures
        rewrite_hour(at_hour(m), k) == at_hour(m),
{
    reveal_strlit(" às ");
    reveal_strlit(" as ");
    reveal_strlit(" da tarde");
    reveal_strlit(" da noite");
    reveal_strlit(" da manhã");
    reveal_strlit("h");
    reveal_with_fuel(decimal, 3);
    let t = at_hour(m);
    assert(decimal(m).len() <= 2);
    assert(decimal(k).len() >= 1);
    assert(t.len() <= 7);
    lemma_longer_absent(t, " às "@ + decimal(k) + " da tarde"@);
    lemma_replace_absent(t, " às "@ + decimal(k) + " da tarde"@, at_hour(afternoon_hour(k)));
    lemma_longer_absent(t, " as "@ + decimal(k) + " da tarde"@);
    lemma_replace_absent(t, " as "@ + decimal(k) + " da tarde"@, at_hour(afternoon_hour(k)));
    lemma_longer_absent(t, " às "@ + decimal(k) + " da noite"@);
    lemma_replace_absent(t, " às "@ + decimal(k) + " da noite"@, at_hour(night_hour(k)));
    lemma_longer_absent(t, " as "@ + decimal(k) + " da noite"@);
    lemma_replace_absent(t, " as "@ + decimal(k) + " da noite"@, at_hour(night_hour(k)));
    lemma_longer_absent(t, " as "@ + decimal(k) + " da manhã"@);
    lemma_replace_absent(t, " as "@ + decimal(k) + " da manhã"@, at_hour(k));
    lemma_longer_absent(t, " às "@ + decimal(k) + " da manhã"@);
    lemma_replace_absent(t, " às "@ + decimal(k) + " da manhã"@, at_hour(k));
}

/// The two spellings of "at" differ, and so do the three parts of the day.
proof fn lemma_time_parts_differ()
    ensures
        " às "@ != " as "@,
        " da tarde"@ != " da noite"@,
        " da tarde"@ != " da manhã"@,
        " da noite"@ != " da manhã"@,
{
    reveal_strlit(" às ");
    reveal_strlit(" as ");
    reveal_strlit(" da tarde");
    reveal_strlit(" da noite");
    reveal_strlit(" da manhã");
    assert(" às "@[1] != " as "@[1]);
    assert(" da tarde"@[4] != " da noite"@[4]);
    assert(" da tarde"@[4] != " da manhã"@[4]);
    assert(" da noite"@[4] != " da manhã"@[4]);
}

/// One of the six rewrites of hour `h` on the spoken time `a0 H b0`, or on
/// what an earlier rewrite made of it: only the rewrite of `a0 H b0`
/// itself changes it.
proof fn lemma_own_hour_step(
    a0: Seq<char>,
    h: nat,
    b0: Seq<char>,
    m: nat,
    cur: Seq<char>,
    a: Seq<char>,
    b: Seq<char>,
    r: Seq<char>,
)
    requires
        1 <= h <= 12,
        m <= 23,
        time_phrase_parts(a0, b0),
        time_phrase_parts(a, b),
        cur == a0 + decimal(h) + b0 || cur == at_hour(m),
        a == a0 && b == b0 ==> cur == a0 + decimal(h) + b0 && r == at_hour(m),
    ensures
        replace(cur, a + decimal(h) + b, r) == if a == a0 && b == b0 {
            at_hour(m)
        } else {
            cur
        },
{
    reveal_strlit(" às ");
    reveal_strlit(" as ");
    reveal_strlit(" da tarde");
    reveal_strlit(" da noite");
    reveal_strlit(" da manhã");
    let p = a + decimal(h) + b;
    assert(p.len() > 0);
    if a == a0 && b == b0 {
        lemma_replace_whole(p, r);
    } else if cur == a0 + decimal(h) + b0 {
        lemma_no_other_time_phrase(a0, h, b0, a, h, b);
        lemma_replace_absent(cur, p, r);
    } else {
        reveal_strlit("h");
        reveal_with_fuel(decimal, 3);
        lemma_hour_decimal(h, h);
        assert(decimal(m).len() <= 2);
        lemma_longer_absent(cur, p);
        lemma_replace_absent(cur, p, r);
    }
}

/// The rewrites of hour `h` turn the spoken time `a0 H b0` into ` às Mh`,
/// `M` being `h` on the 24-hour clock for the part of the day `b0`.
proof fn lemma_own_hour(a0: Seq<char>, h: nat, b0: Seq<char>, m: nat)
    requires
        1 <= h <= 12,
        time_phrase_parts(a0, b0),
        m == (if b0 == " da tarde"@ {
            afternoon_hour(h)
        } else if b0 == " da noite"@ {
            night_hour(h)
        } else {
            h
        }),
    ensures
        rewrite_hour(a0 + decimal(h) + b0, h) == at_hour(m),
{
    reveal_strlit(" às ");
    reveal_strlit(" as ");
    reveal_strlit(" da tarde");
    reveal_strlit(" da noite");
    reveal_strlit(" da manhã");
    lemma_time_parts_differ();
    let t0 = a0 + decimal(h) + b0;
    let t1 = replace(t0, " às "@ + decimal(h) + " da tarde"@, at_hour(afternoon_hour(h)));
    lemma_own_hour_step(a0, h, b0, m, t0, " às "@, " da tarde"@, at_hour(afternoon_hour(h)));
    let t2 = replace(t1, " as "@ + decimal(h) + " da tarde"@, at_hour(afternoon_hour(h)));
    lemma_own_hour_step(a0, h, b0, m, t1, " as "@, " da tarde"@, at_hour(afternoon_hour(h)));
    let t3 = replace(t2, " às "@ + decimal(h) + " da noite"@, at_hour(night_hour(h)));
    lemma_own_hour_step(a0, h, b0, m, t2, " às "@, " da noite"@, at_hour(night_hour(h)));
    let t4 = replace(t3, " as "@ + decimal(h) + " da noite"@, at_hour(night_hour(h)));
    lemma_own_hour_step(a0, h, b0, m, t3, " as "@, " da noite"@, at_hour(night_hour(h)));
    let t5 = replace(t4, " as "@ + decimal(h) + " da manhã"@, at_hour(h));
    lemma_own_hour_step(a0, h, b0, m, t4, " as "@, " da manhã"@, at_hour(h));
    lemma_own_hour_step(a0, h, b0, m, t5, " às "@, " da manhã"@, at_hour(h));
}

/// Running the rewrites of hours 1 to `n` over the spoken time `a0 H b0`.
proof fn lemma_hours_upto(a0: Seq<char>, h: nat, b0: Seq<char>, m: nat, n: nat)
    requires
        1 <= h <= 12,
        m <= 23,
        n <= 12,
        time_phrase_parts(a0, b0),
        rewrite_hour(a0 + decimal(h) + b0, h) == at_hour(m),
    ensures
        rewrite_hours_upto(a0 + decimal(h) + b0, n) == if n < h {
            a0 + decimal(h) + b0
        } else {
            at_hour(m)
        },
    decreases n,
{
    if n > 0 {
        lemma_hours_upto(a0, h, b0, m, (n - 1) as nat);
        if n < h {
            lemma_other_hour_keeps(a0, h, b0, n);
        } else if n > h {
            lemma_written_time_keeps(m, n);
        }
    }
}

/// Spoken Portuguese times are written on the 24-hour clock: for every
/// hour `H` from 1 to 12, "às H da manhã" (or "as H da manhã") keeps its
/// hour, "da tarde" adds 12 except to 12, and "da noite" adds 12, with 12
/// at night becoming 0; each is written "às Hh".
pub proof fn law_spoken_times_use_the_24_hour_clock(h: nat)
    requires
        1 <= h <= 12,
    ensures
        normalize_times_spec(" às "@ + decimal(h) + " da manhã"@) == " às "@ + decimal(h) + "h"@,
        normalize_times_spec(" as "@ + decimal(h) + " da manhã"@) == " às "@ + decimal(h) + "h"@,
        normalize_times_spec(" às "@ + decimal(h) + " da tarde"@) == " às "@ + decimal(
            if h == 12 { 12 } else { h + 12 },
        ) + "h"@,
        normalize_times_spec(" as "@ + decimal(h) + " da tarde"@) == " às "@ + decimal(
            if h == 12 { 12 } else { h + 12 },
        ) + "h"@,
        normalize_times_spec(" às "@ + decimal(h) + " da noite"@) == " às "@ + decimal(
            if h == 12 { 0 } else { h + 12 },
        ) + "h"@,
        normalize_times_spec(" as "@ + decimal(h) + " da noite"@) == " às "@ + decimal(
            if h == 12 { 0 } else { h + 12 },
        ) + "h"@,
{
    reveal_strlit(" às ");
    reveal_strlit(" as ");
    reveal_strlit(" da tarde");
    reveal_strlit(" da noite");
    reveal_strlit(" da manhã");
    lemma_time_parts_differ();
    let pm: nat = if h == 12 { 12 } else { h + 12 };
    let night: nat = if h == 12 { 0 } else { h + 12 };
    lemma_own_hour(" às "@, h, " da manhã"@, h);
    lemma_hours_upto(" às "@, h, " da manhã"@, h, 12);
    lemma_own_hour(" as "@, h, " da manhã"@, h);
    lemma_hours_upto(" as "@, h, " da manhã"@, h, 12);
    lemma_own_hour(" às "@, h, " da tarde"@, pm);
    lemma_hours_upto(" às "@, h, " da tarde"@, pm, 12);
    lemma_own_hour(" as "@, h, " da tarde"@, pm);
    lemma_hours_upto(" as "@, h, " da tarde"@, pm, 12);
    lemma_own_hour(" às "@, h, " da noite"@, night);
    lemma_hours_upto(" às "@, h, " da noite"@, night, 12);
    lemma_own_hour(" as "@, h, " da noite"@, night);
    lemma_hours_upto(" as "@, h, " da noite"@, night, 12);
}

/// Whether `s` holds no line break.
pub open spec fn single_line(s: Seq<char>) -> bool {
    forall|j: int| 0 <= j < s.len() ==> s[j] != '\n'
}

/// The lines of a text hold no line break.
proof fn lemma_lines_single(s: Seq<char>)
    ensures
        forall|i: int| 0 <= i < lines(s).len() ==> single_line(#[trigger] lines(s)[i]),
    decreases s.len(),
{
    if s.len() > 0 {
        let nl = seq!['\n'];
        crate::text::lemma_find_from_facts(s, nl, 0);
        match find(s, nl) {
            Some(i) => {
                if 0 <= i < s.len() {
                    assert forall|j: int| 0 <= j < i implies s[j] != '\n' by {
                        if s[j] == '\n' {
                            assert(s.subrange(j, j + 1) =~= nl);
                            assert(occurs_at(s, nl, j));
                        }
                    }
                    let first = crate::text::strip_cr(s.take(i));
                    assert(single_line(first));
                    lemma_lines_single(s.skip(i + 1));
                    let rest = lines(s.skip(i + 1));
                    assert(lines(s) == seq![first] + rest);
                    assert forall|k: int| 0 <= k < lines(s).len() implies single_line(
                        #[trigger] lines(s)[k],
                    ) by {
                        if k > 0 {
                            assert(lines(s)[k] == rest[k - 1]);
                        }
                    }
                }
            },
            None => {
                assert forall|j: int| 0 <= j < s.len() implies s[j] != '\n' by {
                    if s[j] == '\n' {
                        assert(s.subrange(j, j + 1) =~= nl);
                        assert(occurs_at(s, nl, j));
                    }
                }
            },
        }
    }
}

/// The lines kept by [`unlabelled_lines`] are lines of their own and none
/// of them is a label.
proof fn lemma_unlabelled_single(ls: Seq<Seq<char>>)
    requires
        forall|i: int| 0 <= i < ls.len() ==> single_line(#[trigger] ls[i]),
    ensures
        forall|i: int|
            0 <= i < unlabelled_lines(ls).len() ==> single_line(#[trigger] unlabelled_lines(ls)[i])
                && !is_label_line(unlabelled_lines(ls)[i]),
    decreases ls.len(),
{
    if ls.len() > 0 {
        lemma_unlabelled_single(ls.drop_last());
        let l = ls.last();
        assert(single_line(l));
        crate::text::lemma_trailing_le(l, CharClass::Whitespace);
        let t = trim_end(l);
        assert forall|j: int| 0 <= j < t.len() implies t[j] != '\n' by {
            assert(t[j] == l[j]);
        }
        let before = unlabelled_lines(ls.drop_last());
        if !is_label_line(t) {
            assert forall|i: int| 0 <= i < unlabelled_lines(ls).len() implies single_line(
                #[trigger] unlabelled_lines(ls)[i],
            ) && !is_label_line(unlabelled_lines(ls)[i]) by {
                if i < before.len() {
                    assert(unlabelled_lines(ls)[i] == before[i]);
                } else {
                    assert(unlabelled_lines(ls)[i] == t);
                }
            }
        }
    }
}

// ---------------------------------------------------------------------------
// Lines of a cleaned draft
// ---------------------------------------------------------------------------

/// Whether every character of `s` is white space.
pub open spec fn all_blank(s: Seq<char>) -> bool {
    forall|k: int| 0 <= k < s.len() ==> crate::text::is_whitespace(#[trigger] s[k])
}

/// White space before a text does not change its trimmed form.
proof fn lemma_trim_blank_prefix(w: Seq<char>, x: Seq<char>)
    requires
        all_blank(w),
    ensures
        trim(w + x) == trim(x),
    decreases w.len(),
{
    let cls = CharClass::Whitespace;
    if w.len() > 0 {
        let s = w + x;
        let rest = w.drop_first() + x;
        assert(s.drop_first() =~= rest);
        assert(crate::text::in_class(cls, s[0]));
        crate::text::lemma_leading_le(rest, cls);
        assert(crate::text::trim_start_class(s, cls) =~= crate::text::trim_start_class(rest, cls));
        lemma_trim_blank_prefix(w.drop_first(), x);
    } else {
        assert(w + x =~= x);
    }
}

/// The count of leading white space of `x + z` when `x` is not all white
/// space, or is.
proof fn lemma_leading_append(x: Seq<char>, c: char)
    ensures
        crate::text::leading(x, CharClass::Whitespace) < x.len() ==> crate::text::leading(
            x.push(c),
            CharClass::Whitespace,
        ) == crate::text::leading(x, CharClass::Whitespace),
        crate::text::leading(x, CharClass::Whitespace) == x.len() && crate::text::is_whitespace(c)
            ==> crate::text::leading(x.push(c), CharClass::Whitespace) == x.len() + 1,
    decreases x.len(),
{
    let cls = CharClass::Whitespace;
    crate::text::lemma_leading_le(x, cls);
    if x.len() > 0 {
        assert(x.push(c).drop_first() =~= x.drop_first().push(c));
        assert(x.push(c)[0] == x[0]);
        lemma_leading_append(x.drop_first(), c);
        if crate::text::in_class(cls, x[0]) {
            assert(crate::text::leading(x, cls) == 1 + crate::text::leading(x.drop_first(), cls));
            assert(crate::text::leading(x.push(c), cls) == 1 + crate::text::leading(
                x.drop_first().push(c),
                cls,
            ));
        } else {
            assert(crate::text::leading(x, cls) == 0);
            assert(crate::text::leading(x.push(c), cls) == 0);
        }
    } else {
        assert(x.push(c).drop_first() =~= Seq::<char>::empty());
        assert(x.push(c)[0] == c);
        assert(crate::text::leading(x, cls) == 0);
        assert(crate::text::leading(x.push(c).drop_first(), cls) == 0);
    }
}

/// White space after a text does not change its trimmed form.
proof fn lemma_trim_blank_char_suffix(x: Seq<char>, c: char)
    requires
        crate::text::is_whitespace(c),
    ensures
        trim(x.push(c)) == trim(x),
{
    let cls = CharClass::Whitespace;
    let lx = crate::text::leading(x, cls);
    crate::text::lemma_leading_le(x, cls);
    lemma_leading_append(x, c);
    if lx < x.len() {
        let y = x.skip(lx as int);
        assert(x.push(c).skip(lx as int) =~= y.push(c));
        assert(y.push(c).drop_last() =~= y);
        crate::text::lemma_trailing_le(y, cls);
        assert(crate::text::trailing(y.push(c), cls) == 1 + crate::text::trailing(y, cls));
        assert(y.push(c).take(y.len() + 1 - 1 - crate::text::trailing(y, cls)) =~= y.take(
            y.len() - crate::text::trailing(y, cls),
        ));
    } else {
        assert(x.push(c).skip(x.len() + 1 as int) =~= Seq::<char>::empty());
        assert(x.skip(x.len() as int) =~= Seq::<char>::empty());
    }
}

/// White space after a text does not change its trimmed form.
proof fn lemma_trim_blank_suffix(x: Seq<char>, w: Seq<char>)
    requires
        all_blank(w),
    ensures
        trim(x + w) == trim(x),
    decreases w.len(),
{
    if w.len() > 0 {
        assert(x + w =~= (x + w.drop_last()).push(w.last()));
        lemma_trim_blank_char_suffix(x + w.drop_last(), w.last());
        lemma_trim_blank_suffix(x, w.drop_last());
    } else {
        assert(x + w =~= x);
    }
}

/// Dropping the carriage return of a `\r\n` line ending does not change the
/// trimmed line.
proof fn lemma_trim_strip_cr(x: Seq<char>)
    ensures
        trim(crate::text::strip_cr(x)) == trim(x),
{
    if x.len() > 0 && x.last() == '\r' {
        assert(x =~= x.drop_last().push('\r'));
        assert(('\r' as u32) == 0x0d);
        lemma_trim_blank_char_suffix(x.drop_last(), '\r');
    }
}

/// The characters `i..j` of `s` form one whole line of it.
pub open spec fn whole_line(s: Seq<char>, i: int, j: int) -> bool {
    &&& 0 <= i <= j <= s.len()
    &&& i == 0 || s[i - 1] == '\n'
    &&& j == s.len() || s[j] == '\n'
    &&& single_line(s.subrange(i, j))
}

/// Each line of `str::lines` trims to what a whole line of the text trims
/// to (the line may have lost the carriage return of a `\r\n` ending).
proof fn lemma_lines_are_whole_lines(s: Seq<char>)
    ensures
        forall|n: int|
            #![trigger lines(s)[n]]
            0 <= n < lines(s).len() ==> exists|i: int, j: int|
                #[trigger] whole_line(s, i, j) && trim(lines(s)[n]) == trim(s.subrange(i, j)),
    decreases s.len(),
{
    if s.len() > 0 {
        let nl = seq!['\n'];
        crate::text::lemma_find_from_facts(s, nl, 0);
        match find(s, nl) {
            Some(i0) => {
                if 0 <= i0 < s.len() {
                    assert forall|j: int| 0 <= j < i0 implies s[j] != '\n' by {
                        if s[j] == '\n' {
                            assert(s.subrange(j, j + 1) =~= nl);
                            assert(occurs_at(s, nl, j));
                        }
                    }
                    assert(s.subrange(i0, i0 + 1) =~= nl);
                    let r = s.skip(i0 + 1);
                    lemma_lines_are_whole_lines(r);
                    let first = crate::text::strip_cr(s.take(i0));
                    assert(lines(s) == seq![first] + lines(r));
                    assert(s.subrange(0, i0) =~= s.take(i0));
                    assert(s.subrange(i0, i0 + 1)[0] == s[i0]);
                    assert(s[i0] == '\n');
                    assert forall|k: int| 0 <= k < i0 implies s.subrange(0, i0)[k] != '\n' by {
                        assert(s.subrange(0, i0)[k] == s[k]);
                    }
                    assert(whole_line(s, 0, i0));
                    assert forall|n: int| #![trigger lines(s)[n]] 0 <= n < lines(s).len() implies exists|i: int, j: int|
                        #[trigger] whole_line(s, i, j) && trim(lines(s)[n]) == trim(s.subrange(i, j)) by {
                        if n == 0 {
                            lemma_trim_strip_cr(s.take(i0));
                            assert(whole_line(s, 0, i0));
                        } else {
                            assert(lines(s)[n] == lines(r)[n - 1]);
                            let (i, j) = choose|i: int, j: int|
                                #[trigger] whole_line(r, i, j) && trim(lines(r)[n - 1])
                                    == trim(r.subrange(i, j));
                            assert(r.subrange(i, j) =~= s.subrange(i + i0 + 1, j + i0 + 1));
                            if i > 0 {
                                assert(s[i + i0] == r[i - 1]);
                            }
                            if j < r.len() {
                                assert(s[j + i0 + 1] == r[j]);
                            }
                            assert(whole_line(s, i + i0 + 1, j + i0 + 1));
                        }
                    }
                }
            },
            None => {
                assert forall|j: int| 0 <= j < s.len() implies s[j] != '\n' by {
                    if s[j] == '\n' {
                        assert(s.subrange(j, j + 1) =~= nl);
                        assert(occurs_at(s, nl, j));
                    }
                }
                assert(s.subrange(0, s.len() as int) =~= s);
                assert(whole_line(s, 0, s.len() as int));
                assert(lines(s) == seq![s]);
            },
        }
    }
}

/// A whole line of parts joined by line breaks is one of the parts, when
/// no part holds a line break.
proof fn lemma_join_whole_line(ks: Seq<Seq<char>>, i: int, j: int)
    requires
        ks.len() >= 1,
        forall|k: int| 0 <= k < ks.len() ==> single_line(#[trigger] ks[k]),
        whole_line(join(ks, "\n"@), i, j),
    ensures
        exists|k: int| 0 <= k < ks.len() && join(ks, "\n"@).subrange(i, j) == #[trigger] ks[k],
    decreases ks.len(),
{
    reveal_strlit("\n");
    let s = join(ks, "\n"@);
    if ks.len() == 1 {
        assert(s == ks[0]);
        assert(single_line(ks[0]));
        if i > 0 {
            assert(s[i - 1] != '\n');
        }
        if j < s.len() {
            assert(s[j] != '\n');
        }
        assert(s.subrange(i, j) =~= ks[0]);
    } else {
        let front = ks.drop_last();
        let p = join(front, "\n"@);
        let last = ks.last();
        assert(single_line(last));
        assert(s == p + "\n"@ + last);
        let n = p.len() as int;
        assert(s[n] == '\n');
        if j <= n {
            assert(s.subrange(i, j) =~= p.subrange(i, j));
            if i > 0 {
                assert(p[i - 1] == s[i - 1]);
            }
            if j < n {
                assert(p[j] == s[j]);
            }
            assert(whole_line(p, i, j));
            assert forall|k: int| 0 <= k < front.len() implies single_line(#[trigger] front[k]) by {
                assert(front[k] == ks[k]);
            }
            lemma_join_whole_line(front, i, j);
            let k = choose|k: int| 0 <= k < front.len() && p.subrange(i, j) == #[trigger] front[k];
            assert(front[k] == ks[k]);
        } else {
            if i <= n {
                assert(s.subrange(i, j)[n - i] == s[n]);
            }
            assert(i >= n + 1);
            if i > n + 1 {
                assert(s[i - 1] == last[i - 1 - n - 1]);
            }
            if j < s.len() {
                assert(s[j] == last[j - n - 1]);
            }
            assert(s.subrange(i, j) =~= last);
            assert(ks[ks.len() - 1] == last);
        }
    }
}

/// Where the line holding position `p` of `s` starts.
pub open spec fn line_start(s: Seq<char>, p: int) -> int
    decreases p,
{
    if p <= 0 {
        0
    } else if s[p - 1] == '\n' {
        p
    } else {
        line_start(s, p - 1)
    }
}

/// Where the line holding position `p` of `s` ends.
pub open spec fn line_end(s: Seq<char>, p: int) -> int
    decreases s.len() - p,
{
    if p >= s.len() {
        s.len() as int
    } else if s[p] == '\n' {
        p
    } else {
        line_end(s, p + 1)
    }
}

proof fn lemma_line_start(s: Seq<char>, p: int)
    requires
        0 <= p <= s.len(),
    ensures
        0 <= line_start(s, p) <= p,
        line_start(s, p) == 0 || s[line_start(s, p) - 1] == '\n',
        forall|k: int| line_start(s, p) <= k < p ==> s[k] != '\n',
    decreases p,
{
    if p > 0 && s[p - 1] != '\n' {
        lemma_line_start(s, p - 1);
    }
}

proof fn lemma_line_end(s: Seq<char>, p: int)
    requires
        0 <= p <= s.len(),
    ensures
        p <= line_end(s, p) <= s.len(),
        line_end(s, p) == s.len() || s[line_end(s, p)] == '\n',
        forall|k: int| p <= k < line_end(s, p) ==> s[k] != '\n',
    decreases s.len() - p,
{
    if p < s.len() && s[p] != '\n' {
        lemma_line_end(s, p + 1);
    }
}

/// The leading white space counted by `leading` is white space.
proof fn lemma_leading_blank(s: Seq<char>)
    ensures
        forall|k: int|
            0 <= k < crate::text::leading(s, CharClass::Whitespace) ==> crate::text::is_whitespace(
                #[trigger] s[k],
            ),
    decreases s.len(),
{
    if s.len() > 0 && crate::text::is_whitespace(s[0]) {
        lemma_leading_blank(s.drop_first());
        crate::text::lemma_leading_le(s.drop_first(), CharClass::Whitespace);
        assert forall|k: int|
            0 <= k < crate::text::leading(s, CharClass::Whitespace) implies crate::text::is_whitespace(
            #[trigger] s[k],
        ) by {
            if k > 0 {
                assert(s[k] == s.drop_first()[k - 1]);
            }
        }
    }
}

/// The trailing white space counted by `trailing` is white space.
proof fn lemma_trailing_blank(s: Seq<char>)
    ensures
        forall|k: int|
            s.len() - crate::text::trailing(s, CharClass::Whitespace) <= k < s.len()
                ==> crate::text::is_whitespace(#[trigger] s[k]),
    decreases s.len(),
{
    if s.len() > 0 && crate::text::is_whitespace(s.last()) {
        lemma_trailing_blank(s.drop_last());
        crate::text::lemma_trailing_le(s.drop_last(), CharClass::Whitespace);
        assert forall|k: int|
            s.len() - crate::text::trailing(s, CharClass::Whitespace) <= k < s.len()
                implies crate::text::is_whitespace(#[trigger] s[k]) by {
            if k < s.len() - 1 {
                assert(s[k] == s.drop_last()[k]);
            }
        }
    }
}

/// A whole line of a trimmed text trims to what a whole line of the text
/// trims to.
proof fn lemma_trim_whole_line(s: Seq<char>, i: int, j: int)
    requires
        whole_line(trim(s), i, j),
    ensures
        exists|i2: int, j2: int|
            #[trigger] whole_line(s, i2, j2) && trim(s.subrange(i2, j2)) == trim(
                trim(s).subrange(i, j),
            ),
{
    let cls = CharClass::Whitespace;
    let a = crate::text::leading(s, cls) as int;
    crate::text::lemma_leading_le(s, cls);
    let u = s.skip(a);
    let t = crate::text::trailing(u, cls) as int;
    crate::text::lemma_trailing_le(u, cls);
    let tt = trim(s);
    let len = u.len() - t;
    assert(tt == u.take(len));
    assert(tt =~= s.subrange(a, a + len));
    lemma_leading_blank(s);
    lemma_trailing_blank(u);
    assert forall|k: int| a + len <= k < s.len() implies crate::text::is_whitespace(#[trigger] s[k]) by {
        assert(s[k] == u[k - a]);
    }
    let i2 = if i > 0 { a + i } else { line_start(s, a) };
    let j2 = if j < len { a + j } else { line_end(s, a + len) };
    lemma_line_start(s, a);
    lemma_line_end(s, a + len);
    let mid = tt.subrange(i, j);
    let w1 = s.subrange(i2, a + i);
    let w2 = s.subrange(a + j, j2);
    assert(s.subrange(i2, j2) =~= w1 + mid + w2);
    assert(all_blank(w1)) by {
        assert forall|k: int| 0 <= k < w1.len() implies crate::text::is_whitespace(#[trigger] w1[k]) by {
            assert(w1[k] == s[i2 + k]);
        }
    }
    assert(all_blank(w2)) by {
        assert forall|k: int| 0 <= k < w2.len() implies crate::text::is_whitespace(#[trigger] w2[k]) by {
            assert(w2[k] == s[a + j + k]);
        }
    }
    lemma_trim_blank_prefix(w1, mid + w2);
    assert(w1 + mid + w2 =~= w1 + (mid + w2));
    lemma_trim_blank_suffix(mid, w2);
    if i > 0 {
        assert(s[i2 - 1] == tt[i - 1]);
    }
    if j < len {
        assert(s[j2] == tt[j]);
    }
    assert forall|k: int| 0 <= k < j2 - i2 implies s.subrange(i2, j2)[k] != '\n' by {
        let q = i2 + k;
        assert(s.subrange(i2, j2)[k] == s[q]);
        if q >= a + i && q < a + j {
            assert(s[q] == mid[q - a - i]);
        }
    }
    assert(whole_line(s, i2, j2));
}

/// No label survives the clean-up of a model's draft: no line of the
/// cleaned draft is, in any letter case and whatever white space surrounds
/// it, one of the labels `email draft:`, `draft:`, `resposta:`, `greeting:`,
/// `body:` or `closing:`.
pub proof fn law_no_line_of_a_cleaned_draft_is_a_label(d: Seq<char>)
    ensures
        forall|n: int|
            0 <= n < lines(clean_model_draft_spec(d)).len() ==> {
                let lower = lowercase(trim(#[trigger] lines(clean_model_draft_spec(d))[n]));
                &&& lower != "email draft:"@
                &&& lower != "draft:"@
                &&& lower != "resposta:"@
                &&& lower != "greeting:"@
                &&& lower != "body:"@
                &&& lower != "closing:"@
            },
{
    let src = lines(trim_class(trim(d), CharClass::Exactly('`')));
    lemma_lines_single(trim_class(trim(d), CharClass::Exactly('`')));
    lemma_unlabelled_single(src);
    let ks = unlabelled_lines(src);
    let joined = join(ks, "\n"@);
    let c = clean_model_draft_spec(d);
    assert(c == trim(joined));
    lemma_lines_are_whole_lines(c);
    assert forall|n: int| 0 <= n < lines(c).len() implies {
        let lower = lowercase(trim(#[trigger] lines(c)[n]));
        &&& lower != "email draft:"@
        &&& lower != "draft:"@
        &&& lower != "resposta:"@
        &&& lower != "greeting:"@
        &&& lower != "body:"@
        &&& lower != "closing:"@
    } by {
        let (i, j) = choose|i: int, j: int|
            #[trigger] whole_line(c, i, j) && trim(lines(c)[n]) == trim(c.subrange(i, j));
        lemma_trim_whole_line(joined, i, j);
        let (i2, j2) = choose|i2: int, j2: int|
            #[trigger] whole_line(joined, i2, j2) && trim(joined.subrange(i2, j2)) == trim(
                c.subrange(i, j),
            );
        if ks.len() == 0 {
            assert(joined.len() == 0);
            assert(c.len() == 0);
            assert(lines(c).len() == 0);
        } else {
            lemma_join_whole_line(ks, i2, j2);
            let k = choose|k: int| 0 <= k < ks.len() && joined.subrange(i2, j2) == #[trigger] ks[k];
            assert(!is_label_line(ks[k]));
            assert(trim(lines(c)[n]) == trim(ks[k]));
        }
    }
}

} // verus!
