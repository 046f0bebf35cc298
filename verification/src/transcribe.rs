//! Transcription: which engine runs, which whisper model file it needs, and
//! how the output of the local whisper run becomes a result.
use vstd::prelude::*;

use crate::draft::{trimmed_nonblank, trimmed_nonblank_lines};
use crate::pattern::{compile, regex_compiles, regex_first_group, replace_matches, replaced};
use crate::text::{
    chars_of, join, join_chars, lines, lines_of, list_contains, listed, owned, push_all, push_str,
    starts_with, string_of, trim, trim_ws,
};

verus! {

/// The local whisper models that can still be selected.
pub const ALLOWED_LOCAL_MODELS: [&'static str; 3] = ["turbo", "large-v3", "base"];

/// What a transcription engine produced.
#[derive(Debug, Clone, PartialEq)]
pub struct TranscriptionResult {
    pub text: String,
    pub language: Option<String>,
    pub duration_ms: u64,
    pub model: String,
}

/// Why a transcription could not run.
#[derive(Debug)]
pub enum TranscribeError {
    /// The settings name a whisper model that is no longer offered.
    ModelRetired(String),
    /// The model file is not where it should be (the path probed).
    ModelFileMissing(String),
    /// The engine failed.
    Engine(String),
}

/// The message of a transcription error.
pub open spec fn transcribe_error_message(e: TranscribeError) -> Seq<char> {
    match e {
        TranscribeError::ModelRetired(m) => "whisper model `"@ + m@
            + "` is retired; please pick turbo, large-v3, or base"@,
        TranscribeError::ModelFileMissing(p) => "whisper model file missing at "@ + p@
            + "; download it from settings"@,
        TranscribeError::Engine(m) => "transcription engine error: "@ + m@,
    }
}

impl TranscribeError {
    /// The error's message (see [`transcribe_error_message`]).
    pub fn to_string(&self) -> (s: String)
        ensures
            s@ == transcribe_error_message(*self),
    {
        let mut v: Vec<char> = Vec::new();
        match self {
            TranscribeError::ModelRetired(m) => {
                push_str(&mut v, "whisper model `");
                push_str(&mut v, m.as_str());
                push_str(&mut v, "` is retired; please pick turbo, large-v3, or base");
            },
            TranscribeError::ModelFileMissing(p) => {
                push_str(&mut v, "whisper model file missing at ");
                push_str(&mut v, p.as_str());
                push_str(&mut v, "; download it from settings");
            },
            TranscribeError::Engine(m) => {
                push_str(&mut v, "transcription engine error: ");
                push_str(&mut v, m.as_str());
            },
        }
        string_of(&v)
    }
}

// ---------------------------------------------------------------------------
// Model files
// ---------------------------------------------------------------------------

/// Names that select the quantised large-v3-turbo model.
pub const TURBO_MODEL_NAMES: [&'static str; 7] = [
    "turbo",
    "large-v3-turbo",
    "ggml-large-v3-turbo",
    "ggml-large-v3-turbo.bin",
    "large-v3-turbo-q5_0",
    "ggml-large-v3-turbo-q5_0",
    "ggml-large-v3-turbo-q5_0.bin",
];

/// Names that select the base model.
pub const BASE_MODEL_NAMES: [&'static str; 3] = ["base", "ggml-base", "ggml-base.bin"];

/// Names that select the large-v3 model.
pub const LARGE_V3_MODEL_NAMES: [&'static str; 3] = [
    "large-v3",
    "ggml-large-v3",
    "ggml-large-v3.bin",
];

/// The file stem (`ggml-<stem>.bin`) of the model that `model` selects.
pub open spec fn model_stem_of(model: Seq<char>) -> Option<Seq<char>> {
    if listed(TURBO_MODEL_NAMES@, model) {
        Some("large-v3-turbo-q5_0"@)
    } else if listed(BASE_MODEL_NAMES@, model) {
        Some("base"@)
    } else if listed(LARGE_V3_MODEL_NAMES@, model) {
        Some("large-v3"@)
    } else {
        None
    }
}

/// The error for a model name that selects no model.
pub open spec fn unsupported_model(model: Seq<char>) -> Seq<char> {
    "unsupported whisper model: "@ + model
}

/// The stem of the model file that `model_size` selects.
pub fn model_stem(model_size: &str) -> (r: Result<&'static str, String>)
    ensures
        match model_stem_of(model_size@) {
            Some(stem) => r is Ok && r->Ok_0@ == stem,
            None => r is Err && r->Err_0@ == unsupported_model(model_size@),
        },
{
    let m = chars_of(model_size);
    if list_contains(&TURBO_MODEL_NAMES, &m) {
        Ok("large-v3-turbo-q5_0")
    } else if list_contains(&BASE_MODEL_NAMES, &m) {
        Ok("base")
    } else if list_contains(&LARGE_V3_MODEL_NAMES, &m) {
        Ok("large-v3")
    } else {
        let mut v: Vec<char> = Vec::new();
        push_str(&mut v, "unsupported whisper model: ");
        push_all(&mut v, &m);
        Err(string_of(&v))
    }
}

/// The file name of the model that `model_size` selects.
pub fn model_filename(model_size: &str) -> (r: Result<String, String>)
    ensures
        match model_stem_of(model_size@) {
            Some(stem) => r is Ok && r->Ok_0@ == "ggml-"@ + stem + ".bin"@,
            None => r is Err && r->Err_0@ == unsupported_model(model_size@),
        },
{
    let stem = model_stem(model_size)?;
    let mut v: Vec<char> = Vec::new();
    push_str(&mut v, "ggml-");
    push_str(&mut v, stem);
    push_str(&mut v, ".bin");
    Ok(string_of(&v))
}

/// A model name selects a model file exactly when it is one of the thirteen
/// listed names; the file is one of the three model files, each a plain
/// file name, and a file name selects its own file again.
pub proof fn law_model_files_select_themselves(model: Seq<char>)
    ensures
        model_stem_of(model) is Some <==> (listed(TURBO_MODEL_NAMES@, model) || listed(
            BASE_MODEL_NAMES@,
            model,
        ) || listed(LARGE_V3_MODEL_NAMES@, model)),
        model_stem_of(model) matches Some(stem) ==> {
            let f = "ggml-"@ + stem + ".bin"@;
            &&& f == "ggml-base.bin"@ || f == "ggml-large-v3.bin"@ || f
                == "ggml-large-v3-turbo-q5_0.bin"@
            &&& !f.contains('/') && !f.contains('\\') && !f.contains(' ')
            &&& model_stem_of(f) == Some(stem)
        },
{
    reveal_strlit("ggml-");
    reveal_strlit(".bin");
    reveal_strlit("base");
    reveal_strlit("large-v3");
    reveal_strlit("large-v3-turbo-q5_0");
    reveal_strlit("ggml-base.bin");
    reveal_strlit("ggml-large-v3.bin");
    reveal_strlit("ggml-large-v3-turbo-q5_0.bin");
    reveal_strlit("turbo");
    reveal_strlit("large-v3-turbo");
    reveal_strlit("ggml-large-v3-turbo");
    reveal_strlit("ggml-large-v3-turbo.bin");
    reveal_strlit("ggml-large-v3-turbo-q5_0");
    reveal_strlit("ggml-base");
    reveal_strlit("ggml-large-v3");
    let fb = "ggml-"@ + "base"@ + ".bin"@;
    let fl = "ggml-"@ + "large-v3"@ + ".bin"@;
    let ft = "ggml-"@ + "large-v3-turbo-q5_0"@ + ".bin"@;
    assert(fb =~= "ggml-base.bin"@);
    assert(fl =~= "ggml-large-v3.bin"@);
    assert(ft =~= "ggml-large-v3-turbo-q5_0.bin"@);
    assert(TURBO_MODEL_NAMES@[6]@ == ft);
    assert(BASE_MODEL_NAMES@[2]@ == fb);
    assert(LARGE_V3_MODEL_NAMES@[2]@ == fl);
    assert forall|i: int| 0 <= i < 7 implies TURBO_MODEL_NAMES@[i]@.len() != 13
        && TURBO_MODEL_NAMES@[i]@.len() != 17 by {}
    assert forall|i: int| 0 <= i < 3 implies BASE_MODEL_NAMES@[i]@.len() != 17 by {}
    assert(!listed(TURBO_MODEL_NAMES@, fb));
    assert(!listed(TURBO_MODEL_NAMES@, fl));
    assert(!listed(BASE_MODEL_NAMES@, fl));
    assert(!fb.contains('/') && !fb.contains('\\') && !fb.contains(' '));
    assert(!fl.contains('/') && !fl.contains('\\') && !fl.contains(' '));
    assert(!ft.contains('/') && !ft.contains('\\') && !ft.contains(' '));
}

/// Where the model that `model_size` selects is downloaded from.
pub fn model_download_url(model_size: &str) -> (r: Result<String, String>)
    ensures
        match model_stem_of(model_size@) {
            Some(stem) => r is Ok && r->Ok_0@
                == "https://huggingface.co/ggerganov/whisper.cpp/resolve/main/ggml-"@ + stem
                + ".bin"@,
            None => r is Err && r->Err_0@ == unsupported_model(model_size@),
        },
{
    let stem = model_stem(model_size)?;
    let mut v: Vec<char> = Vec::new();
    push_str(&mut v, "https://huggingface.co/ggerganov/whisper.cpp/resolve/main/ggml-");
    push_str(&mut v, stem);
    push_str(&mut v, ".bin");
    Ok(string_of(&v))
}

// ---------------------------------------------------------------------------
// Paths (Windows rules: `\` and `/` both separate components)
// ---------------------------------------------------------------------------

/// A path separator.
pub open spec fn is_separator(c: char) -> bool {
    c == '\\' || c == '/'
}

/// Where the last component of `s` starts: just after its last separator.
pub open spec fn last_component_start(s: Seq<char>) -> nat
    decreases s.len(),
{
    if s.len() == 0 {
        0
    } else if is_separator(s.last()) {
        s.len()
    } else {
        last_component_start(s.drop_last())
    }
}

/// The final component of the path `p`, as `Path::file_name` gives it:
/// trailing separators and `.` components are skipped, a drive prefix is
/// not a name, and a path that ends in `..` or has no component has no
/// file name.
pub open spec fn file_name(p: Seq<char>) -> Option<Seq<char>>
    decreases p.len(),
{
    if p.len() == 0 {
        None
    } else if is_separator(p.last()) {
        file_name(p.drop_last())
    } else {
        let start = last_component_start(p) as int;
        let c = if start == 0 && has_drive(p) {
            p.skip(2)
        } else {
            p.skip(start)
        };
        if c.len() == 0 {
            None
        } else if c == seq!['.'] {
            file_name(p.drop_last())
        } else if c == seq!['.', '.'] {
            None
        } else {
            Some(c)
        }
    }
}

/// Where the file name of `p` (see [`file_name`]) starts within `p`: the
/// same walk over trailing separators and `.` components.
pub open spec fn file_name_start(p: Seq<char>) -> int
    decreases p.len(),
{
    if p.len() == 0 {
        0
    } else if is_separator(p.last()) {
        file_name_start(p.drop_last())
    } else {
        let start = last_component_start(p) as int;
        let s = if start == 0 && has_drive(p) {
            2
        } else {
            start
        };
        if p.skip(s) == seq!['.'] {
            file_name_start(p.drop_last())
        } else {
            s
        }
    }
}

/// Whether `p` starts with a drive prefix such as `C:`.
pub open spec fn has_drive(p: Seq<char>) -> bool {
    p.len() >= 2 && p[1] == ':' && crate::text::is_ascii_alphabetic(p[0])
}

/// Where the last `.` of `s` is.
pub open spec fn last_dot(s: Seq<char>) -> Option<int>
    decreases s.len(),
{
    if s.len() == 0 {
        None
    } else if s.last() == '.' {
        Some(s.len() - 1)
    } else {
        last_dot(s.drop_last())
    }
}

/// A file name without its extension, as `Path::file_stem` gives it: the
/// part before the last `.`, unless that part is empty.
pub open spec fn stem(name: Seq<char>) -> Seq<char> {
    match last_dot(name) {
        Some(i) => if i > 0 {
            name.take(i)
        } else {
            name
        },
        None => name,
    }
}

/// `s` with every leading repetition of `p` removed (`trim_start_matches`).
pub open spec fn strip_prefixes(s: Seq<char>, p: Seq<char>) -> Seq<char>
    decreases s.len(),
{
    if p.len() > 0 && starts_with(s, p) {
        strip_prefixes(s.skip(p.len() as int), p)
    } else {
        s
    }
}

/// The label of a model file: its stem without the `ggml-` prefix, or
/// `unknown` when the path has no file name.
pub open spec fn model_label(path: Seq<char>) -> Seq<char> {
    match file_name(path) {
        Some(n) => strip_prefixes(stem(n), "ggml-"@),
        None => "unknown"@,
    }
}

fn separator(c: char) -> (b: bool)
    ensures
        b == is_separator(c),
{
    c == '\\' || c == '/'
}

/// The bounds of the file name of `v` within `v`.
pub(crate) fn file_name_bounds(v: &Vec<char>) -> (r: Option<(usize, usize)>)
    ensures
        match r {
            Some((a, b)) => a <= b <= v.len() && file_name(v@) == Some(v@.subrange(a as int, b as int))
                && a == file_name_start(v@),
            None => file_name(v@) is None,
        },
{
    let mut end: usize = v.len();
    assert(v@.take(end as int) =~= v@);
    loop
        invariant
            end <= v.len(),
            file_name(v@) == file_name(v@.take(end as int)),
            file_name_start(v@) == file_name_start(v@.take(end as int)),
        decreases end,
    {
        if end == 0 {
            assert(v@.take(0) =~= Seq::<char>::empty());
            return None;
        }
        assert(v@.take(end as int).drop_last() =~= v@.take(end - 1));
        if separator(v[end - 1]) {
            end -= 1;
        } else {
            let ghost t = v@.take(end as int);
            let mut s: usize = end - 1;
            while s > 0 && !separator(v[s - 1])
                invariant
                    s < end <= v.len(),
                    t == v@.take(end as int),
                    last_component_start(t) == last_component_start(v@.take(s as int + 1)),
                    !is_separator(v@[s as int]),
                decreases s,
            {
                assert(v@.take(s as int + 1).drop_last() =~= v@.take(s as int));
                s -= 1;
            }
            assert(v@.take(s as int + 1).drop_last() =~= v@.take(s as int));
            proof {
                let t1 = v@.take(s as int + 1);
                assert(t1.drop_last() =~= v@.take(s as int));
                assert(t1.last() == v@[s as int]);
                assert(last_component_start(t1) == last_component_start(v@.take(s as int)));
                if s > 0 {
                    assert(v@.take(s as int).last() == v@[s - 1]);
                    assert(is_separator(v@[s - 1]));
                    assert(last_component_start(v@.take(s as int)) == s);
                } else {
                    assert(v@.take(0) =~= Seq::<char>::empty());
                }
            }
            let drive = s == 0 && end >= 2 && v[1] == ':' && (('a' <= v[0] && v[0] <= 'z') || (
            'A' <= v[0] && v[0] <= 'Z'));
            let s2: usize = if drive {
                2
            } else {
                s
            };
            proof {
                if s == 0 {
                    assert(has_drive(t) == drive);
                }
            }
            assert(t.skip(s2 as int) =~= v@.subrange(s2 as int, end as int));
            if end == s2 {
                assert(v@.subrange(s2 as int, end as int) =~= Seq::<char>::empty());
                return None;
            }
            let s = s2;
            if end - s == 1 && v[s] == '.' {
                assert(v@.subrange(s as int, end as int) =~= seq!['.']);
                end -= 1;
            } else if end - s == 2 && v[s] == '.' && v[s + 1] == '.' {
                assert(v@.subrange(s as int, end as int) =~= seq!['.', '.']);
                return None;
            } else {
                proof {
                    if v@.subrange(s as int, end as int) == seq!['.'] {
                        assert(v@.subrange(s as int, end as int)[0] == v@[s as int]);
                    }
                    if v@.subrange(s as int, end as int) == seq!['.', '.'] {
                        assert(v@.subrange(s as int, end as int)[0] == v@[s as int]);
                        assert(v@.subrange(s as int, end as int)[1] == v@[s + 1]);
                    }
                }
                return Some((s, end));
            }
        }
    }
}

/// The label of the model file at `model_path` (see [`model_label`]).
pub fn model_filename_to_label(model_path: &str) -> (label: String)
    ensures
        label@ == model_label(model_path@),
{
    let v = chars_of(model_path);
    let (a, b) = match file_name_bounds(&v) {
        Some(r) => r,
        None => {
            return owned("unknown");
        },
    };
    let ghost name = v@.subrange(a as int, b as int);
    // The stem: up to the last dot, unless that dot comes first.
    let mut k: usize = b;
    while k > a && v[k - 1] != '.'
        invariant
            a <= k <= b <= v.len(),
            name == v@.subrange(a as int, b as int),
            last_dot(name) == last_dot(v@.subrange(a as int, k as int)),
        decreases k,
    {
        assert(v@.subrange(a as int, k as int).drop_last() =~= v@.subrange(a as int, k - 1));
        k -= 1;
    }
    let stem_end: usize = if k > a && k - a > 1 {
        k - 1
    } else {
        b
    };
    proof {
        if k > a {
            assert(v@.subrange(a as int, k as int).last() == v@[k - 1]);
            assert(last_dot(name) == Some(k - 1 - a));
            if k - a > 1 {
                assert(stem(name) =~= v@.subrange(a as int, stem_end as int));
            }
        } else {
            assert(v@.subrange(a as int, k as int) =~= Seq::<char>::empty());
        }
    }
    assert(stem(name) =~= v@.subrange(a as int, stem_end as int));
    let st = crate::text::copy_range(&v, a, stem_end);
    // Leading `ggml-` prefixes.
    let prefix: Vec<char> = chars_of("ggml-");
    proof {
        reveal_strlit("ggml-");
    }
    let mut i: usize = 0;
    assert(st@.skip(0) =~= st@);
    while st.len() - i >= 5 && crate::text::matches_at(&st, &prefix, i)
        invariant
            i <= st.len(),
            prefix@ == "ggml-"@,
            prefix@.len() == 5,
            strip_prefixes(st@, prefix@) == strip_prefixes(st@.skip(i as int), prefix@),
        decreases st.len() - i,
    {
        assert(st@.skip(i as int).skip(5) =~= st@.skip(i + 5));
        assert(starts_with(st@.skip(i as int), prefix@)) by {
            assert(st@.skip(i as int).take(5) =~= st@.subrange(i as int, i + 5));
        }
        i += 5;
    }
    proof {
        if i + 5 <= st.len() {
            assert(!starts_with(st@.skip(i as int), prefix@)) by {
                assert(st@.skip(i as int).take(5) =~= st@.subrange(i as int, i + 5));
            }
        } else {
            assert(st@.skip(i as int).len() < 5);
        }
    }
    let rest = crate::text::copy_range(&st, i, st.len());
    assert(rest@ =~= st@.skip(i as int));
    string_of(&rest)
}

// ---------------------------------------------------------------------------
// Output of the local whisper run
// ---------------------------------------------------------------------------

/// The timestamps whisper prints before each segment.
pub open spec fn timestamp_pattern() -> Seq<char> {
    "\\[\\d{2}:\\d{2}\\.\\d{3}\\s*-->\\s*\\d{2}:\\d{2}\\.\\d{3}\\]"@
}

/// The transcript read from whisper's console output: timestamps removed,
/// each line trimmed, blank lines dropped, the rest joined by spaces.
pub open spec fn scraped(output: Seq<char>) -> Seq<char> {
    join(trimmed_nonblank(lines(replaced(timestamp_pattern(), output, ""@))), " "@)
}

/// Reads the transcript out of whisper's console output (see [`scraped`]).
pub fn scrape_stdout(stdout: &str) -> (out: String)
    ensures
        out@ == scraped(stdout@),
{
    let cleaned = replace_matches(
        "\\[\\d{2}:\\d{2}\\.\\d{3}\\s*-->\\s*\\d{2}:\\d{2}\\.\\d{3}\\]",
        stdout,
        "",
    );
    let ls = lines_of(&chars_of(cleaned.as_str()));
    let kept = trimmed_nonblank_lines(&ls);
    let sep: Vec<char> = vec![' '];
    assert(sep@ =~= " "@) by {
        reveal_strlit(" ");
    }
    string_of(&join_chars(&kept, &sep))
}

/// The language whisper reports having detected.
pub open spec fn language_pattern() -> Seq<char> {
    "auto-detected language:\\s*([a-z]{2})"@
}

/// The two-letter language code after `auto-detected language:`.
pub open spec fn detected_language(output: Seq<char>) -> Option<Seq<char>> {
    if regex_compiles(language_pattern()) {
        regex_first_group(language_pattern(), output)
    } else {
        None
    }
}

/// Finds the language whisper reports (see [`detected_language`]).
pub fn detect_language(output: &str) -> (r: Option<String>)
    ensures
        match r {
            Some(l) => detected_language(output@) == Some(l@),
            None => detected_language(output@) is None,
        },
{
    match compile("auto-detected language:\\s*([a-z]{2})") {
        Some(p) => p.first_group(output),
        None => None,
    }
}

/// The result of a local whisper run: the transcript from the side-car
/// file when whisper wrote one, else from its console output; trimmed.
pub fn local_transcription_result(
    sidecar: Option<String>,
    output: &str,
    elapsed_ms: u64,
    model_path: &str,
) -> (r: TranscriptionResult)
    ensures
        r.text@ == trim(
            match sidecar {
                Some(s) => s@,
                None => scraped(output@),
            },
        ),
        match r.language {
            Some(l) => detected_language(output@) == Some(l@),
            None => detected_language(output@) is None,
        },
        r.duration_ms == elapsed_ms,
        r.model@ == model_label(model_path@),
{
    let raw = match sidecar {
        Some(s) => s,
        None => scrape_stdout(output),
    };
    let text = string_of(&trim_ws(&chars_of(raw.as_str())));
    TranscriptionResult {
        text,
        language: detect_language(output),
        duration_ms: elapsed_ms,
        model: model_filename_to_label(model_path),
    }
}

// ---------------------------------------------------------------------------
// Engine selection
// ---------------------------------------------------------------------------

/// The engine run that the settings call for.
#[derive(Debug, Clone, PartialEq)]
pub enum DispatchPlan {
    /// Run whisper locally with the model file of this name.
    Local { model_file: String },
    /// Send the audio to Groq with this key.
    Cloud { key: String },
}

/// Which engine run the settings select, or why none can run: a retired
/// local model, a missing Groq key, an unknown engine.
pub fn plan_dispatch(engine: &str, whisper_model: &str, groq_key: Option<&str>) -> (r: Result<
    DispatchPlan,
    TranscribeError,
>)
    ensures
        engine@ == "local"@ ==> (if listed(ALLOWED_LOCAL_MODELS@, whisper_model@) {
            r matches Ok(DispatchPlan::Local { model_file }) && model_stem_of(whisper_model@)
                is Some && model_file@ == "ggml-"@ + model_stem_of(whisper_model@)->Some_0
                + ".bin"@
        } else {
            r matches Err(TranscribeError::ModelRetired(m)) && m@ == whisper_model@
        }),
        (engine@ == "cloud"@ || engine@ == "groq"@) ==> (match groq_key {
            Some(k) if k@.len() > 0 => r matches Ok(DispatchPlan::Cloud { key }) && key@ == k@,
            _ => r matches Err(TranscribeError::Engine(m)) && m@ == "groq key missing"@,
        }),
        (engine@ != "local"@ && engine@ != "cloud"@ && engine@ != "groq"@) ==> (r matches Err(
            TranscribeError::Engine(m),
        ) && m@ == "unknown engine: "@ + engine@),
{
    proof {
        reveal_strlit("local");
        reveal_strlit("cloud");
        reveal_strlit("groq");
        assert("local"@ != "cloud"@) by {
            assert("local"@[0] != "cloud"@[0]);
        }
        assert("local"@.len() != "groq"@.len());
        assert("cloud"@.len() != "groq"@.len());
    }
    let e = chars_of(engine);
    if crate::text::eq_str(&e, "local") {
        let m = chars_of(whisper_model);
        if !list_contains(&ALLOWED_LOCAL_MODELS, &m) {
            return Err(TranscribeError::ModelRetired(owned(whisper_model)));
        }
        proof {
            let i = choose|i: int| 0 <= i < 3 && ALLOWED_LOCAL_MODELS@[i]@ == m@;
            if i == 0 {
                assert(TURBO_MODEL_NAMES@[0]@ == m@);
            } else if i == 1 {
                assert(LARGE_V3_MODEL_NAMES@[0]@ == m@);
            } else {
                assert(BASE_MODEL_NAMES@[0]@ == m@);
            }
        }
        match model_filename(whisper_model) {
            Ok(f) => Ok(DispatchPlan::Local { model_file: f }),
            Err(e) => Err(TranscribeError::Engine(e)),
        }
    } else if crate::text::eq_str(&e, "cloud") || crate::text::eq_str(&e, "groq") {
        match groq_key {
            Some(k) => {
                let kv = chars_of(k);
                if kv.len() > 0 {
                    Ok(DispatchPlan::Cloud { key: owned(k) })
                } else {
                    Err(TranscribeError::Engine(owned("groq key missing")))
                }
            },
            None => Err(TranscribeError::Engine(owned("groq key missing"))),
        }
    } else {
        let mut v: Vec<char> = Vec::new();
        push_str(&mut v, "unknown engine: ");
        push_all(&mut v, &e);
        Err(TranscribeError::Engine(string_of(&v)))
    }
}

} // verus!
