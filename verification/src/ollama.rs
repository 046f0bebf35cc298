//! The local Ollama runtime: where its executable may be, what to report
//! when it cannot be started, whether a model is installed, and how its
//! streamed download progress is read.
use vstd::prelude::*;

use crate::draft::{
    bonsai_model, bonsai_spec, normalize_groq_draft_model, normalize_ollama_draft_model,
    ollama_matches_spec, ollama_model_matches, ollama_runtime_model, runtime_model_spec,
    unsupported_model_message, BonsaiModel, ALLOWED_GROQ_DRAFT_MODELS, ALLOWED_OLLAMA_DRAFT_MODELS,
};
use crate::text::{
    chars_of, eq_chars, eq_str, find, find_chars, listed, owned, push_all, push_str, string_of,
    trim, trim_ws, lemma_find_from_facts,
};
use crate::transcribe::is_separator;

verus! {

// ---------------------------------------------------------------------------
// Where the executable may be
// ---------------------------------------------------------------------------

/// `base` joined with the relative path `rel` (Windows rules): a
/// backslash goes between them unless `base` is empty or already ends
/// with a separator.
pub open spec fn joined(base: Seq<char>, rel: Seq<char>) -> Seq<char> {
    if base.len() == 0 {
        rel
    } else if is_separator(base.last()) {
        base + rel
    } else {
        base + seq!['\\'] + rel
    }
}

/// Joins `base` and the relative path `rel` (see [`joined`]).
pub fn join_path(base: &str, rel: &str) -> (p: String)
    ensures
        p@ == joined(base@, rel@),
{
    let mut v = chars_of(base);
    let n = v.len();
    if n > 0 && !(v[n - 1] == '\\' || v[n - 1] == '/') {
        v.push('\\');
    }
    push_str(&mut v, rel);
    let p = string_of(&v);
    proof {
        if base@.len() > 0 && !is_separator(base@.last()) {
            assert(p@ =~= joined(base@, rel@));
        } else {
            assert(p@ =~= joined(base@, rel@));
        }
    }
    p
}

/// The install locations of the Ollama executable that the setup wizard
/// probes, from the `LOCALAPPDATA`, `ProgramFiles` and `ProgramFiles(x86)`
/// directories when they are known.
pub fn ollama_candidate_paths(
    local_app_data: Option<&str>,
    program_files: Option<&str>,
    program_files_x86: Option<&str>,
) -> (out: Vec<String>)
    ensures
        out@.map_values(|p: String| p@) == (match local_app_data {
            Some(d) => seq![joined(d@, "Programs/Ollama/ollama.exe"@)],
            None => Seq::<Seq<char>>::empty(),
        }) + (match program_files {
            Some(d) => seq![joined(d@, "Ollama/ollama.exe"@)],
            None => Seq::<Seq<char>>::empty(),
        }) + (match program_files_x86 {
            Some(d) => seq![joined(d@, "Ollama/ollama.exe"@)],
            None => Seq::<Seq<char>>::empty(),
        }),
{
    let mut out: Vec<String> = Vec::new();
    if let Some(d) = local_app_data {
        out.push(join_path(d, "Programs/Ollama/ollama.exe"));
    }
    let ghost a = out@.map_values(|p: String| p@);
    if let Some(d) = program_files {
        out.push(join_path(d, "Ollama/ollama.exe"));
    }
    let ghost b = out@.map_values(|p: String| p@);
    if let Some(d) = program_files_x86 {
        out.push(join_path(d, "Ollama/ollama.exe"));
    }
    proof {
        let l = match local_app_data {
            Some(d) => seq![joined(d@, "Programs/Ollama/ollama.exe"@)],
            None => Seq::<Seq<char>>::empty(),
        };
        let m = match program_files {
            Some(d) => seq![joined(d@, "Ollama/ollama.exe"@)],
            None => Seq::<Seq<char>>::empty(),
        };
        let r = match program_files_x86 {
            Some(d) => seq![joined(d@, "Ollama/ollama.exe"@)],
            None => Seq::<Seq<char>>::empty(),
        };
        assert(a =~= l);
        assert(b =~= l + m);
        assert(out@.map_values(|p: String| p@) =~= l + m + r);
    }
    out
}

/// The executables the drafter tries to start Ollama with: `ollama` on the
/// search path, then the per-user and machine-wide install locations when
/// `LOCALAPPDATA` and `ProgramFiles` are known.
pub fn ollama_executable_candidates(local_app_data: Option<&str>, program_files: Option<&str>) -> (out:
    Vec<String>)
    ensures
        out@.map_values(|p: String| p@) == seq!["ollama"@] + (match local_app_data {
            Some(d) => seq![joined(d@, "Programs\\Ollama\\ollama.exe"@)],
            None => Seq::<Seq<char>>::empty(),
        }) + (match program_files {
            Some(d) => seq![joined(d@, "Ollama\\ollama.exe"@)],
            None => Seq::<Seq<char>>::empty(),
        }),
{
    let mut out: Vec<String> = vec![owned("ollama")];
    let ghost a = out@.map_values(|p: String| p@);
    if let Some(d) = local_app_data {
        out.push(join_path(d, "Programs\\Ollama\\ollama.exe"));
    }
    let ghost b = out@.map_values(|p: String| p@);
    if let Some(d) = program_files {
        out.push(join_path(d, "Ollama\\ollama.exe"));
    }
    proof {
        let l = match local_app_data {
            Some(d) => seq![joined(d@, "Programs\\Ollama\\ollama.exe"@)],
            None => Seq::<Seq<char>>::empty(),
        };
        let m = match program_files {
            Some(d) => seq![joined(d@, "Ollama\\ollama.exe"@)],
            None => Seq::<Seq<char>>::empty(),
        };
        assert(a =~= seq!["ollama"@]);
        assert(b =~= seq!["ollama"@] + l);
        assert(out@.map_values(|p: String| p@) =~= seq!["ollama"@] + l + m);
    }
    out
}

/// What to report when Ollama could not be brought up: an executable
/// started but never listened, or none could be started (with the last
/// start error, if there was one).
pub open spec fn start_failure_message(spawned: bool, last_error: Seq<char>) -> Seq<char> {
    if spawned {
        "Ollama was found, but it did not start listening on localhost:11434. Open Ollama manually and retry."@
    } else {
        "Ollama is required for local email drafts but is not installed or not on PATH. Install it from https://ollama.com/download, open it once, then retry."@
            + if last_error.len() == 0 {
            Seq::<char>::empty()
        } else {
            " Last error: "@ + last_error
        }
    }
}

/// Builds [`start_failure_message`].
pub fn ollama_start_failure(spawned: bool, last_error: &str) -> (m: String)
    ensures
        m@ == start_failure_message(spawned, last_error@),
{
    if spawned {
        return owned(
            "Ollama was found, but it did not start listening on localhost:11434. Open Ollama manually and retry.",
        );
    }
    let mut v: Vec<char> = Vec::new();
    push_str(
        &mut v,
        "Ollama is required for local email drafts but is not installed or not on PATH. Install it from https://ollama.com/download, open it once, then retry.",
    );
    let e = chars_of(last_error);
    if e.len() > 0 {
        push_str(&mut v, " Last error: ");
        push_all(&mut v, &e);
    }
    let m = string_of(&v);
    proof {
        if e.len() == 0 {
            assert(m@ =~= start_failure_message(spawned, last_error@));
        }
    }
    m
}

// ---------------------------------------------------------------------------
// Checking a model
// ---------------------------------------------------------------------------

/// How a model check proceeds.
#[derive(Debug)]
pub enum CheckPlan {
    /// List Groq's models with the key and look for `model`.
    Groq { model: String },
    /// Make sure Ollama runs, list its models, look for `model`, then try
    /// it; `bonsai` is set for a Bonsai model.
    Ollama { model: String, bonsai: Option<BonsaiModel> },
}

/// Plans checking that a drafting model is usable; refuses an unknown
/// engine or model, and a Groq check without a key.
pub fn check_plan(api_key: &str, engine: &str, model: &str) -> (r: Result<CheckPlan, String>)
    ensures
        engine@ == "groq"@ ==> if trim(api_key@).len() == 0 {
            r matches Err(m) && m@ == crate::draft::missing_groq_key_message()
        } else if listed(ALLOWED_GROQ_DRAFT_MODELS@, trim(model@)) {
            r matches Ok(CheckPlan::Groq { model: m }) && m@ == trim(model@)
        } else {
            r matches Err(m) && m@ == unsupported_model_message("Groq"@, trim(model@))
        },
        engine@ == "ollama"@ ==> if listed(ALLOWED_OLLAMA_DRAFT_MODELS@, trim(model@)) {
            r matches Ok(CheckPlan::Ollama { model: m, bonsai }) && m@ == runtime_model_spec(
                trim(model@),
            ) && bonsai == bonsai_spec(model@)
        } else {
            r matches Err(m) && m@ == unsupported_model_message("Ollama"@, trim(model@))
        },
        engine@ != "groq"@ && engine@ != "ollama"@ ==> (r matches Err(m) && m@
            == crate::draft::unsupported_engine_message(engine@)),
{
    proof {
        reveal_strlit("groq");
        reveal_strlit("ollama");
        assert("groq"@.len() != "ollama"@.len());
    }
    let e = chars_of(engine);
    if eq_str(&e, "groq") {
        if trim_ws(&chars_of(api_key)).len() == 0 {
            return Err(owned("Groq API key not set. Add it in Settings > Transcription."));
        }
        let m = normalize_groq_draft_model(model)?;
        Ok(CheckPlan::Groq { model: m })
    } else if eq_str(&e, "ollama") {
        let bonsai = bonsai_model(model);
        let m = ollama_runtime_model(model)?;
        Ok(CheckPlan::Ollama { model: m, bonsai })
    } else {
        let mut v: Vec<char> = Vec::new();
        push_str(&mut v, "Unsupported email draft engine `");
        push_all(&mut v, &e);
        push_str(&mut v, "`.");
        Err(string_of(&v))
    }
}

/// Whether `model` is among the model ids Groq listed.
pub fn groq_models_check(ids: &[String], model: &str) -> (r: Result<(), String>)
    ensures
        (exists|i: int| 0 <= i < ids@.len() && ids@[i]@ == model@) ==> r is Ok,
        !(exists|i: int| 0 <= i < ids@.len() && ids@[i]@ == model@) ==> (r matches Err(m) && m@
            == "Groq model `"@ + model@ + "` is not available for this API key."@),
{
    let m = chars_of(model);
    let mut i: usize = 0;
    while i < ids.len()
        invariant
            i <= ids.len(),
            m@ == model@,
            forall|j: int| 0 <= j < i ==> ids@[j]@ != model@,
        decreases ids.len() - i,
    {
        if eq_str(&m, ids[i].as_str()) {
            return Ok(());
        }
        i += 1;
    }
    let mut v: Vec<char> = Vec::new();
    push_str(&mut v, "Groq model `");
    push_all(&mut v, &m);
    push_str(&mut v, "` is not available for this API key.");
    Err(string_of(&v))
}

/// A model in Ollama's list; either name may be missing.
#[derive(Debug, Clone, PartialEq)]
pub struct OllamaTag {
    pub name: Option<String>,
    pub model: Option<String>,
}

/// Whether the listed tag `t` is the model `model`.
pub open spec fn tag_matches(t: OllamaTag, model: Seq<char>) -> bool {
    (t.name matches Some(n) && ollama_matches_spec(n@, model))
        || (t.model matches Some(n) && ollama_matches_spec(n@, model))
}

/// Whether Ollama lists `model` as installed.
pub fn ollama_tags_check(tags: &[OllamaTag], model: &str) -> (r: Result<(), String>)
    ensures
        (exists|i: int| 0 <= i < tags@.len() && tag_matches(tags@[i], model@)) ==> r is Ok,
        !(exists|i: int| 0 <= i < tags@.len() && tag_matches(tags@[i], model@)) ==> (r matches Err(
            m,
        ) && m@ == "Ollama model `"@ + model@ + "` is not downloaded."@),
{
    let mut i: usize = 0;
    while i < tags.len()
        invariant
            i <= tags.len(),
            forall|j: int| 0 <= j < i ==> !tag_matches(#[trigger] tags@[j], model@),
        decreases tags.len() - i,
    {
        let t = &tags[i];
        let by_name = match &t.name {
            Some(n) => ollama_model_matches(n.as_str(), model),
            None => false,
        };
        let by_model = match &t.model {
            Some(n) => ollama_model_matches(n.as_str(), model),
            None => false,
        };
        if by_name || by_model {
            assert(tag_matches(tags@[i as int], model@));
            return Ok(());
        }
        i += 1;
    }
    let mut v: Vec<char> = Vec::new();
    push_str(&mut v, "Ollama model `");
    push_str(&mut v, model);
    push_str(&mut v, "` is not downloaded.");
    Err(string_of(&v))
}

/// What to report when an installed model failed its generation test.
pub open spec fn smoke_failure_message(bonsai: Option<BonsaiModel>, model: Seq<char>, error: Seq<
    char,
>) -> Seq<char> {
    match bonsai {
        Some(b) => "Bonsai model `"@ + b.ollama_name@
            + "` is installed but cannot run. Restart Ollama/Veyra and retry; Bonsai needs Ollama's new runner: "@
            + error,
        None => "Ollama model `"@ + model + "` is installed but did not pass a generation test: "@
            + error,
    }
}

/// Builds [`smoke_failure_message`].
pub fn smoke_test_failure(bonsai: Option<BonsaiModel>, model: &str, error: &str) -> (m: String)
    ensures
        m@ == smoke_failure_message(bonsai, model@, error@),
{
    let mut v: Vec<char> = Vec::new();
    match bonsai {
        Some(b) => {
            push_str(&mut v, "Bonsai model `");
            push_str(&mut v, b.ollama_name);
            push_str(
                &mut v,
                "` is installed but cannot run. Restart Ollama/Veyra and retry; Bonsai needs Ollama's new runner: ",
            );
        },
        None => {
            push_str(&mut v, "Ollama model `");
            push_str(&mut v, model);
            push_str(&mut v, "` is installed but did not pass a generation test: ");
        },
    }
    push_str(&mut v, error);
    string_of(&v)
}

// ---------------------------------------------------------------------------
// Downloading a model
// ---------------------------------------------------------------------------

/// What downloading a drafting model takes.
#[derive(Debug)]
pub enum ModelFetch {
    /// Nothing: cloud models need no download.
    Nothing,
    /// Fetch the Bonsai GGUF and register it with Ollama.
    Bonsai(BonsaiModel),
    /// Have Ollama pull this model.
    Pull(String),
}

/// Plans downloading a drafting model; refuses an unknown engine or an
/// unknown Ollama model.
pub fn download_plan(engine: &str, model: &str) -> (r: Result<ModelFetch, String>)
    ensures
        engine@ == "groq"@ ==> (r matches Ok(ModelFetch::Nothing)),
        engine@ == "ollama"@ ==> if !listed(ALLOWED_OLLAMA_DRAFT_MODELS@, trim(model@)) {
            r matches Err(m) && m@ == unsupported_model_message("Ollama"@, trim(model@))
        } else if bonsai_spec(trim(model@)) is Some {
            r matches Ok(ModelFetch::Bonsai(b)) && Some(b) == bonsai_spec(trim(model@))
        } else {
            r matches Ok(ModelFetch::Pull(m)) && m@ == trim(model@)
        },
        engine@ != "groq"@ && engine@ != "ollama"@ ==> (r matches Err(m) && m@
            == crate::draft::unsupported_engine_message(engine@)),
{
    proof {
        reveal_strlit("groq");
        reveal_strlit("ollama");
        assert("groq"@.len() != "ollama"@.len());
    }
    let e = chars_of(engine);
    if eq_str(&e, "groq") {
        Ok(ModelFetch::Nothing)
    } else if eq_str(&e, "ollama") {
        let m = normalize_ollama_draft_model(model)?;
        match bonsai_model(m.as_str()) {
            Some(b) => Ok(ModelFetch::Bonsai(b)),
            None => Ok(ModelFetch::Pull(m)),
        }
    } else {
        let mut v: Vec<char> = Vec::new();
        push_str(&mut v, "Unsupported email draft engine `");
        push_all(&mut v, &e);
        push_str(&mut v, "`.");
        Err(string_of(&v))
    }
}

/// The complete lines of `s` before its last newline, trimmed, blank ones
/// left out, and what follows that newline.
pub open spec fn complete_lines(s: Seq<char>) -> (Seq<Seq<char>>, Seq<char>)
    decreases s.len(),
{
    match find(s, seq!['\n']) {
        None => (Seq::empty(), s),
        Some(i) => {
            proof {
                crate::text::lemma_find_from_facts(s, seq!['\n'], 0);
            }
            let line = trim(s.take(i));
            let rest = complete_lines(s.skip(i + 1));
            if line.len() == 0 {
                rest
            } else {
                (seq![line] + rest.0, rest.1)
            }
        },
    }
}

/// Newline-delimited progress records arriving in pieces.
#[derive(Debug)]
pub struct PullLines {
    buffer: Vec<char>,
}

impl PullLines {
    /// What has arrived and is not a complete line yet.
    pub closed spec fn pending(&self) -> Seq<char> {
        self.buffer@
    }

    /// Nothing received yet.
    pub fn new() -> (p: Self)
        ensures
            p.pending() == Seq::<char>::empty(),
    {
        PullLines { buffer: Vec::new() }
    }

    /// Takes in a piece of the stream and hands out the records it
    /// completes: trimmed, blank ones left out.
    pub fn push_chunk(&mut self, chunk: &str) -> (lines: Vec<String>)
        ensures
            lines@.map_values(|l: String| l@) == complete_lines(old(self).pending() + chunk@).0,
            final(self).pending() == complete_lines(old(self).pending() + chunk@).1,
    {
        let mut s: Vec<char> = Vec::new();
        push_all(&mut s, &self.buffer);
        push_str(&mut s, chunk);
        let ghost all = s@;
        assert(all =~= old(self).pending() + chunk@);
        let mut out: Vec<String> = Vec::new();
        let nl: Vec<char> = vec!['\n'];
        loop
            invariant
                nl@ == seq!['\n'],
                all == old(self).pending() + chunk@,
                out@.map_values(|l: String| l@) + complete_lines(s@).0 == complete_lines(all).0,
                complete_lines(s@).1 == complete_lines(all).1,
            decreases s@.len(),
        {
            match find_chars(&s, &nl) {
                None => {
                    assert(complete_lines(s@).0 =~= Seq::<Seq<char>>::empty());
                    assert(out@.map_values(|l: String| l@) =~= complete_lines(all).0);
                    self.buffer = s;
                    return out;
                },
                Some(i) => {
                    let line = trim_ws(&crate::text::copy_range(&s, 0, i));
                    let rest = crate::text::copy_range(&s, i + 1, s.len());
                    assert(line@ == trim(s@.take(i as int))) by {
                        assert(s@.subrange(0, i as int) =~= s@.take(i as int));
                    }
                    assert(rest@ =~= s@.skip(i + 1));
                    let ghost before = out@;
                    if line.len() > 0 {
                        out.push(string_of(&line));
                        assert(out@.map_values(|l: String| l@) =~= before.map_values(
                            |l: String| l@,
                        ).push(line@));
                        assert(out@.map_values(|l: String| l@) + complete_lines(rest@).0
                            =~= before.map_values(|l: String| l@) + complete_lines(s@).0);
                    }
                    s = rest;
                },
            }
        }
    }

    /// What is left once the stream ended: the last record, trimmed,
    /// when it is not blank.
    pub fn finish(&self) -> (r: Option<String>)
        ensures
            trim(self.pending()).len() == 0 ==> r is None,
            trim(self.pending()).len() > 0 ==> (r matches Some(l) && l@ == trim(self.pending())),
    {
        let t = trim_ws(&self.buffer);
        if t.len() == 0 {
            None
        } else {
            Some(string_of(&t))
        }
    }
}

/// The status a progress record shows, and the status remembered for the
/// next record: a record without status repeats the last one; an empty
/// status shows as `Downloading` and is not remembered.
pub fn pull_status(status: Option<String>, last: &str) -> (r: (String, String))
    ensures
        ({
            let s = match status {
                Some(x) => x@,
                None => last@,
            };
            &&& r.0@ == (if s.len() == 0 {
                "Downloading"@
            } else {
                s
            })
            &&& r.1@ == (if s.len() == 0 {
                last@
            } else {
                s
            })
        }),
{
    let s = match status {
        Some(x) => x,
        None => owned(last),
    };
    let sv = chars_of(s.as_str());
    if sv.len() == 0 {
        (owned("Downloading"), owned(last))
    } else {
        (owned(s.as_str()), s)
    }
}

/// The status of the last progress record: `success` when it has none.
pub fn final_pull_status(status: Option<String>) -> (s: String)
    ensures
        match status {
            Some(x) => s@ == x@,
            None => s@ == "success"@,
        },
{
    match status {
        Some(x) => x,
        None => owned("success"),
    }
}

// ---------------------------------------------------------------------------
// Installing the runtime (Windows)
// ---------------------------------------------------------------------------

/// An installer file smaller than this is not a real installer.
pub const MIN_INSTALLER_BYTES: u64 = 1_000_000;

/// Whether a cached installer of `len` bytes can be used.
pub fn installer_usable(len: Option<u64>) -> (b: bool)
    ensures
        b == (len matches Some(n) && n > MIN_INSTALLER_BYTES),
{
    match len {
        Some(n) => n > MIN_INSTALLER_BYTES,
        None => false,
    }
}

/// Whether a freshly downloaded installer of `len` bytes is large enough
/// to be the real one.
pub fn installer_download_ok(len: u64) -> (b: bool)
    ensures
        b == (len >= MIN_INSTALLER_BYTES),
{
    len >= MIN_INSTALLER_BYTES
}

/// What to do while the silent installer runs.
#[derive(Debug, Clone, Copy, PartialEq, Eq)]
pub enum InstallerPoll {
    /// The runtime is there, or the installer is left to finish in the
    /// background: report success.
    Done,
    /// The installer quit without installing: start the interactive one.
    LaunchInteractive,
    /// Poll again later.
    Wait,
}

/// One poll of the silent installer: installed wins; an installer that
/// quit without installing hands over to the interactive one; past the
/// deadline the wizard keeps polling on its own.
pub fn installer_poll(installed: bool, exited: bool, past_deadline: bool) -> (p: InstallerPoll)
    ensures
        installed ==> p == InstallerPoll::Done,
        !installed && exited ==> p == InstallerPoll::LaunchInteractive,
        !installed && !exited && past_deadline ==> p == InstallerPoll::Done,
        !installed && !exited && !past_deadline ==> p == InstallerPoll::Wait,
{
    if installed {
        InstallerPoll::Done
    } else if exited {
        InstallerPoll::LaunchInteractive
    } else if past_deadline {
        InstallerPoll::Done
    } else {
        InstallerPoll::Wait
    }
}

} // verus!
