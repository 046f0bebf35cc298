//! Downloading model files: where the partial file goes, when a download
//! stops, and when a finished one is accepted. The network and the disk
//! are outside; each step here decides from what they reported.
use vstd::prelude::*;

use crate::draft::{compact_cut_ok, compact_spec, compact_command_output, system_prompt, system_prompt_spec, BonsaiModel};
use crate::text::{chars_of, decimal, decimal_chars, owned, push_all, push_str, string_of};
use crate::transcribe::{file_name, file_name_bounds, file_name_start};

verus! {

/// The partial file of a download into `dest`: the same directory, the
/// file name with `.part` appended.
pub open spec fn temp_path(dest: Seq<char>) -> Seq<char> {
    dest.take(file_name_start(dest)) + file_name(dest)->Some_0 + ".part"@
}

/// Where a download into `dest` is written until it is complete; an
/// error when `dest` has no file name.
pub fn temp_path_for(dest: &str) -> (r: Result<String, String>)
    ensures
        file_name(dest@) is None ==> (r matches Err(m) && m@
            == "model destination has no file name"@),
        file_name(dest@) is Some ==> (r matches Ok(p) && p@ == temp_path(dest@)),
{
    let v = chars_of(dest);
    match file_name_bounds(&v) {
        None => Err(owned("model destination has no file name")),
        Some((a, b)) => {
            let mut p = crate::text::copy_range(&v, 0, a);
            let name = crate::text::copy_range(&v, a, b);
            push_all(&mut p, &name);
            push_str(&mut p, ".part");
            let out = string_of(&p);
            proof {
                assert(v@.subrange(0, a as int) =~= v@.take(a as int));
                assert(out@ =~= temp_path(dest@));
            }
            Ok(out)
        },
    }
}

/// The error of a cancelled download.
pub open spec fn cancelled_message() -> Seq<char> {
    "Download cancelled"@
}

/// What a download does after a step.
#[derive(Debug, Clone, PartialEq, Eq)]
pub enum DownloadStep {
    /// Go on reading.
    Continue,
    /// Stop with this error, removing the partial file when asked.
    Abort { error: String, remove_partial: bool },
    /// The download is complete: flush it and move it into place.
    Finalize,
}

/// Before the request goes out: a cancel that is already pending stops
/// the download.
pub fn download_begin(cancel_requested: bool) -> (r: Option<String>)
    ensures
        cancel_requested ==> (r matches Some(m) && m@ == cancelled_message()),
        !cancel_requested ==> r is None,
{
    if cancel_requested {
        Some(owned("Download cancelled"))
    } else {
        None
    }
}

/// After a piece of the body arrived (`Ok` with its length) or the stream
/// failed, and after writing it (`write` is the write's result): a
/// cancel, a stream error or a write error stop the download and remove
/// the partial file; otherwise the count of bytes grows.
pub fn download_chunk(
    downloaded: u64,
    cancel_requested: bool,
    chunk: Result<u64, String>,
    write: Result<(), String>,
) -> (r: (u64, DownloadStep))
    requires
        chunk matches Ok(n) ==> downloaded + n <= u64::MAX,
    ensures
        cancel_requested ==> r.0 == downloaded && (r.1 matches DownloadStep::Abort {
            error,
            remove_partial,
        } && error@ == cancelled_message() && remove_partial),
        chunk matches Err(e) ==> (!cancel_requested ==> r.0 == downloaded && (r.1 matches DownloadStep::Abort {
            error,
            remove_partial,
        } && error@ == "Download stream error: "@ + e@ && remove_partial)),
        write matches Err(e) ==> (!cancel_requested && chunk is Ok ==> r.0 == downloaded && (r.1 matches DownloadStep::Abort {
            error,
            remove_partial,
        } && error == e && remove_partial)),
        !cancel_requested && chunk is Ok && write is Ok ==> r.0 == downloaded + chunk->Ok_0 && r.1
            == DownloadStep::Continue,
{
    if cancel_requested {
        return (
            downloaded,
            DownloadStep::Abort { error: owned("Download cancelled"), remove_partial: true },
        );
    }
    match chunk {
        Err(e) => {
            let mut v: Vec<char> = Vec::new();
            push_str(&mut v, "Download stream error: ");
            push_str(&mut v, e.as_str());
            (downloaded, DownloadStep::Abort { error: string_of(&v), remove_partial: true })
        },
        Ok(n) => match write {
            Err(e) => (downloaded, DownloadStep::Abort { error: e, remove_partial: true }),
            Ok(()) => (downloaded + n, DownloadStep::Continue),
        },
    }
}

/// The error of a download that ended short of its announced length.
pub open spec fn incomplete_message(model: Seq<char>, downloaded: u64, total: u64) -> Seq<char> {
    "Download incomplete for "@ + model + ": "@ + decimal(downloaded as nat) + " of "@ + decimal(
        total as nat,
    ) + " bytes"@
}

/// Once the body ended: a cancel stops the download; so does a body
/// shorter or longer than the announced length (when one was announced);
/// otherwise the file is complete. Both stops remove the partial file.
pub fn download_end(model: &str, downloaded: u64, total: u64, cancel_requested: bool) -> (r:
    DownloadStep)
    ensures
        cancel_requested ==> (r matches DownloadStep::Abort { error, remove_partial } && error@
            == cancelled_message() && remove_partial),
        !cancel_requested && total > 0 && downloaded != total ==> (r matches DownloadStep::Abort {
            error,
            remove_partial,
        } && error@ == incomplete_message(model@, downloaded, total) && remove_partial),
        !cancel_requested && !(total > 0 && downloaded != total) ==> r == DownloadStep::Finalize,
{
    if cancel_requested {
        return DownloadStep::Abort { error: owned("Download cancelled"), remove_partial: true };
    }
    if total > 0 && downloaded != total {
        let mut v: Vec<char> = Vec::new();
        push_str(&mut v, "Download incomplete for ");
        push_str(&mut v, model);
        push_str(&mut v, ": ");
        push_all(&mut v, &decimal_chars(downloaded));
        push_str(&mut v, " of ");
        push_all(&mut v, &decimal_chars(total));
        push_str(&mut v, " bytes");
        return DownloadStep::Abort { error: string_of(&v), remove_partial: true };
    }
    DownloadStep::Finalize
}

// ---------------------------------------------------------------------------
// Bonsai GGUF files
// ---------------------------------------------------------------------------

/// Whether a Bonsai GGUF of `len` bytes on disk is complete.
pub fn bonsai_gguf_valid(len: Option<u64>, bonsai: BonsaiModel) -> (b: bool)
    ensures
        b == (len matches Some(n) && n >= bonsai.min_bytes),
{
    match len {
        Some(n) => n >= bonsai.min_bytes,
        None => false,
    }
}

/// The error of a Bonsai GGUF download that stopped short.
pub open spec fn bonsai_incomplete_message(downloaded: u64, min_bytes: u64) -> Seq<char> {
    "Bonsai GGUF download was incomplete: got "@ + decimal((downloaded / 1_000_000) as nat)
        + " MB, expected at least "@ + decimal((min_bytes / 1_000_000) as nat) + " MB."@
}

/// Accepts a finished Bonsai GGUF download of `downloaded` bytes when it
/// reaches the model's minimum size.
pub fn bonsai_download_check(downloaded: u64, bonsai: BonsaiModel) -> (r: Result<(), String>)
    ensures
        downloaded >= bonsai.min_bytes ==> r is Ok,
        downloaded < bonsai.min_bytes ==> (r matches Err(m) && m@ == bonsai_incomplete_message(
            downloaded,
            bonsai.min_bytes,
        )),
{
    if downloaded >= bonsai.min_bytes {
        return Ok(());
    }
    let mut v: Vec<char> = Vec::new();
    push_str(&mut v, "Bonsai GGUF download was incomplete: got ");
    push_all(&mut v, &decimal_chars(downloaded / 1_000_000));
    push_str(&mut v, " MB, expected at least ");
    push_all(&mut v, &decimal_chars(bonsai.min_bytes / 1_000_000));
    push_str(&mut v, " MB.");
    Err(string_of(&v))
}

/// The Ollama Modelfile that registers the GGUF at `gguf_path`.
pub open spec fn modelfile_text(gguf_path: Seq<char>) -> Seq<char> {
    "FROM "@ + gguf_path + "\nPARAMETER temperature 0.35\nPARAMETER num_ctx 4096\nSYSTEM \"\"\""@
        + system_prompt_spec() + "\"\"\"\n"@
}

/// Writes out [`modelfile_text`].
pub fn bonsai_modelfile(gguf_path: &str) -> (m: String)
    ensures
        m@ == modelfile_text(gguf_path@),
{
    let mut v: Vec<char> = Vec::new();
    push_str(&mut v, "FROM ");
    push_str(&mut v, gguf_path);
    push_str(&mut v, "\nPARAMETER temperature 0.35\nPARAMETER num_ctx 4096\nSYSTEM \"\"\"");
    let sp = system_prompt();
    push_str(&mut v, sp.as_str());
    push_str(&mut v, "\"\"\"\n");
    string_of(&v)
}

/// The error of an `ollama create` that failed, with its compacted output.
pub fn bonsai_create_failure(bonsai: BonsaiModel, stdout: &str, stderr: &str) -> (m: String)
    requires
        compact_cut_ok(stdout@),
        compact_cut_ok(stderr@),
    ensures
        m@ == "Bonsai downloaded, but Ollama could not create `"@ + bonsai.ollama_name@
            + "`. stdout: "@ + compact_spec(stdout@) + " stderr: "@ + compact_spec(stderr@),
{
    let mut v: Vec<char> = Vec::new();
    push_str(&mut v, "Bonsai downloaded, but Ollama could not create `");
    push_str(&mut v, bonsai.ollama_name);
    push_str(&mut v, "`. stdout: ");
    let o = compact_command_output(stdout);
    push_str(&mut v, o.as_str());
    push_str(&mut v, " stderr: ");
    let e = compact_command_output(stderr);
    push_str(&mut v, e.as_str());
    string_of(&v)
}

/// The error of a registered Bonsai model that Ollama cannot load.
pub fn bonsai_load_failure(bonsai: BonsaiModel, error: &str) -> (m: String)
    ensures
        m@ == "Bonsai downloaded and registered as `"@ + bonsai.ollama_name@
            + "`, but Ollama cannot load it: "@ + error@
            + ". Restart Ollama/Veyra and retry; this Bonsai path uses the F16 GGUF and Ollama's new runner."@,
{
    let mut v: Vec<char> = Vec::new();
    push_str(&mut v, "Bonsai downloaded and registered as `");
    push_str(&mut v, bonsai.ollama_name);
    push_str(&mut v, "`, but Ollama cannot load it: ");
    push_str(&mut v, error);
    push_str(
        &mut v,
        ". Restart Ollama/Veyra and retry; this Bonsai path uses the F16 GGUF and Ollama's new runner.",
    );
    string_of(&v)
}

} // verus!
