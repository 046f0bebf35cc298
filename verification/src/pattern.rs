//! Regular expressions, through the `regex` crate.
//!
//! A [`Pattern`] is a compiled regex that remembers its source text; the
//! contracts speak of what the `regex` crate does through names applied to
//! that source text.
use vstd::prelude::*;

use crate::text::{is_byte_boundary, owned, push_all, push_str, string_of};

verus! {

#[verifier::external_type_specification]
#[verifier::external_body]
pub struct ExRegex(regex::Regex);

/// Whether `regex::Regex::new` accepts `pattern`.
pub uninterp spec fn regex_compiles(pattern: Seq<char>) -> bool;

/// What `Regex::replace_all` returns for the regex of `pattern` on `text`,
/// with `rep` as a replacement string (`$1` and the like stand for groups).
pub uninterp spec fn regex_replace_all(pattern: Seq<char>, text: Seq<char>, rep: Seq<char>) -> Seq<
    char,
>;

/// The byte spans (start, end) of the successive non-overlapping matches
/// that `Regex::find_iter` yields on `text`.
pub uninterp spec fn regex_match_spans(pattern: Seq<char>, text: Seq<char>) -> Seq<(usize, usize)>;

/// Whether `spans` are byte spans of `text` that start and end on character
/// boundaries, each ending no earlier than it starts and no later than the
/// next one starts.
pub open spec fn spans_ordered(text: Seq<char>, spans: Seq<(usize, usize)>) -> bool {
    &&& forall|i: int|
        0 <= i < spans.len() ==> #[trigger] spans[i].0 <= spans[i].1 && is_byte_boundary(
            text,
            spans[i].0 as int,
        ) && is_byte_boundary(text, spans[i].1 as int)
    &&& forall|i: int| 0 <= i < spans.len() - 1 ==> #[trigger] spans[i].1 <= spans[i + 1].0
}

/// The text of capture group 1 in the first match that `Regex::captures`
/// finds in `text`, if there is a match and the group took part in it.
pub uninterp spec fn regex_first_group(pattern: Seq<char>, text: Seq<char>) -> Option<Seq<char>>;

/// The texts of the successive non-overlapping matches that
/// `Regex::find_iter` yields on `text`.
pub uninterp spec fn regex_find_all(pattern: Seq<char>, text: Seq<char>) -> Seq<Seq<char>>;

/// A compiled regular expression together with its source text.
pub struct Pattern {
    source: String,
    re: regex::Regex,
}

impl View for Pattern {
    type V = Seq<char>;

    closed spec fn view(&self) -> Seq<char> {
        self.source@
    }
}

/// Calls `regex::Regex::new`; trusted to succeed exactly when
/// [`regex_compiles`] holds of `pattern`, and to keep `pattern` as the
/// source. What the crate accepts is not written out here.
#[verifier::external_body]
pub(crate) fn compile(pattern: &str) -> (r: Option<Pattern>)
    ensures
        r is Some == regex_compiles(pattern@),
        r matches Some(p) ==> p@ == pattern@,
{
    match regex::Regex::new(pattern) {
        Ok(re) => Some(Pattern { source: pattern.to_string(), re }),
        Err(_) => None,
    }
}

impl Pattern {
    /// Calls `Regex::replace_all` with a replacement string; trusted to
    /// return [`regex_replace_all`] of the source, `text` and `rep`. The
    /// matching itself is not written out here.
    #[verifier::external_body]
    pub(crate) fn replace_all(&self, text: &str, rep: &str) -> (out: String)
        ensures
            out@ == regex_replace_all(self@, text@, rep@),
    {
        self.re.replace_all(text, rep).into_owned()
    }

    /// Calls `Regex::find_iter` and takes each match's start and end; trusted
    /// to return [`regex_match_spans`] of the source and `text`, spans that
    /// the crate documents as successive, non-overlapping and delimiting
    /// substrings of `text` (see [`spans_ordered`]).
    #[verifier::external_body]
    pub(crate) fn match_spans(&self, text: &str) -> (out: Vec<(usize, usize)>)
        ensures
            out@ == regex_match_spans(self@, text@),
            spans_ordered(text@, out@),
    {
        self.re.find_iter(text).map(|m| (m.start(), m.end())).collect()
    }

    /// Calls `Regex::captures` and takes group 1; trusted to return
    /// [`regex_first_group`] of the source and `text`.
    #[verifier::external_body]
    pub(crate) fn first_group(&self, text: &str) -> (out: Option<String>)
        ensures
            match out {
                Some(g) => regex_first_group(self@, text@) == Some(g@),
                None => regex_first_group(self@, text@) is None,
            },
    {
        self.re.captures(text).and_then(|c| c.get(1).map(|m| m.as_str().to_string()))
    }

    /// Calls `Regex::find_iter` and collects the matched texts; trusted to
    /// return [`regex_find_all`] of the source and `text`.
    #[verifier::external_body]
    pub(crate) fn find_all(&self, text: &str) -> (out: Vec<String>)
        ensures
            out@.map_values(|s: String| s@) == regex_find_all(self@, text@),
    {
        self.re.find_iter(text).map(|m| m.as_str().to_string()).collect()
    }
}

/// `text` with every match of `pattern` replaced by `rep`; `text` itself
/// when the `regex` crate rejects `pattern`.
pub open spec fn replaced(pattern: Seq<char>, text: Seq<char>, rep: Seq<char>) -> Seq<char> {
    if regex_compiles(pattern) {
        regex_replace_all(pattern, text, rep)
    } else {
        text
    }
}

/// Replaces every match of `pattern` in `text` by `rep`.
pub fn replace_matches(pattern: &str, text: &str, rep: &str) -> (out: String)
    ensures
        out@ == replaced(pattern@, text@, rep@),
{
    match compile(pattern) {
        Some(p) => p.replace_all(text, rep),
        None => owned(text),
    }
}

// ---------------------------------------------------------------------------
// Escaping
// ---------------------------------------------------------------------------

/// The characters that `regex::escape` escapes.
pub open spec fn is_meta(c: char) -> bool {
    c == '\\' || c == '.' || c == '+' || c == '*' || c == '?' || c == '(' || c == ')' || c == '|'
        || c == '[' || c == ']' || c == '{' || c == '}' || c == '^' || c == '$' || c == '#' || c
        == '&' || c == '-' || c == '~'
}

/// `s` with a backslash before each meta character: what `regex::escape`
/// returns.
pub open spec fn escaped(s: Seq<char>) -> Seq<char>
    decreases s.len(),
{
    if s.len() == 0 {
        s
    } else if is_meta(s.last()) {
        escaped(s.drop_last()) + seq!['\\', s.last()]
    } else {
        escaped(s.drop_last()).push(s.last())
    }
}

fn is_meta_char(c: char) -> (b: bool)
    ensures
        b == is_meta(c),
{
    c == '\\' || c == '.' || c == '+' || c == '*' || c == '?' || c == '(' || c == ')' || c == '|'
        || c == '[' || c == ']' || c == '{' || c == '}' || c == '^' || c == '$' || c == '#' || c
        == '&' || c == '-' || c == '~'
}

/// `text` with a backslash before each of [`is_meta`]'s characters, which is
/// what `regex::escape` returns.
pub(crate) fn escape(text: &str) -> (out: String)
    ensures
        out@ == escaped(text@),
{
    let v = crate::text::chars_of(text);
    let mut out: Vec<char> = Vec::new();
    let mut i: usize = 0;
    while i < v.len()
        invariant
            i <= v.len(),
            v@ == text@,
            out@ == escaped(v@.take(i as int)),
        decreases v.len() - i,
    {
        let c = v[i];
        let ghost before = out@;
        if is_meta_char(c) {
            out.push('\\');
        }
        out.push(c);
        proof {
            let t = v@.take(i + 1);
            assert(t.drop_last() =~= v@.take(i as int));
            assert(t.last() == c);
            if is_meta(c) {
                assert(out@ =~= before + seq!['\\', c]);
            } else {
                assert(out@ =~= before.push(c));
            }
        }
        i += 1;
    }
    assert(v@.take(v.len() as int) =~= v@);
    string_of(&out)
}

/// The source of a regex matching `phrase` literally as a whole word
/// between `before` and `\b`.
pub open spec fn word_pattern(before: Seq<char>, phrase: Seq<char>) -> Seq<char> {
    before + "\\b"@ + escaped(phrase) + "\\b"@
}

/// Builds [`word_pattern`].
pub fn word_pattern_of(before: &str, phrase: &str) -> (out: String)
    ensures
        out@ == word_pattern(before@, phrase@),
{
    let e = escape(phrase);
    let mut v: Vec<char> = Vec::new();
    push_str(&mut v, before);
    push_str(&mut v, "\\b");
    push_str(&mut v, e.as_str());
    push_str(&mut v, "\\b");
    let out = string_of(&v);
    proof {
        assert(out@ =~= word_pattern(before@, phrase@));
    }
    out
}

} // verus!
