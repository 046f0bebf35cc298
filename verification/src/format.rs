//! Formatting rules over transcribed text: filler words, spoken commands,
//! the user's dictionary, snippets and punctuation clean-up.
use vstd::prelude::*;

use crate::pattern::{
    compile, escaped, regex_compiles, regex_find_all, regex_match_spans, regex_replace_all,
    replace_matches, replaced, spans_ordered, word_pattern, word_pattern_of, Pattern,
};
use crate::storage::{DictionaryTerm, Snippet};
use crate::text::{
    char_is_uppercase, char_to_uppercase, char_uppercase, chars_of, is_uppercase, lowercase,
    lowercase_chars, owned, push_all, push_str, starts_with, str_to_uppercase, string_of, trim,
    trim_ws, uppercase, chars_in_bytes, char_index_at_byte, copy_range, lemma_boundary_chars,
    utf8_len,
};

verus! {

// ---------------------------------------------------------------------------
// Case
// ---------------------------------------------------------------------------

/// Every character of `s` is upper case (true of the empty text).
pub open spec fn all_uppercase(s: Seq<char>) -> bool {
    forall|i: int| 0 <= i < s.len() ==> is_uppercase(#[trigger] s[i])
}

/// `rep` written in the case of `original`: all upper case when `original`
/// is, capitalised when `original` starts with an upper-case letter, as
/// configured otherwise.
pub open spec fn case_kept(original: Seq<char>, rep: Seq<char>) -> Seq<char> {
    if all_uppercase(original) {
        uppercase(rep)
    } else if original.len() > 0 && is_uppercase(original[0]) {
        if rep.len() == 0 {
            rep
        } else {
            char_uppercase(rep[0]) + rep.drop_first()
        }
    } else {
        rep
    }
}

/// Writes `replacement` in the case of `original` (see [`case_kept`]).
pub fn preserve_case(original: &str, replacement: &str) -> (out: String)
    ensures
        out@ == case_kept(original@, replacement@),
{
    let o = chars_of(original);
    let mut all_upper = true;
    let mut i: usize = 0;
    while i < o.len()
        invariant
            i <= o.len(),
            all_upper == (forall|j: int| 0 <= j < i ==> is_uppercase(#[trigger] o@[j])),
        decreases o.len() - i,
    {
        if !char_is_uppercase(o[i]) {
            all_upper = false;
        }
        i += 1;
    }
    if all_upper {
        return str_to_uppercase(replacement);
    }
    if o.len() > 0 && char_is_uppercase(o[0]) {
        let r = chars_of(replacement);
        if r.len() == 0 {
            return owned(replacement);
        }
        let first = char_to_uppercase(r[0]);
        let mut v = chars_of(first.as_str());
        let mut k: usize = 1;
        while k < r.len()
            invariant
                1 <= k <= r.len(),
                r@ == replacement@,
                v@ == char_uppercase(r@[0]) + r@.subrange(1, k as int),
            decreases r.len() - k,
        {
            v.push(r[k]);
            assert(r@.subrange(1, k + 1) =~= r@.subrange(1, k as int).push(r@[k as int]));
            k += 1;
        }
        assert(r@.subrange(1, r@.len() as int) =~= r@.drop_first());
        return string_of(&v);
    }
    owned(replacement)
}

// ---------------------------------------------------------------------------
// Spoken commands
// ---------------------------------------------------------------------------

/// Spoken command phrases, in the order in which they are applied.
pub const COMMAND_PHRASES: [&'static str; 14] = [
    "new paragraph",
    "new line",
    "exclamation mark",
    "question mark",
    "period",
    "comma",
    "bullet",
    "novo parágrafo",
    "nova linha",
    "ponto final",
    "ponto",
    "vírgula",
    "interrogação",
    "exclamação",
];

/// What each phrase of [`COMMAND_PHRASES`] becomes.
pub const COMMAND_REPLACEMENTS: [&'static str; 14] = [
    "\n\n",
    "\n",
    "!",
    "?",
    ".",
    ",",
    "• ",
    "\n\n",
    "\n",
    ".",
    ".",
    ",",
    "?",
    "!",
];

/// The regex of a command phrase: the whole phrase, in any case, with one
/// optional white-space character before it.
pub open spec fn command_pattern(phrase: Seq<char>) -> Seq<char> {
    word_pattern("(?i)\\s?"@, phrase)
}

/// `text` after the first `n` command rules.
pub open spec fn commands_replaced(text: Seq<char>, n: nat) -> Seq<char>
    decreases n,
{
    if n == 0 {
        text
    } else {
        replaced(
            command_pattern(COMMAND_PHRASES@[n - 1]@),
            commands_replaced(text, (n - 1) as nat),
            COMMAND_REPLACEMENTS@[n - 1]@,
        )
    }
}

/// Replaces spoken commands ("comma", "nova linha", ...) by what they stand
/// for, one rule after the other in the order of [`COMMAND_PHRASES`].
pub fn replace_commands(text: &str) -> (out: String)
    ensures
        out@ == commands_replaced(text@, 14),
{
    let mut out = owned(text);
    let mut i: usize = 0;
    while i < 14
        invariant
            i <= 14,
            out@ == commands_replaced(text@, i as nat),
        decreases 14 - i,
    {
        let pat = word_pattern_of("(?i)\\s?", COMMAND_PHRASES[i]);
        out = replace_matches(pat.as_str(), out.as_str(), COMMAND_REPLACEMENTS[i]);
        i += 1;
    }
    out
}

// ---------------------------------------------------------------------------
// Filler words
// ---------------------------------------------------------------------------

/// The regex of a filler word: the trimmed word, whole, in any case.
pub open spec fn filler_pattern(filler: Seq<char>) -> Seq<char> {
    word_pattern("(?i)"@, trim(filler))
}

/// `text` with each non-blank filler of `fillers` removed, in order.
pub open spec fn fillers_removed(text: Seq<char>, fillers: Seq<Seq<char>>) -> Seq<char>
    decreases fillers.len(),
{
    if fillers.len() == 0 {
        text
    } else {
        let before = fillers_removed(text, fillers.drop_last());
        if trim(fillers.last()).len() == 0 {
            before
        } else {
            replaced(filler_pattern(fillers.last()), before, ""@)
        }
    }
}

/// Runs of two or more white-space characters.
pub open spec fn space_runs() -> Seq<char> {
    "\\s{2,}"@
}

/// What `drop_fillers` returns.
pub open spec fn fillers_dropped(text: Seq<char>, fillers: Seq<Seq<char>>) -> Seq<char> {
    if fillers.len() == 0 || text.len() == 0 {
        text
    } else {
        replaced(space_runs(), trim(fillers_removed(text, fillers)), " "@)
    }
}

/// Drops every configured filler word from `text` (whole words, any case),
/// trims the result and collapses the runs of white space left behind.
pub fn drop_fillers(text: &str, fillers: &[String]) -> (out: String)
    ensures
        out@ == fillers_dropped(text@, fillers@.map_values(|f: String| f@)),
{
    let ghost fs = fillers@.map_values(|f: String| f@);
    let tv = chars_of(text);
    if fillers.len() == 0 || tv.len() == 0 {
        return owned(text);
    }
    let mut out = owned(text);
    let mut i: usize = 0;
    while i < fillers.len()
        invariant
            i <= fillers.len(),
            fs == fillers@.map_values(|f: String| f@),
            out@ == fillers_removed(text@, fs.take(i as int)),
        decreases fillers.len() - i,
    {
        assert(fs.take(i + 1).drop_last() =~= fs.take(i as int));
        assert(fs.take(i + 1).last() == fillers@[i as int]@);
        let f = chars_of(fillers[i].as_str());
        let t = trim_ws(&f);
        if t.len() > 0 {
            let word = string_of(&t);
            let pat = word_pattern_of("(?i)", word.as_str());
            out = replace_matches(pat.as_str(), out.as_str(), "");
        }
        i += 1;
    }
    assert(fs.take(fillers.len() as int) =~= fs);
    let o = chars_of(out.as_str());
    let trimmed = string_of(&trim_ws(&o));
    replace_matches("\\s{2,}", trimmed.as_str(), " ")
}

// ---------------------------------------------------------------------------
// Dictionary
// ---------------------------------------------------------------------------

/// The character positions at which the byte span `span` of `text` starts
/// and ends.
pub open spec fn char_span(text: Seq<char>, span: (usize, usize)) -> (int, int) {
    (chars_in_bytes(text, span.0 as int) as int, chars_in_bytes(text, span.1 as int) as int)
}

/// The character position where the last of `spans` ends (0 when none).
pub open spec fn spans_end(text: Seq<char>, spans: Seq<(usize, usize)>) -> int {
    if spans.len() == 0 {
        0
    } else {
        char_span(text, spans.last()).1
    }
}

/// `text` up to the end of the last of `spans`, each span's text written
/// as `rep` in that text's case (see [`case_kept`]).
pub open spec fn kept_case_prefix(text: Seq<char>, spans: Seq<(usize, usize)>, rep: Seq<char>) -> Seq<
    char,
>
    decreases spans.len(),
{
    if spans.len() == 0 {
        Seq::empty()
    } else {
        let c = char_span(text, spans.last());
        kept_case_prefix(text, spans.drop_last(), rep) + text.subrange(
            spans_end(text, spans.drop_last()),
            c.0,
        ) + case_kept(text.subrange(c.0, c.1), rep)
    }
}

/// `text` with the text of each of `spans` replaced by `rep` written in
/// the case of the text it replaces.
pub open spec fn replaced_keeping_case(text: Seq<char>, spans: Seq<(usize, usize)>, rep: Seq<char>) -> Seq<char> {
    kept_case_prefix(text, spans, rep) + text.subrange(spans_end(text, spans), text.len() as int)
}

/// Replaces each match of `p` in `text` by `rep` written in the case of the
/// matched text (see [`replaced_keeping_case`]).
fn replace_keeping_case(p: &Pattern, text: &str, rep: &str) -> (out: String)
    ensures
        out@ == replaced_keeping_case(text@, regex_match_spans(p@, text@), rep@),
{
    let v = chars_of(text);
    let spans = p.match_spans(text);
    let ghost sp = spans@;
    let mut out: Vec<char> = Vec::new();
    let mut cursor: usize = 0;
    let mut i: usize = 0;
    while i < spans.len()
        invariant
            i <= spans.len(),
            v@ == text@,
            sp == spans@,
            spans_ordered(text@, sp),
            cursor == spans_end(text@, sp.take(i as int)),
            cursor <= v.len(),
            i > 0 ==> utf8_len(text@.take(cursor as int)) == sp[i - 1].1,
            out@ == kept_case_prefix(text@, sp.take(i as int), rep@),
        decreases spans.len() - i,
    {
        let (b0, b1) = spans[i];
        assert(sp[i as int].0 <= sp[i as int].1);
        proof {
            lemma_boundary_chars(text@, b0 as int, b1 as int);
            if i > 0 {
                assert(sp[i - 1].1 <= sp[i as int].0);
                lemma_boundary_chars(text@, sp[i - 1].1 as int, b0 as int);
                assert(chars_in_bytes(text@, sp[i - 1].1 as int) == cursor) by {
                    crate::text::lemma_utf8_len_bounds(text@.take(cursor as int));
                    crate::text::lemma_chars_in_bytes_exact(text@, cursor as int);
                }
            }
        }
        let s0 = char_index_at_byte(&v, b0 as u128);
        let s1 = char_index_at_byte(&v, b1 as u128);
        let gap = copy_range(&v, cursor, s0);
        push_all(&mut out, &gap);
        let m = string_of(&copy_range(&v, s0, s1));
        let k = preserve_case(m.as_str(), rep);
        push_str(&mut out, k.as_str());
        proof {
            let t = sp.take(i + 1);
            assert(t.drop_last() =~= sp.take(i as int));
            assert(t.last() == sp[i as int]);
        }
        cursor = s1;
        i += 1;
    }
    assert(sp.take(spans.len() as int) =~= sp);
    let tail = copy_range(&v, cursor, v.len());
    push_all(&mut out, &tail);
    string_of(&out)
}

/// The regex of a dictionary term: the whole term, in any case.
pub open spec fn term_pattern(term: Seq<char>) -> Seq<char> {
    word_pattern("(?i)"@, term)
}

/// `text` after the rewrites of `terms`, in order. Disabled terms and terms
/// without a replacement are skipped; abbreviations are written as
/// configured, other terms in the case of the text they replace.
pub open spec fn dictionary_applied(text: Seq<char>, terms: Seq<DictionaryTerm>) -> Seq<char>
    decreases terms.len(),
{
    if terms.len() == 0 {
        text
    } else {
        let before = dictionary_applied(text, terms.drop_last());
        let t = terms.last();
        let p = term_pattern(t.term@);
        if !t.enabled || t.replacement is None || !regex_compiles(p) {
            before
        } else if t.is_abbreviation {
            regex_replace_all(p, before, t.replacement->Some_0@)
        } else {
            replaced_keeping_case(before, regex_match_spans(p, before), t.replacement->Some_0@)
        }
    }
}

/// Applies the dictionary `terms` to `text` (see [`dictionary_applied`]).
pub fn dictionary_pass(text: &str, terms: &[DictionaryTerm]) -> (out: String)
    ensures
        out@ == dictionary_applied(text@, terms@),
{
    let mut out = owned(text);
    let mut i: usize = 0;
    while i < terms.len()
        invariant
            i <= terms.len(),
            out@ == dictionary_applied(text@, terms@.take(i as int)),
        decreases terms.len() - i,
    {
        assert(terms@.take(i + 1).drop_last() =~= terms@.take(i as int));
        let t = &terms[i];
        if t.enabled {
            match &t.replacement {
                Some(rep) => {
                    let pat = word_pattern_of("(?i)", t.term.as_str());
                    match compile(pat.as_str()) {
                        Some(p) => {
                            if t.is_abbreviation {
                                out = p.replace_all(out.as_str(), rep.as_str());
                            } else {
                                out = replace_keeping_case(&p, out.as_str(), rep.as_str());
                            }
                        },
                        None => {},
                    }
                },
                None => {},
            }
        }
        i += 1;
    }
    assert(terms@.take(terms.len() as int) =~= terms@);
    out
}

/// How many sightings make an unknown word a dictionary entry.
pub const DICTIONARY_AUTO_ADD_THRESHOLD: i64 = 5;

/// Words of four letters or more.
pub open spec fn token_pattern() -> Seq<char> {
    "[\\p{L}]{4,}"@
}

/// Whether `s` occurs in `list`.
pub open spec fn seq_has(list: Seq<Seq<char>>, s: Seq<char>) -> bool {
    exists|i: int| 0 <= i < list.len() && list[i] == s
}

/// The lower-cased `tokens` that are not in `known`, each once, in order
/// of first appearance.
pub open spec fn fresh_tokens(tokens: Seq<Seq<char>>, known: Seq<Seq<char>>) -> Seq<Seq<char>>
    decreases tokens.len(),
{
    if tokens.len() == 0 {
        Seq::empty()
    } else {
        let before = fresh_tokens(tokens.drop_last(), known);
        let t = lowercase(tokens.last());
        if seq_has(known, t) || seq_has(before, t) {
            before
        } else {
            before.push(t)
        }
    }
}

/// The lower-cased dictionary terms.
pub open spec fn known_terms(terms: Seq<DictionaryTerm>) -> Seq<Seq<char>> {
    terms.map_values(|t: DictionaryTerm| lowercase(t.term@))
}

/// The words of `raw` that auto-add observes: none when auto-add is off or
/// `raw` is blank, else the words of four letters or more, lower-cased,
/// that are not dictionary terms yet, each once.
pub open spec fn auto_add_words(raw: Seq<char>, terms: Seq<DictionaryTerm>, enabled: bool) -> Seq<
    Seq<char>,
> {
    if !enabled || trim(raw).len() == 0 || !regex_compiles(token_pattern()) {
        Seq::empty()
    } else {
        fresh_tokens(regex_find_all(token_pattern(), raw), known_terms(terms))
    }
}

fn seq_has_exec(list: &Vec<Vec<char>>, s: &Vec<char>) -> (r: bool)
    ensures
        r == seq_has(list@.map_values(|v: Vec<char>| v@), s@),
{
    let ghost l = list@.map_values(|v: Vec<char>| v@);
    let mut i: usize = 0;
    while i < list.len()
        invariant
            i <= list.len(),
            l == list@.map_values(|v: Vec<char>| v@),
            forall|j: int| 0 <= j < i ==> l[j] != s@,
        decreases list.len() - i,
    {
        if crate::text::eq_chars(&list[i], s) {
            assert(l[i as int] == s@);
            return true;
        }
        i += 1;
    }
    false
}

/// The words of `raw` that auto-add observes (see [`auto_add_words`]).
pub fn auto_add_unseen(raw: &str, terms: &[DictionaryTerm], auto_add_enabled: bool) -> (out: Vec<
    String,
>)
    ensures
        out@.map_values(|s: String| s@) == auto_add_words(raw@, terms@, auto_add_enabled),
{
    let r = chars_of(raw);
    if !auto_add_enabled || trim_ws(&r).len() == 0 {
        return Vec::new();
    }
    let p = match compile("[\\p{L}]{4,}") {
        Some(p) => p,
        None => {
            return Vec::new();
        },
    };
    let mut known: Vec<Vec<char>> = Vec::new();
    let mut i: usize = 0;
    while i < terms.len()
        invariant
            i <= terms.len(),
            known@.map_values(|v: Vec<char>| v@) == known_terms(terms@.take(i as int)),
        decreases terms.len() - i,
    {
        let ghost before = known@;
        let k = lowercase_chars(&chars_of(terms[i].term.as_str()));
        known.push(k);
        assert(terms@.take(i + 1) =~= terms@.take(i as int).push(terms@[i as int]));
        assert(known_terms(terms@.take(i + 1)) =~= known_terms(terms@.take(i as int)).push(
            lowercase(terms@[i as int].term@),
        ));
        assert(known@.map_values(|v: Vec<char>| v@) =~= before.map_values(|v: Vec<char>| v@).push(
            lowercase(terms@[i as int].term@),
        ));
        i += 1;
    }
    assert(terms@.take(terms.len() as int) =~= terms@);
    let tokens = p.find_all(raw);
    let ghost toks = tokens@.map_values(|s: String| s@);
    let ghost kn = known_terms(terms@);
    let mut seen: Vec<Vec<char>> = Vec::new();
    let mut out: Vec<String> = Vec::new();
    let mut j: usize = 0;
    while j < tokens.len()
        invariant
            j <= tokens.len(),
            toks == tokens@.map_values(|s: String| s@),
            kn == known@.map_values(|v: Vec<char>| v@),
            seen@.map_values(|v: Vec<char>| v@) == fresh_tokens(toks.take(j as int), kn),
            out@.map_values(|s: String| s@) == fresh_tokens(toks.take(j as int), kn),
        decreases tokens.len() - j,
    {
        assert(toks.take(j + 1).drop_last() =~= toks.take(j as int));
        assert(toks.take(j + 1).last() == tokens@[j as int]@);
        let t = lowercase_chars(&chars_of(tokens[j].as_str()));
        if !seq_has_exec(&known, &t) && !seq_has_exec(&seen, &t) {
            let ghost s0 = seen@;
            let ghost o0 = out@;
            let w = string_of(&t);
            seen.push(t);
            out.push(w);
            assert(seen@.map_values(|v: Vec<char>| v@) =~= s0.map_values(|v: Vec<char>| v@).push(
                t@,
            ));
            assert(out@.map_values(|s: String| s@) =~= o0.map_values(|s: String| s@).push(t@));
        }
        j += 1;
    }
    assert(toks.take(tokens.len() as int) =~= toks);
    out
}

/// Whether a word seen `count` times is promoted to the dictionary.
pub fn auto_add_promotes(count: i64, threshold: i64) -> (r: bool)
    ensures
        r == (count >= threshold),
{
    count >= threshold
}

// ---------------------------------------------------------------------------
// Punctuation
// ---------------------------------------------------------------------------

/// What `collapse_punctuation` returns: no white space before `, . ! ?`,
/// no comma right before a sentence end, and runs of one mark collapsed.
pub open spec fn punctuation_collapsed(text: Seq<char>) -> Seq<char> {
    let a = replaced("\\s+([,.!?])"@, text, "$1"@);
    let b = replaced(",(\\s*[.!?])"@, a, "$1"@);
    let c = replaced(",(?:\\s*,)+"@, b, ","@);
    let d = replaced("\\.(?:\\s*\\.)+"@, c, "."@);
    let e = replaced("!(?:\\s*!)+"@, d, "!"@);
    replaced("\\?(?:\\s*\\?)+"@, e, "?"@)
}

/// Cleans up doubled punctuation (see [`punctuation_collapsed`]).
pub fn collapse_punctuation(text: &str) -> (out: String)
    ensures
        out@ == punctuation_collapsed(text@),
{
    let a = replace_matches("\\s+([,.!?])", text, "$1");
    let b = replace_matches(",(\\s*[.!?])", a.as_str(), "$1");
    let c = replace_matches(",(?:\\s*,)+", b.as_str(), ",");
    let d = replace_matches("\\.(?:\\s*\\.)+", c.as_str(), ".");
    let e = replace_matches("!(?:\\s*!)+", d.as_str(), "!");
    replace_matches("\\?(?:\\s*\\?)+", e.as_str(), "?")
}

} // verus!

verus! {

// ---------------------------------------------------------------------------
// Snippets
// ---------------------------------------------------------------------------

/// Whether snippet `s` is enabled and its trigger starts `window`.
pub open spec fn trigger_fits(s: Snippet, window: Seq<char>) -> bool {
    s.enabled && starts_with(window, s.trigger@)
}

/// Whether snippet `k` is the one that expands at the start of `window`:
/// among the enabled snippets whose trigger starts `window`, the one with
/// the longest trigger, the first such in `snippets` on a tie.
pub open spec fn is_first_trigger(snippets: Seq<Snippet>, window: Seq<char>, k: int) -> bool {
    &&& 0 <= k < snippets.len()
    &&& trigger_fits(snippets[k], window)
    &&& forall|j: int|
        0 <= j < snippets.len() && #[trigger] trigger_fits(snippets[j], window) ==> snippets[j].trigger@.len()
            < snippets[k].trigger@.len() || (snippets[j].trigger@.len()
            == snippets[k].trigger@.len() && k <= j)
}

/// The snippet that expands at the start of `window`, looking at the first
/// `n` snippets.
pub open spec fn first_trigger_upto(snippets: Seq<Snippet>, window: Seq<char>, n: int) -> Option<
    int,
>
    decreases n,
{
    if n <= 0 {
        None
    } else {
        let before = first_trigger_upto(snippets, window, n - 1);
        if trigger_fits(snippets[n - 1], window) && (before is None
            || snippets[before->Some_0].trigger@.len() < snippets[n - 1].trigger@.len()) {
            Some(n - 1)
        } else {
            before
        }
    }
}

/// The snippet that expands at the start of `window` (see
/// [`is_first_trigger`] and [`law_first_trigger_is_longest`]).
pub open spec fn first_trigger(snippets: Seq<Snippet>, window: Seq<char>) -> Option<int> {
    first_trigger_upto(snippets, window, snippets.len() as int)
}

proof fn lemma_first_trigger_upto(snippets: Seq<Snippet>, window: Seq<char>, n: int)
    requires
        0 <= n <= snippets.len(),
    ensures
        first_trigger_upto(snippets, window, n) matches Some(k) ==> 0 <= k < n && trigger_fits(
            snippets[k],
            window,
        ) && forall|j: int|
            0 <= j < n && #[trigger] trigger_fits(snippets[j], window) ==> snippets[j].trigger@.len()
                < snippets[k].trigger@.len() || (snippets[j].trigger@.len()
                == snippets[k].trigger@.len() && k <= j),
        first_trigger_upto(snippets, window, n) is None ==> forall|j: int|
            0 <= j < n ==> !#[trigger] trigger_fits(snippets[j], window),
    decreases n,
{
    if n > 0 {
        lemma_first_trigger_upto(snippets, window, n - 1);
    }
}

/// The expanding snippet is the enabled one with the longest trigger that
/// starts the text, the first listed on a tie; there is none exactly when
/// no enabled trigger starts the text.
pub proof fn law_first_trigger_is_longest(snippets: Seq<Snippet>, window: Seq<char>)
    ensures
        first_trigger(snippets, window) matches Some(k) ==> is_first_trigger(snippets, window, k),
        first_trigger(snippets, window) is None ==> forall|j: int|
            0 <= j < snippets.len() ==> !#[trigger] trigger_fits(snippets[j], window),
{
    lemma_first_trigger_upto(snippets, window, snippets.len() as int);
}

/// The index of the snippet that expands at the start of `window`.
pub fn match_first_trigger(window: &Vec<char>, snippets: &[Snippet]) -> (r: Option<usize>)
    ensures
        match r {
            Some(k) => first_trigger(snippets@, window@) == Some(k as int),
            None => first_trigger(snippets@, window@) is None,
        },
{
    let mut best: Option<usize> = None;
    let mut i: usize = 0;
    while i < snippets.len()
        invariant
            i <= snippets.len(),
            match best {
                Some(k) => first_trigger_upto(snippets@, window@, i as int) == Some(k as int) && k
                    < i,
                None => first_trigger_upto(snippets@, window@, i as int) is None,
            },
        decreases snippets.len() - i,
    {
        let s = &snippets[i];
        if s.enabled {
            let t = chars_of(s.trigger.as_str());
            if crate::text::starts_with_chars(window, &t) {
                let longer = match best {
                    None => true,
                    Some(k) => chars_of(snippets[k].trigger.as_str()).len() < t.len(),
                };
                if longer {
                    best = Some(i);
                }
            }
        }
        i += 1;
    }
    best
}

/// The length of the UTF-8 sequence that a lead byte `b` starts (a stray
/// continuation byte counts as one).
pub open spec fn utf8_sequence_len(b: u8) -> usize {
    if b < 0x80 {
        1
    } else if b < 0xC0 {
        1
    } else if b < 0xE0 {
        2
    } else if b < 0xF0 {
        3
    } else {
        4
    }
}

/// The length of the UTF-8 sequence that starts `bytes`.
pub fn next_char_len(bytes: &[u8]) -> (n: usize)
    requires
        bytes@.len() > 0,
    ensures
        n == utf8_sequence_len(bytes@[0]),
{
    let b = bytes[0];
    if b < 0x80 {
        1
    } else if b < 0xC0 {
        1
    } else if b < 0xE0 {
        2
    } else if b < 0xF0 {
        3
    } else {
        4
    }
}

/// Whether position `i` of `t` starts a phrase: the very start, or just
/// after a newline.
pub open spec fn phrase_start(t: Seq<char>, i: int) -> bool {
    i == 0 || t[i - 1] == '\n'
}

/// No enabled snippet has an empty trigger (such a trigger would match
/// everywhere without consuming any text).
pub open spec fn triggers_nonempty(snippets: Seq<Snippet>) -> bool {
    forall|j: int| 0 <= j < snippets.len() && #[trigger] snippets[j].enabled ==> snippets[j].trigger@.len() > 0
}

/// `t` from position `i` on, with snippets expanded at phrase starts, and
/// the ids of the snippets expanded, in order.
pub open spec fn expanded_from(t: Seq<char>, snippets: Seq<Snippet>, i: int) -> (Seq<char>, Seq<i64>)
    decreases t.len() - i,
{
    if i < 0 || i >= t.len() {
        (Seq::empty(), Seq::empty())
    } else {
        let hit = if phrase_start(t, i) {
            first_trigger(snippets, t.skip(i))
        } else {
            None
        };
        match hit {
            Some(k) => if 0 <= k < snippets.len() && snippets[k].trigger@.len() > 0
                && snippets[k].trigger@.len() <= t.len() - i {
                let rest = expanded_from(t, snippets, i + snippets[k].trigger@.len());
                (snippets[k].expansion@ + rest.0, seq![snippets[k].id] + rest.1)
            } else {
                (Seq::empty(), Seq::empty())
            },
            None => {
                let rest = expanded_from(t, snippets, i + 1);
                (seq![t[i]] + rest.0, rest.1)
            },
        }
    }
}

/// Text with its snippets expanded, and which snippets were used.
#[derive(Debug, Clone, PartialEq)]
pub struct Expansion {
    pub text: String,
    /// The ids of the snippets expanded, in order, once per expansion.
    pub used: Vec<i64>,
}

/// Expands snippets: at the start of the text and after each newline, the
/// enabled snippet with the longest trigger that starts there (the first
/// listed on a tie) replaces its trigger by its expansion.
pub fn expand_snippets(text: &str, snippets: &[Snippet]) -> (r: Expansion)
    requires
        triggers_nonempty(snippets@),
    ensures
        r.text@ == expanded_from(text@, snippets@, 0).0,
        r.used@ == expanded_from(text@, snippets@, 0).1,
{
    let t = chars_of(text);
    let mut out: Vec<char> = Vec::new();
    let mut used: Vec<i64> = Vec::new();
    let mut i: usize = 0;
    while i < t.len()
        invariant
            i <= t.len(),
            t@ == text@,
            triggers_nonempty(snippets@),
            out@ + expanded_from(t@, snippets@, i as int).0 == expanded_from(t@, snippets@, 0).0,
            used@ + expanded_from(t@, snippets@, i as int).1 == expanded_from(t@, snippets@, 0).1,
        decreases t.len() - i,
    {
        let at_start = i == 0 || t[i - 1] == '\n';
        let mut hit: Option<usize> = None;
        if at_start {
            let window = crate::text::copy_range(&t, i, t.len());
            assert(window@ =~= t@.skip(i as int));
            hit = match_first_trigger(&window, snippets);
        }
        let ghost before_out = out@;
        let ghost before_used = used@;
        match hit {
            Some(k) => {
                proof {
                    law_first_trigger_is_longest(snippets@, t@.skip(i as int));
                }
                let s = &snippets[k];
                let trig = chars_of(s.trigger.as_str());
                let exp = chars_of(s.expansion.as_str());
                crate::text::push_all(&mut out, &exp);
                used.push(s.id);
                proof {
                    assert(starts_with(t@.skip(i as int), s.trigger@));
                    assert(out@ + expanded_from(t@, snippets@, i + trig@.len()).0 =~= before_out
                        + expanded_from(t@, snippets@, i as int).0);
                    assert(used@ + expanded_from(t@, snippets@, i + trig@.len()).1 =~= before_used
                        + expanded_from(t@, snippets@, i as int).1);
                }
                i = i + trig.len();
            },
            None => {
                out.push(t[i]);
                proof {
                    assert(out@ + expanded_from(t@, snippets@, i + 1).0 =~= before_out
                        + expanded_from(t@, snippets@, i as int).0);
                    assert(used@ + expanded_from(t@, snippets@, i + 1).1 =~= before_used
                        + expanded_from(t@, snippets@, i as int).1);
                }
                i = i + 1;
            },
        }
    }
    proof {
        assert(expanded_from(t@, snippets@, i as int).0 =~= Seq::<char>::empty());
        assert(out@ =~= out@ + Seq::<char>::empty());
        assert(used@ =~= used@ + Seq::<i64>::empty());
    }
    Expansion { text: string_of(&out), used }
}

} // verus!

verus! {

// ---------------------------------------------------------------------------
// The whole pass
// ---------------------------------------------------------------------------

/// The text before snippet expansion: trimmed, fillers dropped and
/// commands replaced when the settings ask for it, dictionary applied.
pub open spec fn before_snippets(
    raw: Seq<char>,
    formatting: crate::settings::schema::Formatting,
    terms: Seq<DictionaryTerm>,
) -> Seq<char> {
    let t0 = trim(raw);
    let t1 = if formatting.remove_fillers {
        fillers_dropped(t0, formatting.filler_words@.map_values(|f: String| f@))
    } else {
        t0
    };
    let t2 = if formatting.explicit_commands {
        commands_replaced(t1, 14)
    } else {
        t1
    };
    dictionary_applied(t2, terms)
}

/// Formats a transcript: trim, drop fillers and replace spoken commands
/// (each when the settings ask for it), apply the dictionary, expand
/// snippets, clean up punctuation. Also reports which snippets were used.
pub fn run_format(
    raw: &str,
    formatting: &crate::settings::schema::Formatting,
    terms: &[DictionaryTerm],
    snippets: &[Snippet],
) -> (r: Expansion)
    requires
        triggers_nonempty(snippets@),
    ensures
        r.text@ == punctuation_collapsed(
            expanded_from(before_snippets(raw@, *formatting, terms@), snippets@, 0).0,
        ),
        r.used@ == expanded_from(before_snippets(raw@, *formatting, terms@), snippets@, 0).1,
{
    let mut text = string_of(&trim_ws(&chars_of(raw)));
    if formatting.remove_fillers {
        text = drop_fillers(text.as_str(), formatting.filler_words.as_slice());
    }
    if formatting.explicit_commands {
        text = replace_commands(text.as_str());
    }
    text = dictionary_pass(text.as_str(), terms);
    let e = expand_snippets(text.as_str(), snippets);
    Expansion { text: collapse_punctuation(e.text.as_str()), used: e.used }
}

} // verus!

verus! {

// ---------------------------------------------------------------------------
// Laws of the formatting rules
// ---------------------------------------------------------------------------

/// A dictionary term is looked for in any letter case. Applying one more
/// enabled term with a replacement rewrites, in the text as the earlier
/// terms left it, the matches of the regex `(?i)\bTERM\b`: the term (with
/// its meta characters escaped) as a whole word under the inline flag `(?i)`,
/// which makes the `regex` crate match it case-insensitively. An
/// abbreviation becomes its replacement exactly as configured; another
/// term takes over the case of each match it replaces.
pub proof fn law_dictionary_terms_match_in_any_case(
    text: Seq<char>,
    terms: Seq<DictionaryTerm>,
    t: DictionaryTerm,
)
    requires
        t.enabled,
        t.replacement is Some,
        regex_compiles("(?i)"@ + "\\b"@ + escaped(t.term@) + "\\b"@),
    ensures
        ({
            let any_case = "(?i)"@ + "\\b"@ + escaped(t.term@) + "\\b"@;
            let before = dictionary_applied(text, terms);
            let rep = t.replacement->Some_0@;
            dictionary_applied(text, terms.push(t)) == if t.is_abbreviation {
                regex_replace_all(any_case, before, rep)
            } else {
                replaced_keeping_case(before, regex_match_spans(any_case, before), rep)
            }
        }),
{
    assert(terms.push(t).drop_last() =~= terms);
}

/// A disabled term, or one without a replacement, leaves the text as the
/// earlier terms left it.
pub proof fn law_dictionary_skips_inactive_terms(
    text: Seq<char>,
    terms: Seq<DictionaryTerm>,
    t: DictionaryTerm,
)
    requires
        !t.enabled || t.replacement is None,
    ensures
        dictionary_applied(text, terms.push(t)) == dictionary_applied(text, terms),
{
    assert(terms.push(t).drop_last() =~= terms);
}

/// Every spoken command is replaced, in the order of the table: the rule
/// `n` turns, in the text the rules before it left, each whole-word match
/// of its phrase in any letter case (the regex `(?i)\s?\bPHRASE\b`, which
/// also takes one white-space character before the phrase) into what the
/// phrase stands for.
pub proof fn law_every_command_rule_applies(text: Seq<char>, n: nat)
    requires
        n < 14,
    ensures
        commands_replaced(text, 0) == text,
        commands_replaced(text, n + 1) == replaced(
            "(?i)\\s?"@ + "\\b"@ + escaped(COMMAND_PHRASES@[n as int]@) + "\\b"@,
            commands_replaced(text, n),
            COMMAND_REPLACEMENTS@[n as int]@,
        ),
{
}

/// The spoken commands and what each becomes, in the order they are
/// applied: paragraph and line breaks, `!`, `?`, `.`, `,`, a bullet, and
/// the Portuguese phrasings.
pub proof fn law_command_table()
    ensures
        COMMAND_PHRASES@.len() == 14,
        COMMAND_REPLACEMENTS@.len() == 14,
        COMMAND_PHRASES@[0]@ == "new paragraph"@ && COMMAND_REPLACEMENTS@[0]@ == "\n\n"@,
        COMMAND_PHRASES@[1]@ == "new line"@ && COMMAND_REPLACEMENTS@[1]@ == "\n"@,
        COMMAND_PHRASES@[2]@ == "exclamation mark"@ && COMMAND_REPLACEMENTS@[2]@ == "!"@,
        COMMAND_PHRASES@[3]@ == "question mark"@ && COMMAND_REPLACEMENTS@[3]@ == "?"@,
        COMMAND_PHRASES@[4]@ == "period"@ && COMMAND_REPLACEMENTS@[4]@ == "."@,
        COMMAND_PHRASES@[5]@ == "comma"@ && COMMAND_REPLACEMENTS@[5]@ == ","@,
        COMMAND_PHRASES@[6]@ == "bullet"@ && COMMAND_REPLACEMENTS@[6]@ == "• "@,
        COMMAND_PHRASES@[7]@ == "novo parágrafo"@ && COMMAND_REPLACEMENTS@[7]@ == "\n\n"@,
        COMMAND_PHRASES@[8]@ == "nova linha"@ && COMMAND_REPLACEMENTS@[8]@ == "\n"@,
        COMMAND_PHRASES@[9]@ == "ponto final"@ && COMMAND_REPLACEMENTS@[9]@ == "."@,
        COMMAND_PHRASES@[10]@ == "ponto"@ && COMMAND_REPLACEMENTS@[10]@ == "."@,
        COMMAND_PHRASES@[11]@ == "vírgula"@ && COMMAND_REPLACEMENTS@[11]@ == ","@,
        COMMAND_PHRASES@[12]@ == "interrogação"@ && COMMAND_REPLACEMENTS@[12]@ == "?"@,
        COMMAND_PHRASES@[13]@ == "exclamação"@ && COMMAND_REPLACEMENTS@[13]@ == "!"@,
{
}

} // verus!
