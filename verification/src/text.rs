//! Character-level text toolkit shared by the formatters and the drafter.
//!
//! Strings are handled as `Vec<char>` inside the library; the specs speak of
//! `Seq<char>`, which is also the view of `str` and `String`.
use vstd::prelude::*;

verus! {

// ---------------------------------------------------------------------------
// UTF-8 lengths
// ---------------------------------------------------------------------------

/// Number of bytes in the UTF-8 encoding of `c` (what `char::len_utf8` returns).
pub open spec fn char_utf8_len(c: char) -> nat {
    if (c as u32) < 0x80 {
        1
    } else if (c as u32) < 0x800 {
        2
    } else if (c as u32) < 0x10000 {
        3
    } else {
        4
    }
}

/// Number of bytes in the UTF-8 encoding of `s` (what `str::len` returns).
pub open spec fn utf8_len(s: Seq<char>) -> nat
    decreases s.len(),
{
    if s.len() == 0 {
        0
    } else {
        utf8_len(s.drop_last()) + char_utf8_len(s.last())
    }
}

pub proof fn lemma_utf8_len_bounds(s: Seq<char>)
    ensures
        s.len() <= utf8_len(s) <= 4 * s.len(),
    decreases s.len(),
{
    if s.len() > 0 {
        lemma_utf8_len_bounds(s.drop_last());
    }
}

pub proof fn lemma_utf8_len_take_step(s: Seq<char>, i: int)
    requires
        0 <= i < s.len(),
    ensures
        utf8_len(s.take(i + 1)) == utf8_len(s.take(i)) + char_utf8_len(s[i]),
{
    assert(s.take(i + 1).drop_last() =~= s.take(i));
}

pub proof fn lemma_utf8_len_concat(a: Seq<char>, b: Seq<char>)
    ensures
        utf8_len(a + b) == utf8_len(a) + utf8_len(b),
    decreases b.len(),
{
    if b.len() == 0 {
        assert(a + b =~= a);
    } else {
        assert((a + b).drop_last() =~= a + b.drop_last());
        lemma_utf8_len_concat(a, b.drop_last());
    }
}

/// The UTF-8 length of one character, computed.
pub fn char_len_utf8(c: char) -> (n: u128)
    ensures
        n == char_utf8_len(c),
{
    let u = c as u32;
    if u < 0x80 {
        1
    } else if u < 0x800 {
        2
    } else if u < 0x10000 {
        3
    } else {
        4
    }
}

/// The UTF-8 length of `v`, computed.
pub fn utf8_len_of(v: &Vec<char>) -> (n: u128)
    ensures
        n == utf8_len(v@),
        n <= 4 * v@.len(),
{
    proof {
        lemma_utf8_len_bounds(v@);
    }
    let mut n: u128 = 0;
    let mut i: usize = 0;
    while i < v.len()
        invariant
            i <= v.len(),
            n == utf8_len(v@.take(i as int)),
        decreases v.len() - i,
    {
        proof {
            lemma_utf8_len_take_step(v@, i as int);
            lemma_utf8_len_bounds(v@.take(i as int));
        }
        n = n + char_len_utf8(v[i]);
        i += 1;
    }
    assert(v@.take(v.len() as int) =~= v@);
    n
}

/// The number of leading characters of `s` that together take exactly `k`
/// bytes, or the first character count whose bytes exceed `k` when no prefix
/// ends exactly there.
pub open spec fn chars_in_bytes(s: Seq<char>, k: int) -> nat
    decreases s.len(),
{
    if s.len() == 0 || k <= 0 {
        0
    } else {
        1 + chars_in_bytes(s.drop_first(), k - char_utf8_len(s[0]))
    }
}

/// Whether byte offset `k` falls on a character boundary of `s`
/// (what `str::is_char_boundary` reports).
pub open spec fn is_byte_boundary(s: Seq<char>, k: int) -> bool {
    exists|i: int| 0 <= i <= s.len() && utf8_len(#[trigger] s.take(i)) == k
}

pub proof fn lemma_utf8_len_first(s: Seq<char>)
    requires
        s.len() > 0,
    ensures
        utf8_len(s) == char_utf8_len(s[0]) + utf8_len(s.drop_first()),
{
    lemma_utf8_len_concat(seq![s[0]], s.drop_first());
    assert(seq![s[0]] + s.drop_first() =~= s);
    assert(seq![s[0]].drop_last() =~= Seq::<char>::empty());
    assert(utf8_len(Seq::<char>::empty()) == 0);
    assert(utf8_len(seq![s[0]]) == char_utf8_len(s[0]));
}

pub proof fn lemma_chars_in_bytes_exact(s: Seq<char>, i: int)
    requires
        0 <= i <= s.len(),
        utf8_len(s.take(i)) > 0 || i == 0,
    ensures
        chars_in_bytes(s, utf8_len(s.take(i)) as int) == i,
    decreases i,
{
    if i == 0 {
    } else {
        lemma_utf8_len_first(s.take(i));
        assert(s.take(i).drop_first() =~= s.drop_first().take(i - 1));
        if i - 1 > 0 {
            lemma_utf8_len_bounds(s.drop_first().take(i - 1));
        }
        lemma_chars_in_bytes_exact(s.drop_first(), i - 1);
    }
}

/// Longer prefixes take more bytes.
pub proof fn lemma_utf8_len_take_mono(s: Seq<char>, i: int, j: int)
    requires
        0 <= i < j <= s.len(),
    ensures
        utf8_len(s.take(i)) < utf8_len(s.take(j)),
    decreases j - i,
{
    lemma_utf8_len_take_step(s, j - 1);
    if i < j - 1 {
        lemma_utf8_len_take_mono(s, i, j - 1);
    }
}

/// Two character boundaries in byte order are in the same order as
/// character positions, and the position of a boundary covers exactly its
/// bytes.
pub proof fn lemma_boundary_chars(s: Seq<char>, a: int, b: int)
    requires
        is_byte_boundary(s, a),
        is_byte_boundary(s, b),
        a <= b,
    ensures
        chars_in_bytes(s, a) <= chars_in_bytes(s, b) <= s.len(),
        utf8_len(s.take(chars_in_bytes(s, a) as int)) == a,
        utf8_len(s.take(chars_in_bytes(s, b) as int)) == b,
{
    let ia = choose|i: int| 0 <= i <= s.len() && utf8_len(#[trigger] s.take(i)) == a;
    let ib = choose|i: int| 0 <= i <= s.len() && utf8_len(#[trigger] s.take(i)) == b;
    lemma_utf8_len_bounds(s.take(ia));
    lemma_utf8_len_bounds(s.take(ib));
    lemma_chars_in_bytes_exact(s, ia);
    lemma_chars_in_bytes_exact(s, ib);
    if ia > ib {
        lemma_utf8_len_take_mono(s, ib, ia);
    }
}

/// Index of the character at which byte offset `k` of `v` starts (the
/// character count covered by the first `k` bytes, rounded up).
pub fn char_index_at_byte(v: &Vec<char>, k: u128) -> (i: usize)
    ensures
        i == chars_in_bytes(v@, k as int),
        i <= v.len(),
{
    let mut i: usize = 0;
    let mut rem: u128 = k;
    assert(v@.skip(0) =~= v@);
    while i < v.len() && rem > 0
        invariant
            i <= v.len(),
            chars_in_bytes(v@, k as int) == i + chars_in_bytes(v@.skip(i as int), rem as int),
        decreases v.len() - i,
    {
        let c = char_len_utf8(v[i]);
        assert(v@.skip(i as int).drop_first() =~= v@.skip(i + 1));
        assert(v@.skip(i as int)[0] == v@[i as int]);
        assert(chars_in_bytes(v@.skip(i as int), rem as int) == 1 + chars_in_bytes(
            v@.skip(i + 1),
            rem - c,
        ));
        if rem >= c {
            rem = rem - c;
        } else {
            rem = 0;
        }
        i += 1;
    }
    proof {
        if rem == 0 {
        } else {
            assert(v@.skip(i as int).len() == 0);
        }
    }
    i
}

// ---------------------------------------------------------------------------
// Whitespace and character classes
// ---------------------------------------------------------------------------

/// `char::is_whitespace`: the Unicode `White_Space` property.
pub open spec fn is_whitespace(c: char) -> bool {
    let u = c as u32;
    u == 0x20 || (0x09 <= u && u <= 0x0d) || u == 0x85 || u == 0xa0 || u == 0x1680 || (0x2000 <= u
        && u <= 0x200a) || u == 0x2028 || u == 0x2029 || u == 0x202f || u == 0x205f || u == 0x3000
}

pub fn char_is_whitespace(c: char) -> (b: bool)
    ensures
        b == is_whitespace(c),
{
    let u = c as u32;
    u == 0x20 || (0x09 <= u && u <= 0x0d) || u == 0x85 || u == 0xa0 || u == 0x1680 || (0x2000 <= u
        && u <= 0x200a) || u == 0x2028 || u == 0x2029 || u == 0x202f || u == 0x205f || u == 0x3000
}

/// `char::is_ascii_alphabetic`.
pub open spec fn is_ascii_alphabetic(c: char) -> bool {
    ('a' <= c && c <= 'z') || ('A' <= c && c <= 'Z')
}

/// What `char::is_alphanumeric` reports for `c` (Unicode `Alphabetic` or
/// `Numeric`).
pub uninterp spec fn alphanumeric(c: char) -> bool;

/// Calls `char::is_alphanumeric`; trusted to report [`alphanumeric`] of
/// `c`, Unicode's tables, which are not written out here.
#[verifier::external_body]
pub(crate) fn char_is_alphanumeric(c: char) -> (b: bool)
    ensures
        b == alphanumeric(c),
{
    c.is_alphanumeric()
}

/// The sets of characters the trimming helpers strip.
#[derive(Clone, Copy, Debug, PartialEq, Eq)]
pub enum CharClass {
    Whitespace,
    Exactly(char),
    CommaColonOrWhitespace,
    CommaOrWhitespace,
    NotAlphanumeric,
}

pub open spec fn in_class(cls: CharClass, c: char) -> bool {
    match cls {
        CharClass::Whitespace => is_whitespace(c),
        CharClass::Exactly(x) => c == x,
        CharClass::CommaColonOrWhitespace => c == ',' || c == ':' || is_whitespace(c),
        CharClass::CommaOrWhitespace => c == ',' || is_whitespace(c),
        CharClass::NotAlphanumeric => !alphanumeric(c),
    }
}

pub fn class_contains(cls: CharClass, c: char) -> (b: bool)
    ensures
        b == in_class(cls, c),
{
    match cls {
        CharClass::Whitespace => char_is_whitespace(c),
        CharClass::Exactly(x) => c == x,
        CharClass::CommaColonOrWhitespace => c == ',' || c == ':' || char_is_whitespace(c),
        CharClass::CommaOrWhitespace => c == ',' || char_is_whitespace(c),
        CharClass::NotAlphanumeric => !char_is_alphanumeric(c),
    }
}

// ---------------------------------------------------------------------------
// Trimming
// ---------------------------------------------------------------------------

/// Number of leading characters of `s` in `cls`.
pub open spec fn leading(s: Seq<char>, cls: CharClass) -> nat
    decreases s.len(),
{
    if s.len() > 0 && in_class(cls, s[0]) {
        1 + leading(s.drop_first(), cls)
    } else {
        0
    }
}

/// Number of trailing characters of `s` in `cls`.
pub open spec fn trailing(s: Seq<char>, cls: CharClass) -> nat
    decreases s.len(),
{
    if s.len() > 0 && in_class(cls, s.last()) {
        1 + trailing(s.drop_last(), cls)
    } else {
        0
    }
}

pub proof fn lemma_leading_le(s: Seq<char>, cls: CharClass)
    ensures
        leading(s, cls) <= s.len(),
    decreases s.len(),
{
    if s.len() > 0 && in_class(cls, s[0]) {
        lemma_leading_le(s.drop_first(), cls);
    }
}

pub proof fn lemma_trailing_le(s: Seq<char>, cls: CharClass)
    ensures
        trailing(s, cls) <= s.len(),
    decreases s.len(),
{
    if s.len() > 0 && in_class(cls, s.last()) {
        lemma_trailing_le(s.drop_last(), cls);
    }
}

/// `str::trim_start_matches` with a character class.
pub open spec fn trim_start_class(s: Seq<char>, cls: CharClass) -> Seq<char> {
    s.skip(leading(s, cls) as int)
}

/// `str::trim_end_matches` with a character class.
pub open spec fn trim_end_class(s: Seq<char>, cls: CharClass) -> Seq<char> {
    s.take(s.len() - trailing(s, cls))
}

/// `str::trim_matches` with a character class.
pub open spec fn trim_class(s: Seq<char>, cls: CharClass) -> Seq<char> {
    trim_end_class(trim_start_class(s, cls), cls)
}

/// `str::trim`.
pub open spec fn trim(s: Seq<char>) -> Seq<char> {
    trim_class(s, CharClass::Whitespace)
}

/// `str::trim_end`.
pub open spec fn trim_end(s: Seq<char>) -> Seq<char> {
    trim_end_class(s, CharClass::Whitespace)
}

proof fn lemma_leading_skip(s: Seq<char>, cls: CharClass)
    ensures
        leading(s.skip(leading(s, cls) as int), cls) == 0,
    decreases s.len(),
{
    if s.len() > 0 && in_class(cls, s[0]) {
        lemma_leading_skip(s.drop_first(), cls);
        lemma_leading_le(s.drop_first(), cls);
        assert(s.skip(leading(s, cls) as int) =~= s.drop_first().skip(
            leading(s.drop_first(), cls) as int,
        ));
    } else {
        assert(s.skip(0) =~= s);
    }
}

proof fn lemma_trailing_take(s: Seq<char>, cls: CharClass)
    ensures
        trailing(s.take(s.len() - trailing(s, cls)), cls) == 0,
    decreases s.len(),
{
    lemma_trailing_le(s, cls);
    if s.len() > 0 && in_class(cls, s.last()) {
        lemma_trailing_take(s.drop_last(), cls);
        assert(s.take(s.len() - trailing(s, cls)) =~= s.drop_last().take(
            s.drop_last().len() - trailing(s.drop_last(), cls),
        ));
    } else {
        assert(s.take(s.len() as int) =~= s);
    }
}

/// Trimming a trimmed text changes nothing.
pub proof fn lemma_trim_idempotent(s: Seq<char>)
    ensures
        trim(trim(s)) == trim(s),
{
    let cls = CharClass::Whitespace;
    let u = trim_start_class(s, cls);
    let t = trim(s);
    lemma_leading_le(s, cls);
    lemma_leading_skip(s, cls);
    lemma_trailing_le(u, cls);
    lemma_trailing_take(u, cls);
    assert(t == u.take(u.len() - trailing(u, cls)));
    if t.len() > 0 {
        assert(t[0] == u[0]);
        assert(leading(t, cls) == 0);
    } else {
        assert(leading(t, cls) == 0);
    }
    assert(trim_start_class(t, cls) =~= t);
    assert(trim(t) =~= t);
}

/// Characters `lo..hi` of `v`, copied.
pub fn copy_range(v: &Vec<char>, lo: usize, hi: usize) -> (out: Vec<char>)
    requires
        lo <= hi <= v.len(),
    ensures
        out@ == v@.subrange(lo as int, hi as int),
{
    let mut out: Vec<char> = Vec::new();
    let mut i = lo;
    while i < hi
        invariant
            lo <= i <= hi <= v.len(),
            out@ == v@.subrange(lo as int, i as int),
        decreases hi - i,
    {
        out.push(v[i]);
        assert(v@.subrange(lo as int, i + 1) =~= v@.subrange(lo as int, i as int).push(v@[i as int]));
        i += 1;
    }
    out
}

/// Appends `x` to `out`.
pub fn push_all(out: &mut Vec<char>, x: &Vec<char>)
    ensures
        final(out)@ == old(out)@ + x@,
{
    let mut i: usize = 0;
    while i < x.len()
        invariant
            i <= x.len(),
            out@ == old(out)@ + x@.take(i as int),
        decreases x.len() - i,
    {
        out.push(x[i]);
        assert(x@.take(i + 1) =~= x@.take(i as int).push(x@[i as int]));
        assert(old(out)@ + x@.take(i + 1) =~= (old(out)@ + x@.take(i as int)).push(x@[i as int]));
        i += 1;
    }
    assert(x@.take(x.len() as int) =~= x@);
}

/// Appends the characters of a string slice to `out`.
pub fn push_str(out: &mut Vec<char>, s: &str)
    ensures
        final(out)@ == old(out)@ + s@,
{
    let v = chars_of(s);
    push_all(out, &v);
}

/// The number of leading characters of `v` in `cls`.
pub fn leading_count(v: &Vec<char>, cls: CharClass) -> (n: usize)
    ensures
        n == leading(v@, cls),
        n <= v.len(),
{
    let mut i: usize = 0;
    assert(v@.skip(0) =~= v@);
    while i < v.len() && class_contains(cls, v[i])
        invariant
            i <= v.len(),
            leading(v@, cls) == i + leading(v@.skip(i as int), cls),
        decreases v.len() - i,
    {
        assert(v@.skip(i as int).drop_first() =~= v@.skip(i + 1));
        i += 1;
    }
    proof {
        if i < v.len() {
            assert(v@.skip(i as int)[0] == v@[i as int]);
        }
    }
    i
}

/// The number of trailing characters of `v` in `cls`.
pub fn trailing_count(v: &Vec<char>, cls: CharClass) -> (n: usize)
    ensures
        n == trailing(v@, cls),
        n <= v.len(),
{
    let mut k: usize = v.len();
    assert(v@.take(v.len() as int) =~= v@);
    while k > 0 && class_contains(cls, v[k - 1])
        invariant
            k <= v.len(),
            trailing(v@, cls) == (v.len() - k) + trailing(v@.take(k as int), cls),
        decreases k,
    {
        assert(v@.take(k as int).drop_last() =~= v@.take(k - 1));
        k -= 1;
    }
    proof {
        assert(v@.take(v.len() as int) =~= v@);
    }
    v.len() - k
}

/// `trim_start_matches` over a class.
pub fn trim_start_by(v: &Vec<char>, cls: CharClass) -> (out: Vec<char>)
    ensures
        out@ == trim_start_class(v@, cls),
{
    let n = leading_count(v, cls);
    let out = copy_range(v, n, v.len());
    assert(out@ =~= v@.skip(n as int));
    out
}

/// `trim_end_matches` over a class.
pub fn trim_end_by(v: &Vec<char>, cls: CharClass) -> (out: Vec<char>)
    ensures
        out@ == trim_end_class(v@, cls),
{
    let n = trailing_count(v, cls);
    let out = copy_range(v, 0, v.len() - n);
    assert(out@ =~= v@.take(v.len() - n));
    out
}

/// `trim_matches` over a class.
pub fn trim_by(v: &Vec<char>, cls: CharClass) -> (out: Vec<char>)
    ensures
        out@ == trim_class(v@, cls),
{
    let a = trim_start_by(v, cls);
    trim_end_by(&a, cls)
}

/// `str::trim`.
pub fn trim_ws(v: &Vec<char>) -> (out: Vec<char>)
    ensures
        out@ == trim(v@),
{
    trim_by(v, CharClass::Whitespace)
}

// ---------------------------------------------------------------------------
// Prefixes, searching, replacing
// ---------------------------------------------------------------------------

/// `p` occurs in `s` at character index `i`.
pub open spec fn occurs_at(s: Seq<char>, p: Seq<char>, i: int) -> bool {
    0 <= i && i + p.len() <= s.len() && s.subrange(i, i + p.len()) == p
}

/// `str::starts_with` with a string pattern.
pub open spec fn starts_with(s: Seq<char>, p: Seq<char>) -> bool {
    occurs_at(s, p, 0)
}

/// `str::ends_with` with a string pattern.
pub open spec fn ends_with(s: Seq<char>, p: Seq<char>) -> bool {
    occurs_at(s, p, s.len() - p.len())
}

/// First character index at or after `from` where `p` occurs in `s`.
pub open spec fn find_from(s: Seq<char>, p: Seq<char>, from: int) -> Option<int>
    decreases s.len() + 1 - from,
{
    if from < 0 || from + p.len() > s.len() {
        None
    } else if occurs_at(s, p, from) {
        Some(from)
    } else {
        find_from(s, p, from + 1)
    }
}

/// First character index where `p` occurs in `s` (`str::find`, counted in
/// characters instead of bytes).
pub open spec fn find(s: Seq<char>, p: Seq<char>) -> Option<int> {
    find_from(s, p, 0)
}

/// `str::contains`.
pub open spec fn contains(s: Seq<char>, p: Seq<char>) -> bool {
    find(s, p) is Some
}

pub proof fn lemma_find_from_facts(s: Seq<char>, p: Seq<char>, from: int)
    requires
        0 <= from,
    ensures
        find_from(s, p, from) matches Some(i) ==> from <= i && occurs_at(s, p, i) && forall|j: int|
            from <= j < i ==> !occurs_at(s, p, j),
        find_from(s, p, from) is None ==> forall|j: int| from <= j ==> !occurs_at(s, p, j),
    decreases s.len() + 1 - from,
{
    if from + p.len() > s.len() {
    } else if occurs_at(s, p, from) {
    } else {
        lemma_find_from_facts(s, p, from + 1);
    }
}

/// Whether `p` occurs in `v` at index `i`, computed.
pub fn matches_at(v: &Vec<char>, p: &Vec<char>, i: usize) -> (b: bool)
    ensures
        b == occurs_at(v@, p@, i as int),
{
    if i > v.len() || p.len() > v.len() - i {
        return false;
    }
    let mut k: usize = 0;
    while k < p.len()
        invariant
            i + p.len() <= v.len(),
            k <= p.len(),
            forall|j: int| 0 <= j < k ==> v@[i + j] == p@[j],
        decreases p.len() - k,
    {
        if v[i + k] != p[k] {
            assert(v@.subrange(i as int, i + p.len())[k as int] != p@[k as int]);
            return false;
        }
        k += 1;
    }
    assert(v@.subrange(i as int, i + p.len()) =~= p@);
    true
}

/// `str::starts_with`, computed.
pub fn starts_with_chars(v: &Vec<char>, p: &Vec<char>) -> (b: bool)
    ensures
        b == starts_with(v@, p@),
{
    matches_at(v, p, 0)
}

/// `str::ends_with`, computed.
pub fn ends_with_chars(v: &Vec<char>, p: &Vec<char>) -> (b: bool)
    ensures
        b == ends_with(v@, p@),
{
    if p.len() > v.len() {
        false
    } else {
        matches_at(v, p, v.len() - p.len())
    }
}

/// First character index of `p` in `v` at or after `from`.
pub fn find_chars_from(v: &Vec<char>, p: &Vec<char>, from: usize) -> (r: Option<usize>)
    ensures
        r matches Some(i) ==> find_from(v@, p@, from as int) == Some(i as int) && from <= i && i
            + p.len() <= v.len(),
        r is None ==> find_from(v@, p@, from as int) is None,
{
    if p.len() == 0 {
        if from <= v.len() {
            assert(v@.subrange(from as int, from as int) =~= p@);
            return Some(from);
        }
        return None;
    }
    let mut i = from;
    while i <= v.len() && p.len() <= v.len() - i
        invariant
            from <= i,
            p.len() > 0,
            find_from(v@, p@, from as int) == find_from(v@, p@, i as int),
        decreases v.len() + 1 - i,
    {
        if matches_at(v, p, i) {
            return Some(i);
        }
        i += 1;
    }
    None
}

/// `str::find`, counted in characters.
pub fn find_chars(v: &Vec<char>, p: &Vec<char>) -> (r: Option<usize>)
    ensures
        r matches Some(i) ==> find(v@, p@) == Some(i as int) && i + p.len() <= v.len(),
        r is None ==> find(v@, p@) is None,
{
    find_chars_from(v, p, 0)
}

/// `str::contains`, computed.
pub fn contains_chars(v: &Vec<char>, p: &Vec<char>) -> (b: bool)
    ensures
        b == contains(v@, p@),
{
    find_chars(v, p).is_some()
}

/// `str::replace` with a non-empty pattern: every left-to-right,
/// non-overlapping occurrence of `p` is replaced by `r`.
pub open spec fn replace(s: Seq<char>, p: Seq<char>, r: Seq<char>) -> Seq<char>
    recommends
        p.len() > 0,
    decreases s.len(),
{
    if s.len() == 0 {
        s
    } else if p.len() > 0 && starts_with(s, p) {
        r + replace(s.skip(p.len() as int), p, r)
    } else {
        seq![s[0]] + replace(s.drop_first(), p, r)
    }
}

/// `str::replace`, computed (the pattern must not be empty).
pub fn replace_chars(v: &Vec<char>, p: &Vec<char>, r: &Vec<char>) -> (out: Vec<char>)
    requires
        p.len() > 0,
    ensures
        out@ == replace(v@, p@, r@),
{
    let mut out: Vec<char> = Vec::new();
    let mut i: usize = 0;
    assert(v@.skip(0) =~= v@);
    while i < v.len()
        invariant
            i <= v.len(),
            p.len() > 0,
            out@ + replace(v@.skip(i as int), p@, r@) == replace(v@, p@, r@),
        decreases v.len() - i,
    {
        let ghost rest = v@.skip(i as int);
        if matches_at(v, p, i) {
            assert(rest.take(p.len() as int) =~= v@.subrange(i as int, i + p.len()));
            assert(rest.skip(p.len() as int) =~= v@.skip(i + p.len()));
            push_all(&mut out, r);
            i += p.len();
        } else {
            assert(!starts_with(rest, p@)) by {
                if starts_with(rest, p@) {
                    assert(rest.subrange(0, p.len() as int) =~= v@.subrange(i as int, i + p.len()));
                }
            }
            assert(rest.drop_first() =~= v@.skip(i + 1));
            out.push(v[i]);
            i += 1;
        }
        assert(out@ + replace(v@.skip(i as int), p@, r@) =~= replace(v@, p@, r@));
    }
    assert(v@.skip(i as int) =~= Seq::<char>::empty());
    assert(out@ + Seq::<char>::empty() =~= out@);
    out
}

// ---------------------------------------------------------------------------
// Splitting and joining
// ---------------------------------------------------------------------------

/// A line of `str::lines`: the trailing `\r` of a `\r\n` ending is dropped.
pub open spec fn strip_cr(s: Seq<char>) -> Seq<char> {
    if s.len() > 0 && s.last() == '\r' {
        s.drop_last()
    } else {
        s
    }
}

/// `str::lines`: split at `\n`, a final line ending is optional and a line
/// ending in `\r\n` loses its `\r`.
pub open spec fn lines(s: Seq<char>) -> Seq<Seq<char>>
    decreases s.len(),
{
    if s.len() == 0 {
        Seq::empty()
    } else {
        match find(s, seq!['\n']) {
            Some(i) => if 0 <= i < s.len() {
                seq![strip_cr(s.take(i))] + lines(s.skip(i + 1))
            } else {
                Seq::empty()
            },
            None => seq![s],
        }
    }
}

/// `str::lines`, computed.
pub fn lines_of(v: &Vec<char>) -> (out: Vec<Vec<char>>)
    ensures
        out@.map_values(|l: Vec<char>| l@) == lines(v@),
{
    let mut out: Vec<Vec<char>> = Vec::new();
    let mut start: usize = 0;
    let nl: Vec<char> = vec!['\n'];
    assert(v@.skip(0) =~= v@);
    while start < v.len()
        invariant
            start <= v.len(),
            nl@ == seq!['\n'],
            out@.map_values(|l: Vec<char>| l@) + lines(v@.skip(start as int)) == lines(v@),
        decreases v.len() - start,
    {
        let ghost rest = v@.skip(start as int);
        let pos = find_chars_from(v, &nl, start);
        proof {
            lemma_find_from_facts(v@, nl@, start as int);
            lemma_find_from_facts(rest, nl@, 0);
        }
        match pos {
            Some(j) => {
                assert(find(rest, seq!['\n']) == Some(j - start)) by {
                    lemma_find_shift(v@, nl@, start as int);
                }
                let mut line = copy_range(v, start, j);
                if line.len() > 0 && line[line.len() - 1] == '\r' {
                    line.pop();
                }
                assert(line@ =~= strip_cr(rest.take(j - start)));
                assert(rest.skip(j - start + 1) =~= v@.skip(j + 1));
                let ghost before = out@;
                out.push(line);
                assert(out@.map_values(|l: Vec<char>| l@) =~= before.map_values(|l: Vec<char>| l@)
                    + seq![line@]);
                start = j + 1;
            },
            None => {
                assert(find(rest, seq!['\n']) is None) by {
                    lemma_find_shift(v@, nl@, start as int);
                }
                let line = copy_range(v, start, v.len());
                assert(line@ =~= rest);
                let ghost before = out@;
                out.push(line);
                assert(out@.map_values(|l: Vec<char>| l@) =~= before.map_values(|l: Vec<char>| l@)
                    + seq![line@]);
                assert(v@.skip(v.len() as int) =~= Seq::<char>::empty());
                start = v.len();
            },
        }
    }
    assert(v@.skip(start as int) =~= Seq::<char>::empty());
    assert(out@.map_values(|l: Vec<char>| l@) + Seq::<Seq<char>>::empty() =~= out@.map_values(
        |l: Vec<char>| l@,
    ));
    out
}

pub proof fn lemma_find_shift(s: Seq<char>, p: Seq<char>, start: int)
    requires
        0 <= start <= s.len(),
    ensures
        find_from(s, p, start) matches Some(j) ==> find(s.skip(start), p) == Some(j - start),
        find_from(s, p, start) is None ==> find(s.skip(start), p) is None,
{
    lemma_find_shift_from(s, p, start, 0);
}

proof fn lemma_find_shift_from(s: Seq<char>, p: Seq<char>, start: int, k: int)
    requires
        0 <= start <= s.len(),
        0 <= k,
    ensures
        find_from(s, p, start + k) matches Some(j) ==> find_from(s.skip(start), p, k) == Some(j
            - start),
        find_from(s, p, start + k) is None ==> find_from(s.skip(start), p, k) is None,
    decreases s.len() + 1 - start - k,
{
    let t = s.skip(start);
    if start + k + p.len() > s.len() {
    } else {
        assert(t.subrange(k, k + p.len()) =~= s.subrange(start + k, start + k + p.len()));
        if occurs_at(s, p, start + k) {
        } else {
            lemma_find_shift_from(s, p, start, k + 1);
        }
    }
}

/// `parts` joined with `sep` between consecutive parts (`[T]::join`).
pub open spec fn join(parts: Seq<Seq<char>>, sep: Seq<char>) -> Seq<char>
    decreases parts.len(),
{
    if parts.len() == 0 {
        Seq::empty()
    } else if parts.len() == 1 {
        parts[0]
    } else {
        join(parts.drop_last(), sep) + sep + parts.last()
    }
}

/// `[T]::join`, computed.
pub fn join_chars(parts: &Vec<Vec<char>>, sep: &Vec<char>) -> (out: Vec<char>)
    ensures
        out@ == join(parts@.map_values(|l: Vec<char>| l@), sep@),
{
    let ghost ps = parts@.map_values(|l: Vec<char>| l@);
    let mut out: Vec<char> = Vec::new();
    let mut i: usize = 0;
    while i < parts.len()
        invariant
            i <= parts.len(),
            ps == parts@.map_values(|l: Vec<char>| l@),
            out@ == join(ps.take(i as int), sep@),
        decreases parts.len() - i,
    {
        assert(ps.take(i + 1).drop_last() =~= ps.take(i as int));
        if i > 0 {
            push_all(&mut out, sep);
        } else {
            assert(join(ps.take(0), sep@) =~= Seq::<char>::empty());
        }
        push_all(&mut out, &parts[i]);
        assert(out@ =~= join(ps.take(i + 1), sep@));
        i += 1;
    }
    assert(ps.take(parts.len() as int) =~= ps);
    out
}

/// Maximal runs of non-whitespace characters (`str::split_whitespace`),
/// gathered from position `i` on, given a word `cur` already in progress.
pub open spec fn words_from(s: Seq<char>, cur: Seq<char>) -> Seq<Seq<char>>
    decreases s.len(),
{
    if s.len() == 0 {
        if cur.len() > 0 {
            seq![cur]
        } else {
            Seq::empty()
        }
    } else if is_whitespace(s[0]) {
        if cur.len() > 0 {
            seq![cur] + words_from(s.drop_first(), Seq::empty())
        } else {
            words_from(s.drop_first(), Seq::empty())
        }
    } else {
        words_from(s.drop_first(), cur.push(s[0]))
    }
}

/// `str::split_whitespace`.
pub open spec fn split_whitespace(s: Seq<char>) -> Seq<Seq<char>> {
    words_from(s, Seq::empty())
}

/// `str::split_whitespace`, computed.
pub fn split_whitespace_chars(v: &Vec<char>) -> (out: Vec<Vec<char>>)
    ensures
        out@.map_values(|l: Vec<char>| l@) == split_whitespace(v@),
{
    let mut out: Vec<Vec<char>> = Vec::new();
    let mut cur: Vec<char> = Vec::new();
    let mut i: usize = 0;
    assert(v@.skip(0) =~= v@);
    while i < v.len()
        invariant
            i <= v.len(),
            out@.map_values(|l: Vec<char>| l@) + words_from(v@.skip(i as int), cur@)
                == split_whitespace(v@),
        decreases v.len() - i,
    {
        let ghost before = out@;
        let ghost rest = v@.skip(i as int);
        let ghost cur0 = cur@;
        assert(rest.drop_first() =~= v@.skip(i + 1));
        assert(rest[0] == v@[i as int]);
        if char_is_whitespace(v[i]) {
            if cur.len() > 0 {
                assert(words_from(rest, cur0) == seq![cur0] + words_from(rest.drop_first(), Seq::empty()));
                let w = cur;
                cur = Vec::new();
                out.push(w);
                assert(out@.map_values(|l: Vec<char>| l@) =~= before.map_values(|l: Vec<char>| l@)
                    + seq![w@]);
                assert(out@.map_values(|l: Vec<char>| l@) + words_from(v@.skip(i + 1), cur@)
                    =~= before.map_values(|l: Vec<char>| l@) + words_from(rest, cur0));
            } else {
                assert(words_from(rest, cur0) == words_from(rest.drop_first(), Seq::empty()));
                assert(cur@ =~= Seq::<char>::empty());
            }
        } else {
            assert(words_from(rest, cur0) == words_from(rest.drop_first(), cur0.push(v@[i as int])));
            cur.push(v[i]);
        }
        i += 1;
    }
    assert(v@.skip(i as int) =~= Seq::<char>::empty());
    if cur.len() > 0 {
        let ghost before = out@;
        let w = cur;
        out.push(w);
        assert(out@.map_values(|l: Vec<char>| l@) =~= before.map_values(|l: Vec<char>| l@) + seq![
            w@
        ]);
    } else {
        assert(out@.map_values(|l: Vec<char>| l@) + Seq::<Seq<char>>::empty() =~= out@.map_values(
            |l: Vec<char>| l@,
        ));
    }
    out
}

// ---------------------------------------------------------------------------
// Case mapping (std, Unicode tables)
// ---------------------------------------------------------------------------

/// What `str::to_lowercase` returns for `s`.
pub uninterp spec fn lowercase(s: Seq<char>) -> Seq<char>;

/// Calls `str::to_lowercase`; trusted to return [`lowercase`] of `s`, the
/// Unicode lower-case mapping, which is not written out here.
#[verifier::external_body]
pub(crate) fn str_to_lowercase(s: &str) -> (r: String)
    ensures
        r@ == lowercase(s@),
{
    s.to_lowercase()
}

/// `str::to_lowercase` over characters.
pub fn lowercase_chars(v: &Vec<char>) -> (out: Vec<char>)
    ensures
        out@ == lowercase(v@),
{
    let s = string_of(v);
    let l = str_to_lowercase(s.as_str());
    chars_of(l.as_str())
}

/// What `str::to_uppercase` returns for `s`.
pub uninterp spec fn uppercase(s: Seq<char>) -> Seq<char>;

/// Calls `str::to_uppercase`; trusted to return [`uppercase`] of `s`, the
/// Unicode upper-case mapping, which is not written out here.
#[verifier::external_body]
pub(crate) fn str_to_uppercase(s: &str) -> (r: String)
    ensures
        r@ == uppercase(s@),
{
    s.to_uppercase()
}

/// What `char::is_uppercase` reports for `c` (Unicode `Uppercase`).
pub uninterp spec fn is_uppercase(c: char) -> bool;

/// Calls `char::is_uppercase`; trusted to report [`is_uppercase`] of `c`,
/// Unicode's `Uppercase` property, which is not written out here.
#[verifier::external_body]
pub(crate) fn char_is_uppercase(c: char) -> (b: bool)
    ensures
        b == is_uppercase(c),
{
    c.is_uppercase()
}

/// What `char::to_uppercase` yields for `c`.
pub uninterp spec fn char_uppercase(c: char) -> Seq<char>;

/// Calls `char::to_uppercase` and collects it; trusted to return
/// [`char_uppercase`] of `c`, the Unicode mapping, not written out here.
#[verifier::external_body]
pub(crate) fn char_to_uppercase(c: char) -> (r: String)
    ensures
        r@ == char_uppercase(c),
{
    c.to_uppercase().collect()
}

// ---------------------------------------------------------------------------
// Conversions
// ---------------------------------------------------------------------------

/// The characters of `s`, in order.
pub fn chars_of(s: &str) -> (out: Vec<char>)
    ensures
        out@ == s@,
{
    let mut out: Vec<char> = Vec::new();
    for c in it: s.chars()
        invariant
            out@ == it.seq().take(it.index() as int),
            it.seq() == s@,
    {
        out.push(c);
    }
    out
}

/// Calls `String::push`; trusted to append `c` to the text and change
/// nothing else.
#[verifier::external_body]
fn string_push(s: &mut String, c: char)
    ensures
        final(s)@ == old(s)@.push(c),
{
    s.push(c);
}

/// The string made of `v`'s characters.
pub fn string_of(v: &Vec<char>) -> (out: String)
    ensures
        out@ == v@,
{
    let mut out = String::new();
    let mut i: usize = 0;
    while i < v.len()
        invariant
            i <= v.len(),
            out@ == v@.take(i as int),
        decreases v.len() - i,
    {
        string_push(&mut out, v[i]);
        assert(v@.take(i + 1) =~= v@.take(i as int).push(v@[i as int]));
        i += 1;
    }
    assert(v@.take(v.len() as int) =~= v@);
    out
}

/// Copies a string slice into an owned string.
pub fn owned(s: &str) -> (out: String)
    ensures
        out@ == s@,
{
    let v = chars_of(s);
    string_of(&v)
}


/// Character-wise equality of two texts.
pub fn eq_chars(a: &Vec<char>, b: &Vec<char>) -> (r: bool)
    ensures
        r == (a@ == b@),
{
    if a.len() != b.len() {
        return false;
    }
    let mut i: usize = 0;
    while i < a.len()
        invariant
            a.len() == b.len(),
            i <= a.len(),
            forall|j: int| 0 <= j < i ==> a@[j] == b@[j],
        decreases a.len() - i,
    {
        if a[i] != b[i] {
            return false;
        }
        i += 1;
    }
    assert(a@ =~= b@);
    true
}

/// Whether `v` equals the string slice `s`.
pub fn eq_str(v: &Vec<char>, s: &str) -> (r: bool)
    ensures
        r == (v@ == s@),
{
    let w = chars_of(s);
    eq_chars(v, &w)
}

/// Whether some entry of `list` equals `m`.
pub open spec fn listed(list: Seq<&str>, m: Seq<char>) -> bool {
    exists|i: int| 0 <= i < list.len() && list[i]@ == m
}

/// Whether some entry of `list` equals `m`, computed.
pub fn list_contains(list: &[&str], m: &Vec<char>) -> (r: bool)
    ensures
        r == listed(list@, m@),
{
    let mut i: usize = 0;
    while i < list.len()
        invariant
            i <= list.len(),
            forall|j: int| 0 <= j < i ==> list@[j]@ != m@,
        decreases list.len() - i,
    {
        if eq_str(m, list[i]) {
            return true;
        }
        i += 1;
    }
    false
}

// ---------------------------------------------------------------------------
// Numbers
// ---------------------------------------------------------------------------

/// The ASCII digit for `d < 10`.
pub open spec fn digit(d: nat) -> char {
    ((48 + d) as u32) as char
}

/// Decimal notation of `n` (what `Display` writes for an unsigned integer).
pub open spec fn decimal(n: nat) -> Seq<char>
    decreases n,
{
    if n < 10 {
        seq![digit(n)]
    } else {
        decimal(n / 10).push(digit(n % 10))
    }
}

/// Decimal notation of `n`.
pub fn decimal_chars(n: u64) -> (out: Vec<char>)
    ensures
        out@ == decimal(n as nat),
        out@.len() > 0,
    decreases n,
{
    let d = n % 10;
    let c: char = if d == 0 {
        '0'
    } else if d == 1 {
        '1'
    } else if d == 2 {
        '2'
    } else if d == 3 {
        '3'
    } else if d == 4 {
        '4'
    } else if d == 5 {
        '5'
    } else if d == 6 {
        '6'
    } else if d == 7 {
        '7'
    } else if d == 8 {
        '8'
    } else {
        '9'
    };
    assert(c == digit(d as nat));
    if n < 10 {
        vec![c]
    } else {
        let mut out = decimal_chars(n / 10);
        out.push(c);
        out
    }
}

} // verus!
