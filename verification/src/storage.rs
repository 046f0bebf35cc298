//! Records kept in the application's database, and the decisions that the
//! storage layer makes over them (streaks, purging to a word cap).
use vstd::prelude::*;

verus! {

/// A dictionary entry: `term` is rewritten to `replacement` when set.
#[derive(Debug, Clone, PartialEq)]
pub struct DictionaryTerm {
    pub id: i64,
    pub created_at: i64,
    pub updated_at: i64,
    pub term: String,
    pub replacement: Option<String>,
    pub is_abbreviation: bool,
    pub auto_added: bool,
    pub enabled: bool,
}

/// A snippet: `trigger` at the start of a phrase expands to `expansion`.
#[derive(Debug, Clone, PartialEq)]
pub struct Snippet {
    pub id: i64,
    pub created_at: i64,
    pub updated_at: i64,
    pub trigger: String,
    pub expansion: String,
    pub description: Option<String>,
    pub enabled: bool,
    pub use_count: i64,
}

/// A new dictionary entry, or the new values of an existing one.
#[derive(Debug, Clone, PartialEq)]
pub struct NewDictionaryTerm<'a> {
    pub term: &'a str,
    pub replacement: Option<&'a str>,
    pub is_abbreviation: bool,
    pub auto_added: bool,
    pub enabled: bool,
}

/// A new snippet, or the new values of an existing one.
#[derive(Debug, Clone, PartialEq)]
pub struct NewSnippet<'a> {
    pub trigger: &'a str,
    pub expansion: &'a str,
    pub description: Option<&'a str>,
    pub enabled: bool,
}

/// A word seen in transcripts that may become a dictionary entry.
#[derive(Debug, Clone, PartialEq)]
pub struct AutoAddCandidate {
    pub term: String,
    pub seen_count: i64,
    pub last_seen_at: i64,
}

/// A scratchpad note.
#[derive(Debug, Clone, PartialEq)]
pub struct ScratchpadNote {
    pub id: i64,
    pub created_at: i64,
    pub updated_at: i64,
    pub title: Option<String>,
    pub body: String,
    pub pinned: bool,
}

/// A new scratchpad note, or the new values of an existing one.
#[derive(Debug, Clone, PartialEq)]
pub struct NewNote<'a> {
    pub title: Option<&'a str>,
    pub body: &'a str,
    pub pinned: bool,
}

/// A stored transcription.
#[derive(Debug, Clone, PartialEq)]
pub struct Transcription {
    pub id: i64,
    pub created_at: i64,
    pub raw_text: String,
    pub final_text: String,
    pub word_count: i64,
    pub duration_ms: i64,
    pub language: String,
    pub engine: String,
    pub model: Option<String>,
    pub app_context: Option<String>,
    pub mode: String,
    pub enhanced: bool,
}

/// A transcription to store.
#[derive(Debug, Clone, PartialEq)]
pub struct NewTranscription<'a> {
    pub created_at: i64,
    pub raw_text: &'a str,
    pub final_text: &'a str,
    pub word_count: i64,
    pub duration_ms: i64,
    pub language: &'a str,
    pub engine: &'a str,
    pub model: Option<&'a str>,
    pub app_context: Option<&'a str>,
    pub mode: &'a str,
    pub enhanced: bool,
}

/// Totals over all days.
#[derive(Debug, Clone, Copy, PartialEq, Eq)]
pub struct Totals {
    pub word_count: i64,
    pub session_count: i64,
    pub total_duration_ms: i64,
}

/// The application-metadata key that records a finished first-boot setup.
pub const WIZARD_COMPLETED_KEY: &'static str = "wizard_completed";

/// Whether the stored value of [`WIZARD_COMPLETED_KEY`] marks the setup
/// finished: exactly `1`.
pub fn wizard_completed(value: Option<&str>) -> (b: bool)
    ensures
        b == (value matches Some(v) && v@ == "1"@),
{
    match value {
        Some(v) => crate::text::eq_str(&crate::text::chars_of("1"), v) ,
        None => false,
    }
}

} // verus!

verus! {

// ---------------------------------------------------------------------------
// Streaks
// ---------------------------------------------------------------------------

/// The day number (Julian day) of an ISO 8601 calendar date, when
/// `time::Date::parse` with the ISO 8601 date format accepts `s`.
pub uninterp spec fn iso_day_number(s: Seq<char>) -> Option<i32>;

/// Calls `time::Date::parse(s, Iso8601::DATE)` and takes the Julian day;
/// trusted to return [`iso_day_number`] of `s`. Which texts the crate
/// accepts is not written out here.
#[verifier::external_body]
fn iso_day(s: &str) -> (r: Option<i32>)
    ensures
        r == iso_day_number(s@),
{
    time::Date::parse(s, &time::format_description::well_known::Iso8601::DATE).ok().map(
        |d| d.to_julian_day(),
    )
}

/// Dictation streaks, in days.
#[derive(Debug, Clone, Copy, PartialEq, Eq)]
pub struct StreakInfo {
    pub current: i64,
    pub longest: i64,
}

/// The day numbers of the dates in `days` that parse, in order.
pub open spec fn parsed_days(days: Seq<Seq<char>>) -> Seq<int>
    decreases days.len(),
{
    if days.len() == 0 {
        Seq::empty()
    } else {
        match iso_day_number(days.last()) {
            Some(d) => parsed_days(days.drop_last()).push(d as int),
            None => parsed_days(days.drop_last()),
        }
    }
}

/// Day numbers as integers.
pub open spec fn day_numbers(ds: Seq<i64>) -> Seq<int> {
    ds.map_values(|x: i64| x as int)
}

/// Whether `ds[i..i + len]` are consecutive days.
pub open spec fn is_run(ds: Seq<int>, i: int, len: int) -> bool {
    &&& 0 <= i
    &&& 0 <= len
    &&& i + len <= ds.len()
    &&& forall|k: int| i < k < i + len ==> #[trigger] ds[k] == ds[k - 1] + 1
}

/// Whether `today`, and each of the `n - 1` days before it, are in `s`.
pub open spec fn active_back(s: Set<int>, today: int, n: int) -> bool {
    forall|j: int| 0 <= j < n ==> #[trigger] s.contains(today - j)
}

/// Whether `info` gives the streaks of the dates `days` seen from
/// `today`: `longest` is the longest run of consecutive days among the
/// parsed dates, in their order, and `current` the number of days up to
/// and including `today` that are all among them.
pub open spec fn streaks_of(info: StreakInfo, ds: Seq<int>, today: int) -> bool {
    &&& (ds.len() > 0 ==> exists|i: int| #[trigger] is_run(ds, i, info.longest as int))
    &&& ds.len() == 0 ==> info.longest == 0
    &&& forall|i: int, len: int| #[trigger] is_run(ds, i, len) ==> len <= info.longest
    &&& info.current >= 0
    &&& active_back(ds.to_set(), today, info.current as int)
    &&& !ds.to_set().contains(today - info.current)
}

fn parse_days(days: &[String]) -> (out: Vec<i64>)
    ensures
        day_numbers(out@) == parsed_days(days@.map_values(|s: String| s@)),
        forall|k: int| 0 <= k < out.len() ==> i32::MIN <= #[trigger] out@[k] <= i32::MAX,
{
    let ghost src = days@.map_values(|s: String| s@);
    let mut out: Vec<i64> = Vec::new();
    let mut i: usize = 0;
    while i < days.len()
        invariant
            i <= days.len(),
            src == days@.map_values(|s: String| s@),
            day_numbers(out@) == parsed_days(src.take(i as int)),
            forall|k: int| 0 <= k < out.len() ==> i32::MIN <= #[trigger] out@[k] <= i32::MAX,
        decreases days.len() - i,
    {
        assert(src.take(i + 1).drop_last() =~= src.take(i as int));
        assert(src.take(i + 1).last() == days@[i as int]@);
        let ghost before = out@;
        match iso_day(days[i].as_str()) {
            Some(d) => {
                out.push(d as i64);
                assert(day_numbers(out@) =~= day_numbers(before).push(d as int));
            },
            None => {},
        }
        i += 1;
    }
    assert(src.take(days.len() as int) =~= src);
    out
}

fn contains_day(ds: &Vec<i64>, d: i128) -> (b: bool)
    ensures
        b == day_numbers(ds@).to_set().contains(d as int),
{
    let ghost s = day_numbers(ds@);
    let mut i: usize = 0;
    while i < ds.len()
        invariant
            i <= ds.len(),
            s == day_numbers(ds@),
            forall|k: int| 0 <= k < i ==> s[k] != d,
        decreases ds.len() - i,
    {
        if ds[i] as i128 == d {
            assert(s.to_set().contains(s[i as int]));
            return true;
        }
        i += 1;
    }
    proof {
        if s.to_set().contains(d as int) {
            let k = choose|k: int| 0 <= k < s.len() && s[k] == d;
            assert(s[k] != d);
        }
    }
    false
}

/// A run that stops at `j - 1` and cannot be extended to the left.
pub open spec fn maximal_run_ending(ds: Seq<int>, j: int, run: int) -> bool {
    &&& is_run(ds, j - run, run)
    &&& run >= 1
    &&& (j - run == 0 || ds[j - run] != ds[j - run - 1] + 1)
}

proof fn lemma_runs_ending_bounded(ds: Seq<int>, j: int, run: int, i: int, len: int)
    requires
        maximal_run_ending(ds, j, run),
        is_run(ds, i, len),
        i + len == j,
    ensures
        len <= run,
{
    if len > run {
        let k = j - run;
        assert(i < k < i + len);
        assert(ds[k] == ds[k - 1] + 1);
    }
}

proof fn lemma_scan_step(
    s: Seq<int>,
    j: int,
    run: int,
    longest: int,
    new_run: int,
    new_longest: int,
)
    requires
        0 <= j < s.len(),
        j > 0 ==> maximal_run_ending(s, j, run),
        j == 0 ==> run == 0 && longest == 0,
        j > 0 ==> exists|i: int| #[trigger] is_run(s.take(j), i, longest),
        forall|i: int, len: int| #[trigger] is_run(s.take(j), i, len) ==> len <= longest,
        new_run == (if j > 0 && s[j] == s[j - 1] + 1 {
            run + 1
        } else {
            1
        }),
        new_longest == (if new_run > longest {
            new_run
        } else {
            longest
        }),
    ensures
        maximal_run_ending(s, j + 1, new_run),
        exists|i: int| #[trigger] is_run(s.take(j + 1), i, new_longest),
        forall|i: int, len: int| #[trigger] is_run(s.take(j + 1), i, len) ==> len <= new_longest,
{
    assert(maximal_run_ending(s, j + 1, new_run)) by {
        assert forall|k: int| (j + 1 - new_run) < k < j + 1 implies #[trigger] s[k] == s[k - 1]
            + 1 by {
            if k < j {
                assert(is_run(s, j - run, run));
            }
        }
    }
    let t = s.take(j + 1);
    assert forall|i: int, len: int| #[trigger] is_run(t, i, len) implies len <= new_longest by {
        if i + len == j + 1 {
            assert(is_run(s, i, len)) by {
                assert forall|k: int| i < k < i + len implies #[trigger] s[k] == s[k - 1] + 1 by {
                    assert(t[k] == t[k - 1] + 1);
                }
            }
            lemma_runs_ending_bounded(s, j + 1, new_run, i, len);
        } else {
            assert(is_run(s.take(j), i, len)) by {
                assert forall|k: int| i < k < i + len implies #[trigger] s.take(j)[k] == s.take(
                    j,
                )[k - 1] + 1 by {
                    assert(t[k] == t[k - 1] + 1);
                }
            }
        }
    }
    if new_longest == new_run {
        assert(is_run(t, j + 1 - new_run, new_run)) by {
            assert forall|k: int| (j + 1 - new_run) < k < j + 1 implies #[trigger] t[k] == t[k - 1]
                + 1 by {
                assert(s[k] == s[k - 1] + 1);
            }
        }
    } else {
        let i0 = choose|i: int| is_run(s.take(j), i, longest);
        assert(is_run(t, i0, new_longest)) by {
            assert forall|k: int| i0 < k < i0 + new_longest implies #[trigger] t[k] == t[k - 1]
                + 1 by {
                assert(s.take(j)[k] == s.take(j)[k - 1] + 1);
            }
        }
    }
}

/// The longest run of consecutive days in `ds`, in their order.
fn longest_run(ds: &Vec<i64>) -> (longest: usize)
    ensures
        longest <= ds.len(),
        ds.len() > 0 ==> exists|i: int| #[trigger] is_run(day_numbers(ds@), i, longest as int),
        ds.len() == 0 ==> longest == 0,
        forall|i: int, len: int| #[trigger] is_run(day_numbers(ds@), i, len) ==> len <= longest,
{
    let ghost s = day_numbers(ds@);
    let n = ds.len();
    let mut longest: usize = 0;
    let mut run: usize = 0;
    let mut j: usize = 0;
    while j < n
        invariant
            j <= n == ds.len(),
            s == day_numbers(ds@),
            run <= j,
            longest <= j,
            j > 0 ==> maximal_run_ending(s, j as int, run as int),
            j == 0 ==> run == 0 && longest == 0,
            j > 0 ==> exists|i: int| #[trigger] is_run(s.take(j as int), i, longest as int),
            forall|i: int, len: int| #[trigger] is_run(s.take(j as int), i, len) ==> len <= longest,
        decreases n - j,
    {
        let ghost old_run = run;
        let ghost old_longest = longest;
        let consecutive = j > 0 && ds[j] as i128 == ds[j - 1] as i128 + 1;
        if consecutive {
            run = run + 1;
        } else {
            run = 1;
        }
        if run > longest {
            longest = run;
        }
        proof {
            lemma_scan_step(s, j as int, old_run as int, old_longest as int, run as int, longest as int);
        }
        j += 1;
    }
    assert(s.take(n as int) =~= s);
    longest
}

/// The streaks of the dates `days` seen from `today` (see
/// [`streaks_of`]); `None` when `today` is not a date.
pub fn streak_info(days: &[String], today: &str) -> (r: Option<StreakInfo>)
    requires
        days@.len() <= i64::MAX,
    ensures
        match iso_day_number(today@) {
            None => r is None,
            Some(t) => r matches Some(info) && streaks_of(
                info,
                parsed_days(days@.map_values(|s: String| s@)),
                t as int,
            ),
        },
{
    let today_d = match iso_day(today) {
        Some(d) => d,
        None => {
            return None;
        },
    };
    let ds = parse_days(days);
    let ghost s = day_numbers(ds@);
    proof {
        lemma_parsed_days_len(days@.map_values(|s: String| s@));
    }
    let n = ds.len();
    let longest = longest_run(&ds);
    // Walk back from today while each day was active.
    let mut current: usize = 0;
    while current < n && contains_day(&ds, today_d as i128 - current as i128)
        invariant
            current <= n,
            n == ds.len(),
            s == day_numbers(ds@),
            active_back(s.to_set(), today_d as int, current as int),
        decreases n - current,
    {
        current = current + 1;
    }
    proof {
        if current == n && s.to_set().contains(today_d - current) {
            // `current + 1` distinct days would all be among `n` dates.
            let range = vstd::set_lib::set_int_range(today_d - current, today_d + 1);
            vstd::set_lib::lemma_int_range(today_d - current, today_d + 1);
            assert(range.subset_of(s.to_set())) by {
                assert forall|x: int| range.contains(x) implies s.to_set().contains(x) by {
                    if x > today_d - current {
                        assert(s.to_set().contains(today_d - (today_d - x)));
                    }
                }
            }
            s.lemma_cardinality_of_set();
            vstd::seq_lib::seq_to_set_is_finite(s);
            vstd::set_lib::lemma_len_subset(range, s.to_set());
        }
    }
    let info = StreakInfo { current: current as i64, longest: longest as i64 };
    proof {
        let p = parsed_days(days@.map_values(|s: String| s@));
        assert(s == p);
        assert(info.longest == longest);
        assert(info.current == current);
        assert(p.len() > 0 ==> exists|i: int| #[trigger] is_run(p, i, info.longest as int));
        assert(p.len() == 0 ==> info.longest == 0);
        assert(forall|i: int, len: int| #[trigger] is_run(p, i, len) ==> len <= info.longest);
        assert(active_back(p.to_set(), today_d as int, info.current as int));
        assert(!p.to_set().contains(today_d - info.current));
    }
    Some(info)
}

proof fn lemma_parsed_days_len(days: Seq<Seq<char>>)
    ensures
        parsed_days(days).len() <= days.len(),
    decreases days.len(),
{
    if days.len() > 0 {
        lemma_parsed_days_len(days.drop_last());
    }
}

/// With the dates in increasing order, the current streak is one of the
/// runs, so it is never longer than the longest.
pub proof fn law_current_streak_within_longest(info: StreakInfo, ds: Seq<int>, today: int)
    requires
        streaks_of(info, ds, today),
        forall|a: int, b: int| 0 <= a < b < ds.len() ==> ds[a] < ds[b],
    ensures
        info.current <= info.longest,
{
    let c = info.current as int;
    if c > 0 {
        // The index of `today - c + 1`, the first day of the current streak.
        assert(ds.to_set().contains(today - (c - 1)));
        let i = choose|i: int| 0 <= i < ds.len() && ds[i] == today - (c - 1);
        assert forall|k: int| i <= k < i + c implies k < ds.len() && #[trigger] ds[k] == today - (c
            - 1) + (k - i) by {
            lemma_sorted_consecutive(ds, i, today - (c - 1), k - i, c, today);
        }
        assert(ds[i + c - 1] == today - (c - 1) + (c - 1));
        assert(is_run(ds, i, c)) by {
            assert forall|k: int| i < k < i + c implies #[trigger] ds[k] == ds[k - 1] + 1 by {
                assert(ds[k - 1] == today - (c - 1) + (k - 1 - i));
            }
        }
    }
}

/// In an increasing sequence that holds the days `start .. start + c`,
/// those days follow each other from the index of `start` on.
proof fn lemma_sorted_consecutive(ds: Seq<int>, i: int, start: int, m: int, c: int, today: int)
    requires
        forall|a: int, b: int| 0 <= a < b < ds.len() ==> ds[a] < ds[b],
        0 <= i < ds.len(),
        ds[i] == start,
        start == today - (c - 1),
        0 <= m < c,
        active_back(ds.to_set(), today, c),
    ensures
        i + m < ds.len(),
        ds[i + m] == start + m,
    decreases m,
{
    if m > 0 {
        lemma_sorted_consecutive(ds, i, start, m - 1, c, today);
        // `start + m` is among the dates, after `start + m - 1`.
        assert(ds.to_set().contains(today - (c - 1 - m)));
        let q = choose|q: int| 0 <= q < ds.len() && ds[q] == start + m;
        if q <= i + m - 1 {
            if q < i + m - 1 {
                assert(ds[q] < ds[i + m - 1]);
            }
        }
        assert(q >= i + m);
        if q > i + m {
            // The date at `i + m` lies strictly between two consecutive days.
            assert(ds[i + m - 1] < ds[i + m]);
            assert(ds[i + m] < ds[q]);
        }
    }
}

} // verus!

verus! {

// ---------------------------------------------------------------------------
// Purging to a word cap
// ---------------------------------------------------------------------------

/// The sum of `ws`.
pub open spec fn total(ws: Seq<i64>) -> int
    decreases ws.len(),
{
    if ws.len() == 0 {
        0
    } else {
        total(ws.drop_last()) + ws.last()
    }
}

/// How many of the oldest transcriptions go so that the words left fit
/// under `cap`: none when they already fit, else the fewest oldest ones
/// whose removal brings the total to `cap` or below, or all of them.
pub open spec fn purge_count_ok(ws: Seq<i64>, cap: int, k: int) -> bool {
    &&& 0 <= k <= ws.len()
    &&& forall|j: int| 0 <= j < k ==> total(ws) - #[trigger] total(ws.take(j)) > cap
    &&& (k == ws.len() || total(ws) - total(ws.take(k)) <= cap)
}

proof fn lemma_total_bounds(ws: Seq<i64>)
    ensures
        -(ws.len() as int) * 0x8000_0000_0000_0000 <= total(ws) <= (ws.len() as int)
            * 0x8000_0000_0000_0000,
    decreases ws.len(),
{
    if ws.len() > 0 {
        lemma_total_bounds(ws.drop_last());
        assert((ws.len() - 1) as int * 0x8000_0000_0000_0000 + 0x8000_0000_0000_0000 == ws.len() as int
            * 0x8000_0000_0000_0000) by (nonlinear_arith);
    }
}

fn sum_words(ws: &[i64]) -> (t: i128)
    ensures
        t == total(ws@),
{
    let mut t: i128 = 0;
    let mut i: usize = 0;
    while i < ws.len()
        invariant
            i <= ws.len(),
            t == total(ws@.take(i as int)),
        decreases ws.len() - i,
    {
        assert(ws@.take(i + 1).drop_last() =~= ws@.take(i as int));
        proof {
            lemma_total_bounds(ws@.take(i as int));
            assert(i as int * 0x8000_0000_0000_0000 <= 0xFFFF_FFFF_FFFF_FFFF * 0x8000_0000_0000_0000int)
                by (nonlinear_arith)
                requires
                    i <= 0xFFFF_FFFF_FFFF_FFFFint,
            ;
        }
        t = t + ws[i] as i128;
        i += 1;
    }
    assert(ws@.take(ws.len() as int) =~= ws@);
    t
}

/// How many of the oldest transcriptions to delete (see
/// [`purge_count_ok`]); `word_counts` lists them oldest first.
pub fn purge_plan(word_counts: &[i64], cap: i64) -> (k: usize)
    requires
        word_counts@.len() < 0x1000_0000_0000_0000,
    ensures
        purge_count_ok(word_counts@, cap as int, k as int),
{
    let t = sum_words(word_counts);
    let mut k: usize = 0;
    let mut removed: i128 = 0;
    assert(word_counts@.take(0) =~= Seq::<i64>::empty());
    proof {
        lemma_total_bounds(word_counts@);
        let n = word_counts@.len() as int;
        assert(n * 0x8000_0000_0000_0000 <= 0x1000_0000_0000_0000int * 0x8000_0000_0000_0000) by (
        nonlinear_arith)
            requires
                n <= 0x1000_0000_0000_0000int,
        ;
    }
    while k < word_counts.len() && t - removed > cap as i128
        invariant
            k <= word_counts.len(),
            word_counts@.len() < 0x1000_0000_0000_0000,
            -0x1000_0000_0000_0000int * 0x8000_0000_0000_0000 <= t <= 0x1000_0000_0000_0000int
                * 0x8000_0000_0000_0000,
            -0x1000_0000_0000_0000int * 0x8000_0000_0000_0000 <= removed <= 0x1000_0000_0000_0000int
                * 0x8000_0000_0000_0000,
            t == total(word_counts@),
            removed == total(word_counts@.take(k as int)),
            forall|j: int| 0 <= j < k ==> total(word_counts@) - #[trigger] total(
                word_counts@.take(j),
            ) > cap,
        decreases word_counts.len() - k,
    {
        assert(word_counts@.take(k + 1).drop_last() =~= word_counts@.take(k as int));
        proof {
            lemma_total_bounds(word_counts@.take(k + 1));
            let m = (k + 1) as int;
            assert(m * 0x8000_0000_0000_0000 <= 0x1000_0000_0000_0000int * 0x8000_0000_0000_0000) by (
            nonlinear_arith)
                requires
                    m <= 0x1000_0000_0000_0000int,
            ;
        }
        removed = removed + word_counts[k] as i128;
        k += 1;
    }
    k
}

/// After the purge, the words left fit under the cap, unless every
/// transcription went.
pub proof fn law_purge_fits_cap(ws: Seq<i64>, cap: int, k: int)
    requires
        purge_count_ok(ws, cap, k),
    ensures
        k < ws.len() ==> total(ws) - total(ws.take(k)) <= cap,
        k > 0 ==> total(ws) - total(ws.take(k - 1)) > cap,
{
}

} // verus!
