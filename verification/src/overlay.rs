//! The recording overlay: its size for each style, where it sits on the
//! screen, and the bookkeeping that keeps delayed overlay events from
//! overriding newer ones.
use vstd::prelude::*;

use crate::text::{chars_of, ends_with, ends_with_chars, eq_str, list_contains, listed, owned, starts_with, starts_with_chars};

verus! {

/// Gap between the overlay and the bottom of the work area.
pub const OVERLAY_BOTTOM_MARGIN: i32 = 12;

/// Gap between the overlay and the other edges of the work area.
pub const OVERLAY_EDGE_MARGIN: i32 = 18;

/// The (width, height) of the overlay window for a style and a size;
/// unknown pairs get the medium capsule. The window holds the whole
/// overlay: a capsule pill 420, 520 or 640 px wide, an orb 72, 96 or
/// 128 px across with room for its rings and hint.
pub open spec fn dims(style: Seq<char>, size: Seq<char>) -> (i32, i32) {
    if style == "capsule"@ && size == "smaller"@ {
        (212, 54)
    } else if style == "capsule"@ && size == "small"@ {
        (420, 56)
    } else if style == "capsule"@ && size == "medium"@ {
        (520, 60)
    } else if style == "capsule"@ && size == "large"@ {
        (640, 64)
    } else if style == "orb"@ && size == "smaller"@ {
        (92, 92)
    } else if style == "orb"@ && size == "small"@ {
        (112, 124)
    } else if style == "orb"@ && size == "medium"@ {
        (140, 152)
    } else if style == "orb"@ && size == "large"@ {
        (172, 184)
    } else {
        (520, 60)
    }
}

/// The (width, height) of the overlay window (see [`dims`]).
pub fn overlay_dims(style: &str, size: &str) -> (d: (i32, i32))
    ensures
        d == dims(style@, size@),
{
    let st = chars_of(style);
    let sz = chars_of(size);
    if eq_str(&st, "capsule") {
        if eq_str(&sz, "smaller") {
            (212, 54)
        } else if eq_str(&sz, "small") {
            (420, 56)
        } else if eq_str(&sz, "medium") {
            (520, 60)
        } else if eq_str(&sz, "large") {
            (640, 64)
        } else {
            (520, 60)
        }
    } else if eq_str(&st, "orb") {
        if eq_str(&sz, "smaller") {
            (92, 92)
        } else if eq_str(&sz, "small") {
            (112, 124)
        } else if eq_str(&sz, "medium") {
            (140, 152)
        } else if eq_str(&sz, "large") {
            (172, 184)
        } else {
            (520, 60)
        }
    } else {
        proof {
            reveal_strlit("capsule");
            reveal_strlit("orb");
        }
        (520, 60)
    }
}

/// Every overlay fits in a 640 by 200 box.
pub proof fn law_overlay_dims_are_small(style: Seq<char>, size: Seq<char>)
    ensures
        0 < dims(style, size).0 <= 640,
        0 < dims(style, size).1 <= 200,
{
}

/// The window of each documented size holds the overlay's footprint: the
/// capsule pill is 420, 520 and 640 px wide, the orb 72, 96 and 128 px
/// across, for small, medium and large.
pub proof fn law_overlay_holds_footprint()
    ensures
        dims("capsule"@, "small"@).0 >= 420,
        dims("capsule"@, "medium"@).0 >= 520,
        dims("capsule"@, "large"@).0 >= 640,
        dims("orb"@, "small"@).0 >= 72 && dims("orb"@, "small"@).1 >= 72,
        dims("orb"@, "medium"@).0 >= 96 && dims("orb"@, "medium"@).1 >= 96,
        dims("orb"@, "large"@).0 >= 128 && dims("orb"@, "large"@).1 >= 128,
{
    reveal_strlit("capsule");
    reveal_strlit("orb");
    reveal_strlit("small");
    reveal_strlit("medium");
    reveal_strlit("large");
    reveal_strlit("smaller");
    assert("small"@.len() != "smaller"@.len() && "medium"@.len() != "smaller"@.len());
    assert("medium"@.len() != "small"@.len() && "large"@.len() != "smaller"@.len());
    assert("large"@.len() != "medium"@.len() && "large"@[0] != "small"@[0]);
    assert("capsule"@.len() != "orb"@.len());
}

/// The placements the overlay knows.
pub const OVERLAY_POSITIONS: [&'static str; 9] = [
    "top-left",
    "top-center",
    "top-right",
    "center-left",
    "center",
    "center-right",
    "bottom-left",
    "bottom-center",
    "bottom-right",
];

/// A known placement stays; anything else (the old `near-cursor`
/// included) becomes `bottom-center`.
pub open spec fn normalized_position(value: Seq<char>) -> Seq<char> {
    if listed(OVERLAY_POSITIONS@, value) {
        value
    } else {
        "bottom-center"@
    }
}

/// Normalises an overlay placement (see [`normalized_position`]).
pub fn normalize_overlay_position(value: &str) -> (p: String)
    ensures
        p@ == normalized_position(value@),
{
    let v = chars_of(value);
    if list_contains(&OVERLAY_POSITIONS, &v) {
        owned(value)
    } else {
        owned("bottom-center")
    }
}

/// Normalising twice is normalising once, and the result is a known
/// placement.
pub proof fn law_normalized_position_is_known(value: Seq<char>)
    ensures
        listed(OVERLAY_POSITIONS@, normalized_position(value)),
        normalized_position(normalized_position(value)) == normalized_position(value),
{
    if !listed(OVERLAY_POSITIONS@, value) {
        assert(OVERLAY_POSITIONS@[7]@ == "bottom-center"@);
    }
}

/// A monitor's work area, in physical pixels.
#[derive(Debug, Clone, Copy, PartialEq, Eq)]
pub struct WorkArea {
    pub left: i32,
    pub top: i32,
    pub right: i32,
    pub bottom: i32,
}

/// Half of `x`, rounded toward zero, as Rust's `/` rounds.
pub open spec fn half(x: int) -> int {
    if x >= 0 {
        x / 2
    } else {
        -((-x) / 2)
    }
}

/// The horizontal position of an overlay of width `w` for `placement`.
pub open spec fn overlay_x(work: WorkArea, w: int, placement: Seq<char>) -> int {
    if ends_with(placement, "-left"@) {
        work.left + OVERLAY_EDGE_MARGIN
    } else if ends_with(placement, "-right"@) {
        work.right - OVERLAY_EDGE_MARGIN - w
    } else {
        work.left + half(work.right - work.left - w)
    }
}

/// The vertical position of an overlay of height `h` for `placement`.
pub open spec fn overlay_y(work: WorkArea, h: int, placement: Seq<char>) -> int {
    if starts_with(placement, "top-"@) {
        work.top + OVERLAY_EDGE_MARGIN
    } else if starts_with(placement, "center-"@) || placement == "center"@ {
        work.top + half(work.bottom - work.top - h)
    } else {
        work.bottom - OVERLAY_BOTTOM_MARGIN - h
    }
}

/// Half of `d`, rounded toward zero.
fn half_of(d: i64) -> (h: i64)
    requires
        i32::MIN as int * 4 <= d <= i32::MAX as int * 4,
    ensures
        h == half(d as int),
{
    if d >= 0 {
        d / 2
    } else {
        let n: i64 = -d;
        -(n / 2)
    }
}

/// Whether a value fits in an `i32`.
pub open spec fn fits_i32(x: int) -> bool {
    i32::MIN <= x <= i32::MAX
}

/// Where an overlay of `width` by `height` sits in `work` for
/// `placement`: against the left or right edge, or centred; against the
/// top edge, centred, or above the bottom edge.
pub fn position_in_work_area(work: WorkArea, width: i32, height: i32, placement: &str) -> (p: (
    i32,
    i32,
))
    requires
        fits_i32(work.right - work.left),
        fits_i32(work.bottom - work.top),
        fits_i32(work.right - work.left - width),
        fits_i32(work.bottom - work.top - height),
        fits_i32(work.right - OVERLAY_EDGE_MARGIN),
        fits_i32(work.right - OVERLAY_EDGE_MARGIN - width),
        fits_i32(work.bottom - OVERLAY_BOTTOM_MARGIN),
        fits_i32(work.bottom - OVERLAY_BOTTOM_MARGIN - height),
        fits_i32(work.left + OVERLAY_EDGE_MARGIN),
        fits_i32(work.top + OVERLAY_EDGE_MARGIN),
        fits_i32(work.left + half(work.right - work.left - width)),
        fits_i32(work.top + half(work.bottom - work.top - height)),
    ensures
        p.0 == overlay_x(work, width as int, placement@),
        p.1 == overlay_y(work, height as int, placement@),
{
    let v = chars_of(placement);
    let left_suffix = chars_of("-left");
    let right_suffix = chars_of("-right");
    let top_prefix = chars_of("top-");
    let center_prefix = chars_of("center-");
    let x: i32 = if ends_with_chars(&v, &left_suffix) {
        work.left + OVERLAY_EDGE_MARGIN
    } else if ends_with_chars(&v, &right_suffix) {
        work.right - OVERLAY_EDGE_MARGIN - width
    } else {
        let d: i64 = work.right as i64 - work.left as i64 - width as i64;
        (work.left as i64 + half_of(d)) as i32
    };
    let y: i32 = if starts_with_chars(&v, &top_prefix) {
        work.top + OVERLAY_EDGE_MARGIN
    } else if starts_with_chars(&v, &center_prefix) || eq_str(&v, "center") {
        let d: i64 = work.bottom as i64 - work.top as i64 - height as i64;
        (work.top as i64 + half_of(d)) as i32
    } else {
        work.bottom - OVERLAY_BOTTOM_MARGIN - height
    };
    (x, y)
}

// ---------------------------------------------------------------------------
// Delayed events
// ---------------------------------------------------------------------------

/// A delayed overlay event is still current only when no newer layout or
/// preview has been started since it was scheduled.
pub fn still_current(current_generation: u64, scheduled_generation: u64) -> (b: bool)
    ensures
        b == (current_generation == scheduled_generation),
{
    current_generation == scheduled_generation
}

/// How many level ticks an overlay preview runs.
pub const PREVIEW_TICKS: u64 = 40;

/// What a running overlay preview does at a tick.
#[derive(Debug, Clone, Copy, PartialEq, Eq)]
pub enum PreviewTick {
    /// A newer preview took over: stop.
    Stop,
    /// Emit the level at this index of the preview level table.
    EmitLevel(usize),
    /// Nothing to emit at this tick.
    Wait,
}

/// The preview level table index for a tick: the table of 16 levels loops.
pub open spec fn level_index(tick: u64) -> usize {
    ((tick as usize) % 16) as usize
}

/// What a preview started as `generation` does at `tick`, given the
/// current generation and whether it previews the recording state.
pub fn preview_tick(current_generation: u64, generation: u64, tick: u64, recording: bool) -> (t:
    PreviewTick)
    ensures
        current_generation != generation ==> t == PreviewTick::Stop,
        current_generation == generation && recording ==> t == PreviewTick::EmitLevel(
            level_index(tick),
        ),
        current_generation == generation && !recording ==> t == PreviewTick::Wait,
{
    if current_generation != generation {
        PreviewTick::Stop
    } else if recording {
        PreviewTick::EmitLevel((tick as usize) % 16)
    } else {
        PreviewTick::Wait
    }
}

/// The preview level table, in hundredths: sixteen levels between 0.10
/// and 0.84 that the overlay's meter cycles through.
pub open spec fn preview_levels() -> Seq<u32> {
    seq![10u32, 34, 58, 42, 72, 28, 49, 84, 38, 64, 18, 52, 76, 31, 46, 68]
}

/// The preview level shown at `tick`, in hundredths.
pub open spec fn preview_level(tick: u64) -> u32 {
    preview_levels()[(tick % 16) as int]
}

/// The level, in hundredths of full scale, that a preview shows at `tick`.
pub fn preview_level_hundredths(tick: u64) -> (l: u32)
    ensures
        l == preview_level(tick),
        l <= 100,
{
    let i = tick % 16;
    if i == 0 {
        10
    } else if i == 1 {
        34
    } else if i == 2 {
        58
    } else if i == 3 {
        42
    } else if i == 4 {
        72
    } else if i == 5 {
        28
    } else if i == 6 {
        49
    } else if i == 7 {
        84
    } else if i == 8 {
        38
    } else if i == 9 {
        64
    } else if i == 10 {
        18
    } else if i == 11 {
        52
    } else if i == 12 {
        76
    } else if i == 13 {
        31
    } else if i == 14 {
        46
    } else {
        68
    }
}

/// The preview levels loop every sixteen ticks and stay within full scale.
pub proof fn law_preview_level_loops(tick: u64)
    requires
        tick + 16 <= u64::MAX,
    ensures
        preview_level(tick) == preview_level((tick + 16) as u64),
        preview_level(tick) <= 100,
{
    assert(((tick + 16) as u64) % 16 == tick % 16);
    let i = (tick % 16) as int;
    assert(0 <= i < 16);
    assert(preview_levels()[i] <= 100);
}

/// How a preview ends once its ticks ran out: when it is still the
/// current one, the preview is switched off (a new generation is taken)
/// and the overlay hidden if nothing is being recorded.
#[derive(Debug, Clone, Copy, PartialEq, Eq)]
pub enum PreviewEnd {
    /// A newer preview took over: leave the overlay to it.
    LeaveAlone,
    /// Switch the preview off; hide the overlay when `hide` is set.
    SwitchOff { hide: bool },
}

/// How a preview started as `generation` ends (see [`PreviewEnd`]).
pub fn preview_end(current_generation: u64, generation: u64, recorder_ready: bool) -> (e:
    PreviewEnd)
    ensures
        current_generation != generation ==> e == PreviewEnd::LeaveAlone,
        current_generation == generation ==> e == (PreviewEnd::SwitchOff { hide: recorder_ready }),
{
    if current_generation != generation {
        PreviewEnd::LeaveAlone
    } else {
        PreviewEnd::SwitchOff { hide: recorder_ready }
    }
}

} // verus!
