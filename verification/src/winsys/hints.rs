use vstd::prelude::*;

use crate::winsys::geometry::Dim;
use crate::winsys::geometry::Pos;
use crate::winsys::geometry::Ratio;
use crate::winsys::window::IcccmWindowState;
use crate::winsys::window::Window;

verus! {

/// The ICCCM hints of a window.
#[derive(Debug, Copy, Clone, PartialOrd, Ord, PartialEq, Eq, Structural)]
pub struct Hints {
    pub urgent: bool,
    pub input: Option<bool>,
    pub initial_state: Option<IcccmWindowState>,
    pub group: Option<Window>,
}

impl Hints {
    /// The hints made of the given values.
    pub fn new(
        urgent: bool,
        input: Option<bool>,
        initial_state: Option<IcccmWindowState>,
        group: Option<Window>,
    ) -> (r: Self)
        ensures
            r == (Hints { urgent, input, initial_state, group }),
    {
        Hints { urgent, input, initial_state, group }
    }
}

/// The size hints of a window as the window gives them, each part present or not: its position
/// (and whether the user chose it), minimum, maximum and base sizes, size increments, and
/// aspect ratios.
#[derive(Debug, Copy, Clone, PartialEq, Eq)]
pub struct RawSizeHints {
    pub position: Option<(bool, i32, i32)>,
    pub min_size: Option<(i32, i32)>,
    pub max_size: Option<(i32, i32)>,
    pub base_size: Option<(i32, i32)>,
    pub size_increment: Option<(i32, i32)>,
    pub aspect: Option<(Ratio, Ratio)>,
}

/// The integral part of a window's size hints: whether the user chose its position, that
/// position, the sizes and increments that hold, and the aspect ratios as given.
#[derive(Debug, Copy, Clone, PartialEq, Eq, Structural)]
pub struct SizeLimits {
    pub by_user: bool,
    pub pos: Option<Pos>,
    pub min_width: Option<i32>,
    pub min_height: Option<i32>,
    pub max_width: Option<i32>,
    pub max_height: Option<i32>,
    pub base_width: Option<i32>,
    pub base_height: Option<i32>,
    pub inc_width: Option<i32>,
    pub inc_height: Option<i32>,
    pub min_ratio_vulgar: Option<Ratio>,
    pub max_ratio_vulgar: Option<Ratio>,
}

/// `v` where it is positive.
pub open spec fn positive(v: i32) -> Option<i32> {
    if v > 0 {
        Some(v)
    } else {
        None
    }
}

/// The first of the pair `size`, where the pair is given and it is positive.
pub open spec fn first_positive(size: Option<(i32, i32)>) -> Option<i32> {
    match size {
        Some((w, _)) => positive(w),
        None => None,
    }
}

/// The second of the pair `size`, where the pair is given and it is positive.
pub open spec fn second_positive(size: Option<(i32, i32)>) -> Option<i32> {
    match size {
        Some((_, h)) => positive(h),
        None => None,
    }
}

/// `a`, or `b` where `a` is missing.
pub open spec fn or_else(a: Option<i32>, b: Option<i32>) -> Option<i32> {
    match a {
        Some(v) => Some(v),
        None => b,
    }
}

/// A minimum raised to `least` where one is given.
pub open spec fn raised(min: Option<i32>, least: Option<i32>) -> Option<i32> {
    match min {
        Some(m) => match least {
            Some(l) => Some(if m >= l { m } else { l }),
            None => positive(m),
        },
        None => None,
    }
}

/// An increment where it lies strictly between zero and 0xFFFF.
pub open spec fn usable_increment(v: i32) -> Option<i32> {
    if 0 < v < 0xFFFF {
        Some(v)
    } else {
        None
    }
}

/// A window's size hints made sense of: positive sizes only; a missing minimum taken from the
/// base size and a missing base size from the minimum; the minimum raised to `min_window_dim`
/// where that is given; increments between zero and 0xFFFF only; a position only where the
/// user or the program gave a positive coordinate.
pub open spec fn normalized_spec(raw: RawSizeHints, min_window_dim: Option<Dim>) -> SizeLimits {
    let min_w = first_positive(raw.min_size);
    let min_h = second_positive(raw.min_size);
    let base_w = first_positive(raw.base_size);
    let base_h = second_positive(raw.base_size);
    SizeLimits {
        by_user: match raw.position {
            Some((user, _, _)) => user,
            None => false,
        },
        pos: match raw.position {
            Some((_, x, y)) => if x > 0 || y > 0 {
                Some(Pos { x, y })
            } else {
                None
            },
            None => None,
        },
        min_width: raised(or_else(min_w, base_w), match min_window_dim {
            Some(d) => Some(d.w),
            None => None,
        }),
        min_height: raised(or_else(min_h, base_h), match min_window_dim {
            Some(d) => Some(d.h),
            None => None,
        }),
        max_width: first_positive(raw.max_size),
        max_height: second_positive(raw.max_size),
        base_width: or_else(base_w, min_w),
        base_height: or_else(base_h, min_h),
        inc_width: match raw.size_increment {
            Some((w, _)) => usable_increment(w),
            None => None,
        },
        inc_height: match raw.size_increment {
            Some((_, h)) => usable_increment(h),
            None => None,
        },
        min_ratio_vulgar: match raw.aspect {
            Some((min, _)) => Some(min),
            None => None,
        },
        max_ratio_vulgar: match raw.aspect {
            Some((_, max)) => Some(max),
            None => None,
        },
    }
}

fn positive_of(v: i32) -> (r: Option<i32>)
    ensures
        r == positive(v),
{
    if v > 0 {
        Some(v)
    } else {
        None
    }
}

fn raise(min: Option<i32>, least: Option<i32>) -> (r: Option<i32>)
    ensures
        r == raised(min, least),
{
    match min {
        Some(m) => match least {
            Some(l) => Some(if m >= l { m } else { l }),
            None => positive_of(m),
        },
        None => None,
    }
}

fn increment_of(v: i32) -> (r: Option<i32>)
    ensures
        r == usable_increment(v),
{
    if v > 0 && v < 0xFFFF {
        Some(v)
    } else {
        None
    }
}

/// The size hints `raw` a window gives, made sense of, with its minimum raised to
/// `min_window_dim` where that is given.
pub fn normalized_size_hints(raw: RawSizeHints, min_window_dim: Option<Dim>) -> (r: SizeLimits)
    ensures
        r == normalized_spec(raw, min_window_dim),
{
    let (by_user, pos) = match raw.position {
        Some((user, x, y)) => (user, if x > 0 || y > 0 {
            Some(Pos { x, y })
        } else {
            None
        }),
        None => (false, None),
    };
    let (min_w, min_h) = match raw.min_size {
        Some((w, h)) => (positive_of(w), positive_of(h)),
        None => (None, None),
    };
    let (base_w, base_h) = match raw.base_size {
        Some((w, h)) => (positive_of(w), positive_of(h)),
        None => (None, None),
    };
    let (max_width, max_height) = match raw.max_size {
        Some((w, h)) => (positive_of(w), positive_of(h)),
        None => (None, None),
    };
    let min_width = if min_w.is_some() { min_w } else { base_w };
    let min_height = if min_h.is_some() { min_h } else { base_h };
    let base_width = if base_w.is_some() { base_w } else { min_w };
    let base_height = if base_h.is_some() { base_h } else { min_h };
    let (least_w, least_h) = match min_window_dim {
        Some(d) => (Some(d.w), Some(d.h)),
        None => (None, None),
    };
    let (inc_width, inc_height) = match raw.size_increment {
        Some((w, h)) => (increment_of(w), increment_of(h)),
        None => (None, None),
    };
    let (min_ratio_vulgar, max_ratio_vulgar) = match raw.aspect {
        Some((min, max)) => (Some(min), Some(max)),
        None => (None, None),
    };
    SizeLimits {
        by_user,
        pos,
        min_width: raise(min_width, least_w),
        min_height: raise(min_height, least_h),
        max_width,
        max_height,
        base_width,
        base_height,
        inc_width,
        inc_height,
        min_ratio_vulgar,
        max_ratio_vulgar,
    }
}

/// Two sets of size limits are alike when their sizes, increments and aspect ratios are (the
/// position and who chose it do not count).
pub open spec fn same_limits(a: SizeLimits, b: SizeLimits) -> bool {
    &&& a.min_width == b.min_width
    &&& a.min_height == b.min_height
    &&& a.max_width == b.max_width
    &&& a.max_height == b.max_height
    &&& a.base_width == b.base_width
    &&& a.base_height == b.base_height
    &&& a.inc_width == b.inc_width
    &&& a.inc_height == b.inc_height
    &&& a.min_ratio_vulgar == b.min_ratio_vulgar
    &&& a.max_ratio_vulgar == b.max_ratio_vulgar
}

/// Whether the size limits `a` and `b` are alike.
pub fn limits_alike(a: &SizeLimits, b: &SizeLimits) -> (r: bool)
    ensures
        r == same_limits(*a, *b),
{
    a.min_width == b.min_width && a.min_height == b.min_height && a.max_width == b.max_width
        && a.max_height == b.max_height && a.base_width == b.base_width && a.base_height
        == b.base_height && a.inc_width == b.inc_width && a.inc_height == b.inc_height
        && a.min_ratio_vulgar == b.min_ratio_vulgar && a.max_ratio_vulgar == b.max_ratio_vulgar
}

/// The size hints a window now gives, `raw` where it gives any, made sense of, and whether they
/// are alike the ones it had, `current` (two missing ones are alike).
pub fn refreshed_size_hints(
    raw: Option<RawSizeHints>,
    min_window_dim: Option<Dim>,
    current: &Option<SizeLimits>,
) -> (r: (bool, Option<SizeLimits>))
    ensures
        r.1 == (match raw {
            Some(raw) => Some(normalized_spec(raw, min_window_dim)),
            None => None,
        }),
        r.0 == (match (*current, r.1) {
            (None, None) => true,
            (Some(a), Some(b)) => same_limits(a, b),
            _ => false,
        }),
{
    match raw {
        None => (current.is_none(), None),
        Some(raw) => {
            let limits = normalized_size_hints(raw, min_window_dim);
            let alike = match current {
                Some(c) => limits_alike(c, &limits),
                None => false,
            };
            (alike, Some(limits))
        },
    }
}

/// `v` kept at least `min` and at most `max`, where they are given (the maximum last).
pub open spec fn clamped(v: i32, min: Option<i32>, max: Option<i32>) -> i32 {
    let v1 = match min {
        Some(m) => if m > v { m } else { v },
        None => v,
    };
    match max {
        Some(m) => if m < v1 { m } else { v1 },
        None => v1,
    }
}

fn clamp(v: i32, min: Option<i32>, max: Option<i32>) -> (r: i32)
    ensures
        r == clamped(v, min, max),
{
    let v1 = match min {
        Some(m) => if m > v { m } else { v },
        None => v,
    };
    match max {
        Some(m) => if m < v1 { m } else { v1 },
        None => v1,
    }
}

/// `dim` kept within the minimum and maximum sizes of `limits`.
pub open spec fn within_limits(limits: SizeLimits, dim: Dim) -> Dim {
    Dim {
        w: clamped(dim.w, limits.min_width, limits.max_width),
        h: clamped(dim.h, limits.min_height, limits.max_height),
    }
}

/// `dim` kept within the minimum and maximum sizes of `limits` (the first step in bringing
/// dimensions within size hints).
pub fn size_within_limits(limits: &SizeLimits, dim: Dim) -> (r: Dim)
    ensures
        r == within_limits(*limits, dim),
{
    Dim {
        w: clamp(dim.w, limits.min_width, limits.max_width),
        h: clamp(dim.h, limits.min_height, limits.max_height),
    }
}

/// A length above `base` rounded down to a whole number of increments `inc` above it, where
/// there is an increment and the length is at least the base.
pub open spec fn stepped(v: i32, base: i32, inc: Option<i32>) -> int {
    match inc {
        Some(i) => if v >= base {
            (v - base) - (v - base) % (i as int) + base
        } else {
            v as int
        },
        None => v as int,
    }
}

/// Stepping stays representable, and an increment is positive.
pub open spec fn step_fits(v: i32, base: i32, inc: Option<i32>) -> bool {
    inc matches Some(i) ==> i > 0 && (v >= base ==> fits_len(v - base))
}

/// `v` is an `i32`.
pub open spec fn fits_len(v: int) -> bool {
    i32::MIN <= v <= i32::MAX
}

fn step(v: i32, base: i32, inc: Option<i32>) -> (r: i32)
    requires
        step_fits(v, base, inc),
    ensures
        r == stepped(v, base, inc),
{
    match inc {
        Some(i) => if v >= base {
            let d: i32 = v - base;
            assert(d >= 0);
            let m: i32 = d % i;
            assert(0 <= m <= d) by (nonlinear_arith)
                requires
                    d >= 0,
                    i > 0,
                    m == d % i,
            ;
            v - m
        } else {
            v
        },
        None => v,
    }
}

/// Dimensions rounded to whole size increments above the base sizes of `limits`, then made
/// non-negative (the last step in bringing dimensions within size hints).
pub open spec fn to_increments(limits: SizeLimits, dim: Dim) -> Dim {
    let bw = match limits.base_width { Some(b) => b, None => 0i32 };
    let bh = match limits.base_height { Some(b) => b, None => 0i32 };
    let w = stepped(dim.w, bw, limits.inc_width);
    let h = stepped(dim.h, bh, limits.inc_height);
    Dim {
        w: if w > 0 { w as i32 } else { 0 },
        h: if h > 0 { h as i32 } else { 0 },
    }
}

/// Rounding to increments stays representable.
pub open spec fn increments_fit(limits: SizeLimits, dim: Dim) -> bool {
    let bw = match limits.base_width { Some(b) => b, None => 0i32 };
    let bh = match limits.base_height { Some(b) => b, None => 0i32 };
    step_fits(dim.w, bw, limits.inc_width) && step_fits(dim.h, bh, limits.inc_height)
}

/// Dimensions rounded to whole size increments above the base sizes of `limits`, then made
/// non-negative.
pub fn size_to_increments(limits: &SizeLimits, dim: Dim) -> (r: Dim)
    requires
        increments_fit(*limits, dim),
    ensures
        r == to_increments(*limits, dim),
{
    let bw = match limits.base_width { Some(b) => b, None => 0i32 };
    let bh = match limits.base_height { Some(b) => b, None => 0i32 };
    let w = step(dim.w, bw, limits.inc_width);
    let h = step(dim.h, bh, limits.inc_height);
    Dim { w: if w > 0 { w } else { 0 }, h: if h > 0 { h } else { 0 } }
}


/// A length already a whole number of increments above its base stays where it is.
proof fn lemma_stepped_settles(v: i32, base: i32, inc: Option<i32>)
    requires
        step_fits(v, base, inc),
        base >= 0,
    ensures
        fits_len(stepped(v, base, inc)),
        ({
            let s = (if stepped(v, base, inc) > 0 { stepped(v, base, inc) } else { 0 }) as i32;
            &&& step_fits(s, base, inc)
            &&& stepped(s, base, inc) == s as int
        }),
{
    match inc {
        Some(i) => {
            if v >= base {
                let d: int = v - base;
                vstd::arithmetic::div_mod::lemma_fundamental_div_mod(d, i as int);
                assert(0 <= d % (i as int) <= d) by (nonlinear_arith)
                    requires
                        d >= 0,
                        i > 0,
                ;
                let q: int = d / (i as int);
                assert(d - d % (i as int) == q * (i as int)) by (nonlinear_arith)
                    requires
                        d == (i as int) * q + d % (i as int),
                ;
                vstd::arithmetic::div_mod::lemma_mod_multiples_basic(q, i as int);
                assert((q * (i as int)) % (i as int) == 0);
                assert(stepped(v, base, inc) == base + q * (i as int));
                let s = (if stepped(v, base, inc) > 0 { stepped(v, base, inc) } else { 0 }) as i32;
                assert(s == base + q * (i as int));
                assert(s - base == q * (i as int));
            } else {
                vstd::arithmetic::div_mod::lemma_mod_multiples_basic(0, i as int);
                assert((0 * (i as int)) % (i as int) == 0);
            }
        },
        None => {},
    }
}

/// Rounding dimensions to whole increments above non-negative base sizes a second time changes
/// nothing.
pub proof fn law_increments_settle(limits: SizeLimits, dim: Dim)
    requires
        increments_fit(limits, dim),
        limits.base_width matches Some(b) ==> b >= 0,
        limits.base_height matches Some(b) ==> b >= 0,
    ensures
        increments_fit(limits, to_increments(limits, dim)),
        to_increments(limits, to_increments(limits, dim)) == to_increments(limits, dim),
{
    let bw = match limits.base_width { Some(b) => b, None => 0i32 };
    let bh = match limits.base_height { Some(b) => b, None => 0i32 };
    lemma_stepped_settles(dim.w, bw, limits.inc_width);
    lemma_stepped_settles(dim.h, bh, limits.inc_height);
}

/// Keeping dimensions within the minimum and maximum sizes a second time changes nothing.
pub proof fn law_limits_settle(limits: SizeLimits, dim: Dim)
    ensures
        within_limits(limits, within_limits(limits, dim)) == within_limits(limits, dim),
{
}

} // verus!
