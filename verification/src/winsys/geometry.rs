use vstd::prelude::*;

use crate::winsys::window::Window;

verus! {

/// `v` is representable as an `i32`.
pub open spec fn fits_i32(v: int) -> bool {
    i32::MIN <= v <= i32::MAX
}

/// Half of `v`, truncated toward zero.
pub open spec fn trunc_half(v: int) -> int {
    if v >= 0 {
        v / 2
    } else {
        -((-v) / 2)
    }
}

/// Half of `v`, rounded to the nearest integer with ties away from zero.
pub open spec fn round_half(v: int) -> int {
    if v >= 0 {
        (v + 1) / 2
    } else {
        -((-v + 1) / 2)
    }
}

/// Half of `v`, truncated toward zero.
pub fn halved(v: i32) -> (r: i32)
    ensures
        r == trunc_half(v as int),
{
    if v >= 0 {
        v / 2
    } else {
        let m: i64 = -(v as i64);
        -((m / 2) as i32)
    }
}

/// Half of `v`, rounded to the nearest integer with ties away from zero.
pub fn rounded_half(v: i32) -> (r: i32)
    ensures
        r == round_half(v as int),
{
    if v >= 0 {
        ((v as i64 + 1) / 2) as i32
    } else {
        let m: i64 = -(v as i64) + 1;
        -((m / 2) as i32)
    }
}

/// One of the four sides of a rectangle.
#[derive(Debug, Copy, Clone, PartialOrd, Ord, PartialEq, Eq, Hash, Structural)]
pub enum Edge {
    Left,
    Right,
    Top,
    Bottom,
}

/// One of the four corners of a rectangle.
#[derive(Debug, Copy, Clone, PartialOrd, Ord, PartialEq, Eq, Structural)]
pub enum Corner {
    TopLeft,
    TopRight,
    BottomLeft,
    BottomRight,
}

/// A point on the screen.
#[derive(Debug, Copy, Clone, Hash, PartialOrd, Ord, PartialEq, Eq, Structural)]
pub struct Pos {
    pub x: i32,
    pub y: i32,
}

/// A width and a height.
#[derive(Debug, Copy, Clone, PartialOrd, Ord, PartialEq, Eq, Structural)]
pub struct Dim {
    pub w: i32,
    pub h: i32,
}

/// A rectangle: its top-left corner and its dimensions.
#[derive(Debug, Copy, Clone, PartialOrd, Ord, PartialEq, Eq, Structural)]
pub struct Region {
    pub pos: Pos,
    pub dim: Dim,
}

/// Space around the four sides of a rectangle.
#[derive(Debug, Copy, Clone, PartialEq, Eq, Structural)]
pub struct Padding {
    pub left: i32,
    pub right: i32,
    pub top: i32,
    pub bottom: i32,
}

/// The extents of a frame are the padding it adds round a window.
pub type Extents = Padding;

/// The offset from one point to another.
#[derive(Debug, Copy, Clone, PartialOrd, Ord, PartialEq, Eq, Structural)]
pub struct Distance {
    pub dx: i32,
    pub dy: i32,
}

/// A ratio of two integers.
#[derive(Debug, Copy, Clone, PartialOrd, Ord, PartialEq, Eq, Structural)]
pub struct Ratio {
    pub numerator: i32,
    pub denominator: i32,
}

/// Space that a window (a panel, a dock) reserves along an edge of the screen.
#[derive(Debug, Copy, Clone, PartialEq, Eq, Structural)]
pub struct Strut {
    pub window: Window,
    pub width: u32,
}

impl Default for Pos {
    fn default() -> (r: Self)
        ensures
            r == (Pos { x: 0, y: 0 }),
    {
        Pos { x: 0, y: 0 }
    }
}

impl Default for Dim {
    fn default() -> (r: Self)
        ensures
            r == (Dim { w: 0, h: 0 }),
    {
        Dim { w: 0, h: 0 }
    }
}

impl Default for Region {
    fn default() -> (r: Self)
        ensures
            r == (Region { pos: Pos { x: 0, y: 0 }, dim: Dim { w: 0, h: 0 } }),
    {
        Region { pos: Pos { x: 0, y: 0 }, dim: Dim { w: 0, h: 0 } }
    }
}

impl Default for Padding {
    fn default() -> (r: Self)
        ensures
            r == (Padding { left: 0, right: 0, top: 0, bottom: 0 }),
    {
        Padding { left: 0, right: 0, top: 0, bottom: 0 }
    }
}

impl Pos {
    /// The offset from `self` to `pos`, when it fits.
    pub open spec fn dist_fits(self, pos: Pos) -> bool {
        fits_i32(pos.x - self.x) && fits_i32(pos.y - self.y)
    }

    /// The offset from `self` to `pos` (for offsets that fit).
    pub open spec fn dist_to(self, pos: Pos) -> Distance {
        Distance { dx: (pos.x - self.x) as i32, dy: (pos.y - self.y) as i32 }
    }

    /// The point in the middle of `region`, halves truncated toward zero.
    pub open spec fn center_of(region: Region) -> Pos {
        Pos {
            x: (region.pos.x + trunc_half(region.dim.w as int)) as i32,
            y: (region.pos.y + trunc_half(region.dim.h as int)) as i32,
        }
    }

    /// The middle of `region` is representable.
    pub open spec fn center_of_fits(region: Region) -> bool {
        &&& fits_i32(region.pos.x + trunc_half(region.dim.w as int))
        &&& fits_i32(region.pos.y + trunc_half(region.dim.h as int))
    }

    /// The point in the middle of `region`.
    pub fn from_center_of_region(region: Region) -> (r: Self)
        requires
            Pos::center_of_fits(region),
        ensures
            r == Pos::center_of(region),
    {
        Pos {
            x: region.pos.x + halved(region.dim.w),
            y: region.pos.y + halved(region.dim.h),
        }
    }

    /// The point in the middle of a rectangle of dimensions `dim` at the origin.
    pub fn from_center_of_dim(dim: Dim) -> (r: Self)
        ensures
            r.x == trunc_half(dim.w as int),
            r.y == trunc_half(dim.h as int),
    {
        Pos { x: halved(dim.w), y: halved(dim.h) }
    }

    /// The coordinates as a pair.
    pub fn values(&self) -> (r: (i32, i32))
        ensures
            r == (self.x, self.y),
    {
        (self.x, self.y)
    }

    /// The offset from `self` to `pos`.
    pub fn dist(&self, pos: Self) -> (r: Distance)
        requires
            self.dist_fits(pos),
        ensures
            r == self.dist_to(pos),
            r.dx == pos.x - self.x,
            r.dy == pos.y - self.y,
    {
        Distance { dx: pos.x - self.x, dy: pos.y - self.y }
    }

    /// `self` expressed relative to `pos`.
    pub fn relative_to(&self, pos: Self) -> (r: Self)
        requires
            fits_i32(self.x - pos.x),
            fits_i32(self.y - pos.y),
        ensures
            r.x == self.x - pos.x,
            r.y == self.y - pos.y,
    {
        Pos { x: self.x - pos.x, y: self.y - pos.y }
    }

    /// Whether `self` is the origin.
    pub fn is_origin(&self) -> (r: bool)
        ensures
            r == (self.x == 0 && self.y == 0),
    {
        self.x == 0 && self.y == 0
    }
}

impl Dim {
    /// The dimensions as a pair.
    pub fn values(&self) -> (r: (i32, i32))
        ensures
            r == (self.w, self.h),
    {
        (self.w, self.h)
    }

    /// The middle of a rectangle of these dimensions at the origin.
    pub open spec fn center_spec(self) -> Pos {
        Pos { x: trunc_half(self.w as int) as i32, y: trunc_half(self.h as int) as i32 }
    }

    /// The middle of a rectangle of these dimensions at the origin.
    pub fn center(&self) -> (r: Pos)
        ensures
            r == self.center_spec(),
            r.x == trunc_half(self.w as int),
            r.y == trunc_half(self.h as int),
    {
        Pos { x: halved(self.w), y: halved(self.h) }
    }

    /// The corner of a rectangle of these dimensions at the origin that `pos` lies nearest to.
    pub open spec fn corner_nearest(self, pos: Pos) -> Corner {
        let c = self.center_spec();
        if pos.x >= c.x {
            if pos.y >= c.y {
                Corner::BottomRight
            } else {
                Corner::TopRight
            }
        } else {
            if pos.y >= c.y {
                Corner::BottomLeft
            } else {
                Corner::TopLeft
            }
        }
    }

    /// The corner of a rectangle of these dimensions at the origin that `pos` lies nearest to.
    pub fn nearest_corner(&self, pos: Pos) -> (r: Corner)
        ensures
            r == self.corner_nearest(pos),
    {
        let center = self.center();
        if pos.x >= center.x {
            if pos.y >= center.y {
                Corner::BottomRight
            } else {
                Corner::TopRight
            }
        } else {
            if pos.y >= center.y {
                Corner::BottomLeft
            } else {
                Corner::TopLeft
            }
        }
    }
}


/// `k` is the integer nearest to the square root of `n` (no square root lies half-way between two
/// integers, so there is no tie to break).
pub open spec fn is_rounded_sqrt(n: int, k: int) -> bool {
    &&& k >= 0
    &&& (k == 0 || (2 * k - 1) * (2 * k - 1) < 4 * n)
    &&& 4 * n < (2 * k + 1) * (2 * k + 1)
}

/// The integer nearest to the square root of `n`.
pub open spec fn rounded_sqrt(n: int) -> int {
    choose|k: int| is_rounded_sqrt(n, k)
}

/// At most one integer is nearest to a square root.
pub proof fn lemma_rounded_sqrt_unique(n: int, a: int, b: int)
    requires
        is_rounded_sqrt(n, a),
        is_rounded_sqrt(n, b),
    ensures
        a == b,
{
    if a < b {
        assert((2 * a + 1) * (2 * a + 1) <= (2 * b - 1) * (2 * b - 1)) by (nonlinear_arith)
            requires
                0 <= a,
                a + 1 <= b,
        ;
    } else if b < a {
        assert((2 * b + 1) * (2 * b + 1) <= (2 * a - 1) * (2 * a - 1)) by (nonlinear_arith)
            requires
                0 <= b,
                b + 1 <= a,
        ;
    }
}

/// The integer nearest to the square root of `n`.
fn nearest_sqrt(n: u64) -> (r: u64)
    requires
        n < 0x1_0000_0000,
    ensures
        is_rounded_sqrt(n as int, r as int),
        r == rounded_sqrt(n as int),
        r <= 0x1_0000,
{
    let mut lo: u64 = 0;
    let mut hi: u64 = 0x1_0000;
    assert(n < hi * hi);
    while lo + 1 < hi
        invariant
            lo < hi <= 0x1_0000,
            lo * lo <= n,
            n < hi * hi,
        decreases hi - lo,
    {
        let mid: u64 = lo + (hi - lo) / 2;
        assert(mid * mid <= 0x1_0000 * 0x1_0000) by (nonlinear_arith)
            requires
                mid <= 0x1_0000,
        ;
        if mid * mid <= n {
            lo = mid;
        } else {
            hi = mid;
        }
    }
    let f: u64 = lo;
    assert(n < (f + 1) * (f + 1));
    let r: u64 = if n - f * f > f {
        assert(is_rounded_sqrt(n as int, f as int + 1)) by (nonlinear_arith)
            requires
                n >= f * f + f + 1,
                n < (f + 1) * (f + 1),
                f >= 0,
        ;
        f + 1
    } else {
        assert(is_rounded_sqrt(n as int, f as int)) by (nonlinear_arith)
            requires
                n <= f * f + f,
                f * f <= n,
                f >= 0,
        ;
        f
    };
    proof {
        let k = choose|k: int| is_rounded_sqrt(n as int, k);
        lemma_rounded_sqrt_unique(n as int, k, r as int);
    }
    r
}

impl Distance {
    /// The squared offsets are representable, as the length computation needs.
    pub open spec fn squares_fit(self) -> bool {
        self.dx * self.dx <= i32::MAX && self.dy * self.dy <= i32::MAX
    }

    /// The length of the offset, rounded to the nearest integer.
    pub open spec fn length(self) -> int {
        rounded_sqrt(self.dx * self.dx + self.dy * self.dy)
    }

    /// The offsets as a pair.
    pub fn values(&self) -> (r: (i32, i32))
        ensures
            r == (self.dx, self.dy),
    {
        (self.dx, self.dy)
    }

    /// The euclidean length of the offset, rounded to the nearest integer.
    pub fn pythagorean(&self) -> (r: i32)
        requires
            self.squares_fit(),
        ensures
            r == self.length(),
            is_rounded_sqrt(self.dx * self.dx + self.dy * self.dy, r as int),
    {
        assert(0 <= self.dx * self.dx && 0 <= self.dy * self.dy) by (nonlinear_arith);
        let dx: i32 = self.dx * self.dx;
        let dy: i32 = self.dy * self.dy;
        let r: u64 = nearest_sqrt(dx as u64 + dy as u64);
        r as i32
    }
}

impl Padding {
    /// The same padding `size` on every side.
    pub fn with_each_edge(size: i32) -> (r: Self)
        ensures
            r == (Padding { left: size, right: size, top: size, bottom: size }),
    {
        Padding { left: size, right: size, top: size, bottom: size }
    }
}

impl Ratio {
    /// The ratio `numerator` / `denominator`.
    pub fn new(numerator: i32, denominator: i32) -> (r: Self)
        ensures
            r == (Ratio { numerator, denominator }),
    {
        Ratio { numerator, denominator }
    }
}

impl PartialOrd for Strut {
    /// Struts are ordered by width, the widest first.
    fn partial_cmp(&self, other: &Self) -> (r: Option<core::cmp::Ordering>) {
        if other.width < self.width {
            Some(core::cmp::Ordering::Less)
        } else if other.width == self.width {
            Some(core::cmp::Ordering::Equal)
        } else {
            Some(core::cmp::Ordering::Greater)
        }
    }
}

impl vstd::std_specs::cmp::PartialOrdSpecImpl for Strut {
    open spec fn obeys_partial_cmp_spec() -> bool {
        true
    }

    open spec fn partial_cmp_spec(&self, other: &Self) -> Option<core::cmp::Ordering> {
        if other.width < self.width {
            Some(core::cmp::Ordering::Less)
        } else if other.width == self.width {
            Some(core::cmp::Ordering::Equal)
        } else {
            Some(core::cmp::Ordering::Greater)
        }
    }
}

impl Strut {
    /// The strut of `width` pixels reserved by `window`.
    pub fn new(window: Window, width: u32) -> (r: Self)
        ensures
            r == (Strut { window, width }),
    {
        Strut { window, width }
    }
}


/// The euclidean distance, rounded to the nearest integer, from `from` to `to`.
pub open spec fn corner_distance(from: Pos, to: Pos) -> int {
    rounded_sqrt((to.x - from.x) * (to.x - from.x) + (to.y - from.y) * (to.y - from.y))
}

/// The offset from `from` to `to` is representable and so are its squared components.
pub open spec fn distance_computable(from: Pos, to: Pos) -> bool {
    from.dist_fits(to) && from.dist_to(to).squares_fit()
}

impl Region {
    /// The rightmost column of the region.
    pub open spec fn right(self) -> int {
        self.pos.x + self.dim.w
    }

    /// The lowest row of the region.
    pub open spec fn bottom(self) -> int {
        self.pos.y + self.dim.h
    }

    /// The point (`x`, `y`) lies within the region, borders included.
    pub open spec fn covers(self, x: int, y: int) -> bool {
        &&& self.pos.x <= x <= self.right()
        &&& self.pos.y <= y <= self.bottom()
    }

    /// The three corners other than the top-left one are representable.
    pub open spec fn corners_fit(self) -> bool {
        fits_i32(self.right()) && fits_i32(self.bottom())
    }

    /// The top-right corner.
    pub open spec fn top_right_spec(self) -> Pos {
        Pos { x: self.right() as i32, y: self.pos.y }
    }

    /// The bottom-left corner.
    pub open spec fn bottom_left_spec(self) -> Pos {
        Pos { x: self.pos.x, y: self.bottom() as i32 }
    }

    /// The bottom-right corner.
    pub open spec fn bottom_right_spec(self) -> Pos {
        Pos { x: self.right() as i32, y: self.bottom() as i32 }
    }

    /// The width at which `split_at_width` cuts when asked for `width`.
    pub open spec fn cut_width(self, width: int) -> int {
        if width < self.dim.w {
            width
        } else {
            self.dim.w as int
        }
    }

    /// The height at which `split_at_height` cuts when asked for `height`.
    pub open spec fn cut_height(self, height: int) -> int {
        if height < self.dim.h {
            height
        } else {
            self.dim.h as int
        }
    }

    /// Splitting at `width` gives representable regions.
    pub open spec fn split_width_fits(self, width: int) -> bool {
        fits_i32(self.pos.x + self.cut_width(width)) && fits_i32(self.dim.w - self.cut_width(width))
    }

    /// Splitting at `height` gives representable regions.
    pub open spec fn split_height_fits(self, height: int) -> bool {
        fits_i32(self.pos.y + self.cut_height(height)) && fits_i32(
            self.dim.h - self.cut_height(height),
        )
    }

    /// The left and right parts of the region, cut `width` columns in (at most its width).
    pub open spec fn split_width_spec(self, width: int) -> (Region, Region) {
        let c = self.cut_width(width);
        (
            Region { pos: self.pos, dim: Dim { w: c as i32, h: self.dim.h } },
            Region {
                pos: Pos { x: (self.pos.x + c) as i32, y: self.pos.y },
                dim: Dim { w: (self.dim.w - c) as i32, h: self.dim.h },
            },
        )
    }

    /// The top and bottom parts of the region, cut `height` rows in (at most its height).
    pub open spec fn split_height_spec(self, height: int) -> (Region, Region) {
        let c = self.cut_height(height);
        (
            Region { pos: self.pos, dim: Dim { w: self.dim.w, h: c as i32 } },
            Region {
                pos: Pos { x: self.pos.x, y: (self.pos.y + c) as i32 },
                dim: Dim { w: self.dim.w, h: (self.dim.h - c) as i32 },
            },
        )
    }

    /// The half (left or right) of the region on the side of `corner`.
    pub open spec fn half_toward(self, corner: Corner) -> Region {
        let halves = self.split_width_spec(round_half(self.dim.w as int));
        match corner {
            Corner::TopLeft | Corner::BottomLeft => halves.0,
            Corner::TopRight | Corner::BottomRight => halves.1,
        }
    }

    /// The quarter of the region at `corner`.
    pub open spec fn quadrant(self, corner: Corner) -> Region {
        let half = self.half_toward(corner);
        let quarters = half.split_height_spec(round_half(half.dim.h as int));
        match corner {
            Corner::TopLeft | Corner::TopRight => quarters.0,
            Corner::BottomLeft | Corner::BottomRight => quarters.1,
        }
    }

    /// Every intermediate region and the center of the quarter at `corner` are representable.
    pub open spec fn quadrant_fits(self, corner: Corner) -> bool {
        let half = self.half_toward(corner);
        &&& self.split_width_fits(round_half(self.dim.w as int))
        &&& half.split_height_fits(round_half(half.dim.h as int))
        &&& Pos::center_of_fits(self.quadrant(corner))
    }

    /// The distances from each corner to `pos` can be computed.
    pub open spec fn corner_distances_computable(self, pos: Pos) -> bool {
        &&& self.corners_fit()
        &&& distance_computable(self.pos, pos)
        &&& distance_computable(self.top_right_spec(), pos)
        &&& distance_computable(self.bottom_left_spec(), pos)
        &&& distance_computable(self.bottom_right_spec(), pos)
    }

    /// The corner nearest to `pos`; on equal distances the first of top-left, top-right,
    /// bottom-left, bottom-right.
    pub open spec fn corner_closest_to(self, pos: Pos) -> Corner {
        let a = corner_distance(self.pos, pos);
        let b = corner_distance(self.top_right_spec(), pos);
        let c = corner_distance(self.bottom_left_spec(), pos);
        let d = corner_distance(self.bottom_right_spec(), pos);
        if a <= b && a <= c && a <= d {
            Corner::TopLeft
        } else if b <= c && b <= d {
            Corner::TopRight
        } else if c <= d {
            Corner::BottomLeft
        } else {
            Corner::BottomRight
        }
    }

    /// The region at `x`, `y` of `w` by `h`.
    pub fn new(x: i32, y: i32, w: i32, h: i32) -> (r: Self)
        ensures
            r == (Region { pos: Pos { x, y }, dim: Dim { w, h } }),
    {
        Region { pos: Pos { x, y }, dim: Dim { w, h } }
    }

    /// The position and the dimensions as a pair.
    pub fn values(&self) -> (r: (Pos, Dim))
        ensures
            r == (self.pos, self.dim),
    {
        (self.pos, self.dim)
    }

    /// Whether `pos` lies within the region, borders included.
    pub fn encompasses(&self, pos: Pos) -> (r: bool)
        ensures
            r == self.covers(pos.x as int, pos.y as int),
    {
        let x: i64 = pos.x as i64;
        let y: i64 = pos.y as i64;
        x >= self.pos.x as i64 && y >= self.pos.y as i64 && x <= self.pos.x as i64
            + self.dim.w as i64 && y <= self.pos.y as i64 + self.dim.h as i64
    }

    /// Whether the top-left and the bottom-right corners of `region` both lie within this one.
    pub fn contains(&self, region: Region) -> (r: bool)
        ensures
            r == (self.covers(region.pos.x as int, region.pos.y as int) && self.covers(
                region.right(),
                region.bottom(),
            )),
    {
        let x: i64 = region.pos.x as i64 + region.dim.w as i64;
        let y: i64 = region.pos.y as i64 + region.dim.h as i64;
        self.encompasses(region.pos) && x >= self.pos.x as i64 && y >= self.pos.y as i64 && x
            <= self.pos.x as i64 + self.dim.w as i64 && y <= self.pos.y as i64 + self.dim.h as i64
    }

    /// Whether either region holds the top-left corner of the other.
    pub fn occludes(&self, region: Region) -> (r: bool)
        ensures
            r == (self.covers(region.pos.x as int, region.pos.y as int) || region.covers(
                self.pos.x as int,
                self.pos.y as int,
            )),
    {
        self.encompasses(region.pos) || region.encompasses(self.pos)
    }

    /// The corner of the region that `pos` (in screen coordinates) lies nearest to.
    pub fn nearest_corner(&self, pos: Pos) -> (r: Corner)
        requires
            fits_i32(-self.pos.x),
            fits_i32(-self.pos.y),
            fits_i32(pos.x - self.pos.x),
            fits_i32(pos.y - self.pos.y),
        ensures
            r == self.dim.corner_nearest(
                Pos { x: (pos.x - self.pos.x) as i32, y: (pos.y - self.pos.y) as i32 },
            ),
    {
        let d = self.pos.dist(Pos { x: 0, y: 0 });
        let pos = Pos { x: pos.x + d.dx, y: pos.y + d.dy };
        self.dim.nearest_corner(pos)
    }

    /// The left part of the region, up to `width` columns wide, and the rest.
    pub fn split_at_width(&self, width: i32) -> (r: (Self, Self))
        requires
            self.split_width_fits(width as int),
        ensures
            r == self.split_width_spec(width as int),
    {
        let width: i32 = if width < self.dim.w {
            width
        } else {
            self.dim.w
        };
        (
            Region { pos: self.pos, dim: Dim { w: width, h: self.dim.h } },
            Region {
                pos: Pos { x: self.pos.x + width, y: self.pos.y },
                dim: Dim { w: self.dim.w - width, h: self.dim.h },
            },
        )
    }

    /// The top part of the region, up to `height` rows high, and the rest.
    pub fn split_at_height(&self, height: i32) -> (r: (Self, Self))
        requires
            self.split_height_fits(height as int),
        ensures
            r == self.split_height_spec(height as int),
    {
        let height: i32 = if height < self.dim.h {
            height
        } else {
            self.dim.h
        };
        (
            Region { pos: self.pos, dim: Dim { w: self.dim.w, h: height } },
            Region {
                pos: Pos { x: self.pos.x, y: self.pos.y + height },
                dim: Dim { w: self.dim.w, h: self.dim.h - height },
            },
        )
    }

    /// The region grown, where needed, to at least `minimum_dim`.
    pub fn with_minimum_dim(self, minimum_dim: &Dim) -> (r: Self)
        ensures
            r.pos == self.pos,
            r.dim.w == if minimum_dim.w > self.dim.w { minimum_dim.w } else { self.dim.w },
            r.dim.h == if minimum_dim.h > self.dim.h { minimum_dim.h } else { self.dim.h },
    {
        Region {
            pos: self.pos,
            dim: Dim {
                w: if minimum_dim.w > self.dim.w {
                    minimum_dim.w
                } else {
                    self.dim.w
                },
                h: if minimum_dim.h > self.dim.h {
                    minimum_dim.h
                } else {
                    self.dim.h
                },
            },
        }
    }

    /// The region shrunk, where needed, to at most `maximum_dim`.
    pub fn with_maximum_dim(self, maximum_dim: &Dim) -> (r: Self)
        ensures
            r.pos == self.pos,
            r.dim.w == if maximum_dim.w < self.dim.w { maximum_dim.w } else { self.dim.w },
            r.dim.h == if maximum_dim.h < self.dim.h { maximum_dim.h } else { self.dim.h },
    {
        Region {
            pos: self.pos,
            dim: Dim {
                w: if maximum_dim.w < self.dim.w {
                    maximum_dim.w
                } else {
                    self.dim.w
                },
                h: if maximum_dim.h < self.dim.h {
                    maximum_dim.h
                } else {
                    self.dim.h
                },
            },
        }
    }

    /// Where a rectangle of dimensions `dim` centered in the region has its top-left corner;
    /// along an axis in which `dim` is larger, the region's own edge.
    pub open spec fn inner_center_pos(self, dim: Dim) -> Pos {
        Pos {
            x: if dim.w > self.dim.w {
                self.pos.x
            } else {
                (self.pos.x + trunc_half(self.dim.w - dim.w)) as i32
            },
            y: if dim.h > self.dim.h {
                self.pos.y
            } else {
                (self.pos.y + trunc_half(self.dim.h - dim.h)) as i32
            },
        }
    }

    /// Centering `dim` in the region stays representable.
    pub open spec fn inner_center_fits(self, dim: Dim) -> bool {
        &&& dim.w <= self.dim.w ==> fits_i32(self.dim.w - dim.w) && fits_i32(
            self.pos.x + trunc_half(self.dim.w - dim.w),
        )
        &&& dim.h <= self.dim.h ==> fits_i32(self.dim.h - dim.h) && fits_i32(
            self.pos.y + trunc_half(self.dim.h - dim.h),
        )
    }

    /// A region of dimensions `dim` centered within this one.
    pub fn from_absolute_inner_center(self, dim: Dim) -> (r: Self)
        requires
            self.inner_center_fits(dim),
        ensures
            r == (Region { pos: self.inner_center_pos(dim), dim }),
    {
        Region {
            pos: Pos {
                x: if dim.w > self.dim.w {
                    self.pos.x
                } else {
                    self.pos.x + halved(self.dim.w - dim.w)
                },
                y: if dim.h > self.dim.h {
                    self.pos.y
                } else {
                    self.pos.y + halved(self.dim.h - dim.h)
                },
            },
            dim,
        }
    }

    /// The region left inside once `extents` are taken off its sides.
    pub open spec fn without_extents_spec(self, extents: Extents) -> Region {
        Region {
            pos: Pos {
                x: (self.pos.x + extents.left) as i32,
                y: (self.pos.y + extents.top) as i32,
            },
            dim: Dim {
                w: (self.dim.w - (extents.left + extents.right)) as i32,
                h: (self.dim.h - (extents.top + extents.bottom)) as i32,
            },
        }
    }

    /// The region once `extents` are added round its sides.
    pub open spec fn with_extents_spec(self, extents: Extents) -> Region {
        Region {
            pos: Pos {
                x: (self.pos.x - extents.left) as i32,
                y: (self.pos.y - extents.top) as i32,
            },
            dim: Dim {
                w: (self.dim.w + (extents.left + extents.right)) as i32,
                h: (self.dim.h + (extents.top + extents.bottom)) as i32,
            },
        }
    }

    /// Taking `extents` off stays representable.
    pub open spec fn without_extents_fits(self, extents: Extents) -> bool {
        &&& fits_i32(extents.left + extents.right)
        &&& fits_i32(extents.top + extents.bottom)
        &&& fits_i32(self.pos.x + extents.left)
        &&& fits_i32(self.pos.y + extents.top)
        &&& fits_i32(self.dim.w - (extents.left + extents.right))
        &&& fits_i32(self.dim.h - (extents.top + extents.bottom))
    }

    /// Adding `extents` stays representable.
    pub open spec fn with_extents_fits(self, extents: Extents) -> bool {
        &&& fits_i32(extents.left + extents.right)
        &&& fits_i32(extents.top + extents.bottom)
        &&& fits_i32(self.pos.x - extents.left)
        &&& fits_i32(self.pos.y - extents.top)
        &&& fits_i32(self.dim.w + (extents.left + extents.right))
        &&& fits_i32(self.dim.h + (extents.top + extents.bottom))
    }

    /// The region left inside once `extents` are taken off its sides.
    pub fn without_extents(self, extents: Extents) -> (r: Self)
        requires
            self.without_extents_fits(extents),
        ensures
            r == self.without_extents_spec(extents),
    {
        let mut region = self;
        region.pos.x = region.pos.x + extents.left;
        region.pos.y = region.pos.y + extents.top;
        region.dim.w = region.dim.w - (extents.left + extents.right);
        region.dim.h = region.dim.h - (extents.top + extents.bottom);
        region
    }

    /// The region once `extents` are added round its sides.
    pub fn with_extents(self, extents: Extents) -> (r: Self)
        requires
            self.with_extents_fits(extents),
        ensures
            r == self.with_extents_spec(extents),
    {
        let mut region = self;
        region.pos.x = region.pos.x - extents.left;
        region.pos.y = region.pos.y - extents.top;
        region.dim.w = region.dim.w + (extents.left + extents.right);
        region.dim.h = region.dim.h + (extents.top + extents.bottom);
        region
    }

    /// The top-right corner.
    pub fn top_right(&self) -> (r: Pos)
        requires
            fits_i32(self.right()),
        ensures
            r == self.top_right_spec(),
    {
        Pos { x: self.pos.x + self.dim.w, y: self.pos.y }
    }

    /// The bottom-left corner.
    pub fn bottom_left(&self) -> (r: Pos)
        requires
            fits_i32(self.bottom()),
        ensures
            r == self.bottom_left_spec(),
    {
        Pos { x: self.pos.x, y: self.pos.y + self.dim.h }
    }

    /// The bottom-right corner.
    pub fn bottom_right(&self) -> (r: Pos)
        requires
            self.corners_fit(),
        ensures
            r == self.bottom_right_spec(),
    {
        Pos { x: self.pos.x + self.dim.w, y: self.pos.y + self.dim.h }
    }

    /// For a point outside the region, the center of the quarter of the region at the corner
    /// nearest to it; `None` for a point inside.
    pub fn quadrant_center_from_pos(&self, pos: Pos) -> (r: Option<Pos>)
        requires
            !self.covers(pos.x as int, pos.y as int) ==> self.corner_distances_computable(pos)
                && self.quadrant_fits(self.corner_closest_to(pos)),
        ensures
            r == if self.covers(pos.x as int, pos.y as int) {
                None
            } else {
                Some(Pos::center_of(self.quadrant(self.corner_closest_to(pos))))
            },
    {
        if self.encompasses(pos) {
            return None;
        }
        let top_right = self.top_right();
        let bottom_left = self.bottom_left();
        let bottom_right = self.bottom_right();
        let a: i32 = self.pos.dist(pos).pythagorean();
        let b: i32 = top_right.dist(pos).pythagorean();
        let c: i32 = bottom_left.dist(pos).pythagorean();
        let d: i32 = bottom_right.dist(pos).pythagorean();
        let mut corner = Corner::TopLeft;
        let mut best: i32 = a;
        if b < best {
            corner = Corner::TopRight;
            best = b;
        }
        if c < best {
            corner = Corner::BottomLeft;
            best = c;
        }
        if d < best {
            corner = Corner::BottomRight;
            best = d;
        }
        assert(corner == self.corner_closest_to(pos));
        let halves = self.split_at_width(rounded_half(self.dim.w));
        let half = match corner {
            Corner::TopLeft | Corner::BottomLeft => halves.0,
            Corner::TopRight | Corner::BottomRight => halves.1,
        };
        let quarters = half.split_at_height(rounded_half(half.dim.h));
        let quarter = match corner {
            Corner::TopLeft | Corner::TopRight => quarters.0,
            Corner::BottomLeft | Corner::BottomRight => quarters.1,
        };
        Some(Pos::from_center_of_region(quarter))
    }
}

/// Framing a region with `extents` and taking them off again gives the region back.
pub proof fn law_extents_undone(region: Region, extents: Extents)
    requires
        region.with_extents_fits(extents),
    ensures
        region.with_extents_spec(extents).without_extents_fits(extents),
        region.with_extents_spec(extents).without_extents_spec(extents) == region,
{
}

/// Taking `extents` off a region and framing it with them again gives the region back.
pub proof fn law_extents_restored(region: Region, extents: Extents)
    requires
        region.without_extents_fits(extents),
    ensures
        region.without_extents_spec(extents).with_extents_fits(extents),
        region.without_extents_spec(extents).with_extents_spec(extents) == region,
{
}

/// The two parts of a split along the width tile the region: side by side, same rows, widths
/// adding up to the whole.
pub proof fn law_split_width_tiles(region: Region, width: i32)
    requires
        region.split_width_fits(width as int),
    ensures
        ({
            let (left, right) = region.split_width_spec(width as int);
            &&& left.pos == region.pos
            &&& left.dim.h == region.dim.h && right.dim.h == region.dim.h
            &&& right.pos.y == region.pos.y
            &&& right.pos.x == left.pos.x + left.dim.w
            &&& left.dim.w + right.dim.w == region.dim.w
            &&& left.dim.w <= width
        }),
{
}

/// The two parts of a split along the height tile the region: one above the other, same
/// columns, heights adding up to the whole.
pub proof fn law_split_height_tiles(region: Region, height: i32)
    requires
        region.split_height_fits(height as int),
    ensures
        ({
            let (top, bottom) = region.split_height_spec(height as int);
            &&& top.pos == region.pos
            &&& top.dim.w == region.dim.w && bottom.dim.w == region.dim.w
            &&& bottom.pos.x == region.pos.x
            &&& bottom.pos.y == top.pos.y + top.dim.h
            &&& top.dim.h + bottom.dim.h == region.dim.h
            &&& top.dim.h <= height
        }),
{
}

/// A region of non-negative dimensions contains itself, and whether two regions occlude one
/// another does not depend on which is asked.
pub proof fn law_containment_basics(a: Region, b: Region)
    requires
        a.dim.w >= 0,
        a.dim.h >= 0,
    ensures
        a.covers(a.pos.x as int, a.pos.y as int) && a.covers(a.right(), a.bottom()),
        (a.covers(b.pos.x as int, b.pos.y as int) || b.covers(a.pos.x as int, a.pos.y as int))
            == (b.covers(a.pos.x as int, a.pos.y as int) || a.covers(
            b.pos.x as int,
            b.pos.y as int,
        )),
{
}

/// A region of dimensions that fit is centered within a larger one: it lies inside it, as far
/// from its left edge as from its right one, give or take a column (and likewise vertically).
pub proof fn law_inner_center_inside(outer: Region, dim: Dim)
    requires
        outer.inner_center_fits(dim),
        0 <= dim.w <= outer.dim.w,
        0 <= dim.h <= outer.dim.h,
    ensures
        ({
            let inner = Region { pos: outer.inner_center_pos(dim), dim };
            &&& outer.covers(inner.pos.x as int, inner.pos.y as int)
            &&& outer.covers(inner.right(), inner.bottom())
            &&& 0 <= (outer.right() - inner.right()) - (inner.pos.x - outer.pos.x) <= 1
            &&& 0 <= (outer.bottom() - inner.bottom()) - (inner.pos.y - outer.pos.y) <= 1
        }),
{
}


impl core::ops::Add<Pos> for Pos {
    type Output = Pos;

    /// The sum of the two points, coordinate by coordinate.
    fn add(self, rhs: Pos) -> (r: Pos) {
        Pos { x: self.x + rhs.x, y: self.y + rhs.y }
    }
}

impl vstd::std_specs::ops::AddSpecImpl<Pos> for Pos {
    open spec fn obeys_add_spec() -> bool {
        true
    }

    open spec fn add_req(self, rhs: Pos) -> bool {
        fits_i32(self.x + rhs.x) && fits_i32(self.y + rhs.y)
    }

    open spec fn add_spec(self, rhs: Pos) -> Pos {
        Pos { x: (self.x + rhs.x) as i32, y: (self.y + rhs.y) as i32 }
    }
}

impl core::ops::Add<Dim> for Pos {
    type Output = Pos;

    /// The point moved by the dimensions.
    fn add(self, rhs: Dim) -> (r: Pos) {
        Pos { x: self.x + rhs.w, y: self.y + rhs.h }
    }
}

impl vstd::std_specs::ops::AddSpecImpl<Dim> for Pos {
    open spec fn obeys_add_spec() -> bool {
        true
    }

    open spec fn add_req(self, rhs: Dim) -> bool {
        fits_i32(self.x + rhs.w) && fits_i32(self.y + rhs.h)
    }

    open spec fn add_spec(self, rhs: Dim) -> Pos {
        Pos { x: (self.x + rhs.w) as i32, y: (self.y + rhs.h) as i32 }
    }
}

impl core::ops::Sub<Dim> for Pos {
    type Output = Pos;

    /// The point moved back by the dimensions.
    fn sub(self, rhs: Dim) -> (r: Pos) {
        Pos { x: self.x - rhs.w, y: self.y - rhs.h }
    }
}

impl vstd::std_specs::ops::SubSpecImpl<Dim> for Pos {
    open spec fn obeys_sub_spec() -> bool {
        true
    }

    open spec fn sub_req(self, rhs: Dim) -> bool {
        fits_i32(self.x - rhs.w) && fits_i32(self.y - rhs.h)
    }

    open spec fn sub_spec(self, rhs: Dim) -> Pos {
        Pos { x: (self.x - rhs.w) as i32, y: (self.y - rhs.h) as i32 }
    }
}

impl core::ops::Sub<Pos> for Pos {
    type Output = Dim;

    /// The dimensions spanned from `rhs` to the point.
    fn sub(self, rhs: Pos) -> (r: Dim) {
        Dim { w: self.x - rhs.x, h: self.y - rhs.y }
    }
}

impl vstd::std_specs::ops::SubSpecImpl<Pos> for Pos {
    open spec fn obeys_sub_spec() -> bool {
        true
    }

    open spec fn sub_req(self, rhs: Pos) -> bool {
        fits_i32(self.x - rhs.x) && fits_i32(self.y - rhs.y)
    }

    open spec fn sub_spec(self, rhs: Pos) -> Dim {
        Dim { w: (self.x - rhs.x) as i32, h: (self.y - rhs.y) as i32 }
    }
}

impl core::ops::Add<Distance> for Pos {
    type Output = Pos;

    /// The point moved by the offset.
    fn add(self, rhs: Distance) -> (r: Pos) {
        Pos { x: self.x + rhs.dx, y: self.y + rhs.dy }
    }
}

impl vstd::std_specs::ops::AddSpecImpl<Distance> for Pos {
    open spec fn obeys_add_spec() -> bool {
        true
    }

    open spec fn add_req(self, rhs: Distance) -> bool {
        fits_i32(self.x + rhs.dx) && fits_i32(self.y + rhs.dy)
    }

    open spec fn add_spec(self, rhs: Distance) -> Pos {
        Pos { x: (self.x + rhs.dx) as i32, y: (self.y + rhs.dy) as i32 }
    }
}

impl core::ops::Sub<Distance> for Pos {
    type Output = Pos;

    /// The point moved back by the offset.
    fn sub(self, rhs: Distance) -> (r: Pos) {
        Pos { x: self.x - rhs.dx, y: self.y - rhs.dy }
    }
}

impl vstd::std_specs::ops::SubSpecImpl<Distance> for Pos {
    open spec fn obeys_sub_spec() -> bool {
        true
    }

    open spec fn sub_req(self, rhs: Distance) -> bool {
        fits_i32(self.x - rhs.dx) && fits_i32(self.y - rhs.dy)
    }

    open spec fn sub_spec(self, rhs: Distance) -> Pos {
        Pos { x: (self.x - rhs.dx) as i32, y: (self.y - rhs.dy) as i32 }
    }
}

impl core::ops::Add<Padding> for Dim {
    type Output = Dim;

    /// The dimensions with the padding added on each side.
    fn add(self, rhs: Padding) -> (r: Dim) {
        Dim { w: self.w + rhs.left + rhs.right, h: self.h + rhs.top + rhs.bottom }
    }
}

impl vstd::std_specs::ops::AddSpecImpl<Padding> for Dim {
    open spec fn obeys_add_spec() -> bool {
        true
    }

    open spec fn add_req(self, rhs: Padding) -> bool {
        fits_i32(self.w + rhs.left) && fits_i32(self.w + rhs.left + rhs.right) && fits_i32(self.h + rhs.top) && fits_i32(self.h + rhs.top + rhs.bottom)
    }

    open spec fn add_spec(self, rhs: Padding) -> Dim {
        Dim { w: (self.w + rhs.left + rhs.right) as i32, h: (self.h + rhs.top + rhs.bottom) as i32 }
    }
}

impl core::ops::Sub<Padding> for Dim {
    type Output = Dim;

    /// The dimensions with the padding taken off each side.
    fn sub(self, rhs: Padding) -> (r: Dim) {
        Dim { w: self.w - rhs.left - rhs.right, h: self.h - rhs.top - rhs.bottom }
    }
}

impl vstd::std_specs::ops::SubSpecImpl<Padding> for Dim {
    open spec fn obeys_sub_spec() -> bool {
        true
    }

    open spec fn sub_req(self, rhs: Padding) -> bool {
        fits_i32(self.w - rhs.left) && fits_i32(self.w - rhs.left - rhs.right) && fits_i32(self.h - rhs.top) && fits_i32(self.h - rhs.top - rhs.bottom)
    }

    open spec fn sub_spec(self, rhs: Padding) -> Dim {
        Dim { w: (self.w - rhs.left - rhs.right) as i32, h: (self.h - rhs.top - rhs.bottom) as i32 }
    }
}

impl core::ops::Add<Distance> for Dim {
    type Output = Dim;

    /// The dimensions grown by the offset, each made non-negative.
    fn add(self, rhs: Distance) -> (r: Dim) {
        let w: i32 = self.w + rhs.dx;
        let h: i32 = self.h + rhs.dy;
        Dim { w: if w < 0 { -w } else { w }, h: if h < 0 { -h } else { h } }
    }
}

impl vstd::std_specs::ops::AddSpecImpl<Distance> for Dim {
    open spec fn obeys_add_spec() -> bool {
        true
    }

    open spec fn add_req(self, rhs: Distance) -> bool {
        fits_i32(self.w + rhs.dx) && fits_i32(self.h + rhs.dy) && self.w + rhs.dx != i32::MIN
            && self.h + rhs.dy != i32::MIN
    }

    open spec fn add_spec(self, rhs: Distance) -> Dim {
        Dim {
            w: (if self.w + rhs.dx < 0 { -(self.w + rhs.dx) } else { self.w + rhs.dx }) as i32,
            h: (if self.h + rhs.dy < 0 { -(self.h + rhs.dy) } else { self.h + rhs.dy }) as i32,
        }
    }
}

impl core::ops::Sub<Distance> for Dim {
    type Output = Dim;

    /// The dimensions shrunk by the offset, each made non-negative.
    fn sub(self, rhs: Distance) -> (r: Dim) {
        let w: i32 = self.w - rhs.dx;
        let h: i32 = self.h - rhs.dy;
        Dim { w: if w < 0 { -w } else { w }, h: if h < 0 { -h } else { h } }
    }
}

impl vstd::std_specs::ops::SubSpecImpl<Distance> for Dim {
    open spec fn obeys_sub_spec() -> bool {
        true
    }

    open spec fn sub_req(self, rhs: Distance) -> bool {
        fits_i32(self.w - rhs.dx) && fits_i32(self.h - rhs.dy) && self.w - rhs.dx != i32::MIN
            && self.h - rhs.dy != i32::MIN
    }

    open spec fn sub_spec(self, rhs: Distance) -> Dim {
        Dim {
            w: (if self.w - rhs.dx < 0 { -(self.w - rhs.dx) } else { self.w - rhs.dx }) as i32,
            h: (if self.h - rhs.dy < 0 { -(self.h - rhs.dy) } else { self.h - rhs.dy }) as i32,
        }
    }
}

impl core::ops::Add<Padding> for Region {
    type Output = Region;

    /// The region with the padding added round it.
    fn add(self, rhs: Padding) -> (r: Region) {
        Region {
            pos: Pos { x: self.pos.x - rhs.left, y: self.pos.y - rhs.top },
            dim: Dim { w: self.dim.w + rhs.left + rhs.right, h: self.dim.h + rhs.top + rhs.bottom },
        }
    }
}

impl vstd::std_specs::ops::AddSpecImpl<Padding> for Region {
    open spec fn obeys_add_spec() -> bool {
        true
    }

    open spec fn add_req(self, rhs: Padding) -> bool {
        &&& fits_i32(self.pos.x - rhs.left) && fits_i32(self.pos.y - rhs.top)
        &&& fits_i32(self.dim.w + rhs.left) && fits_i32(self.dim.w + rhs.left + rhs.right)
        &&& fits_i32(self.dim.h + rhs.top) && fits_i32(self.dim.h + rhs.top + rhs.bottom)
    }

    open spec fn add_spec(self, rhs: Padding) -> Region {
        Region {
            pos: Pos { x: (self.pos.x - rhs.left) as i32, y: (self.pos.y - rhs.top) as i32 },
            dim: Dim {
                w: (self.dim.w + rhs.left + rhs.right) as i32,
                h: (self.dim.h + rhs.top + rhs.bottom) as i32,
            },
        }
    }
}

impl core::ops::Sub<Padding> for Region {
    type Output = Region;

    /// The region with the padding taken off its sides.
    fn sub(self, rhs: Padding) -> (r: Region) {
        Region {
            pos: Pos { x: self.pos.x + rhs.left, y: self.pos.y + rhs.top },
            dim: Dim { w: self.dim.w - rhs.left - rhs.right, h: self.dim.h - rhs.top - rhs.bottom },
        }
    }
}

impl vstd::std_specs::ops::SubSpecImpl<Padding> for Region {
    open spec fn obeys_sub_spec() -> bool {
        true
    }

    open spec fn sub_req(self, rhs: Padding) -> bool {
        &&& fits_i32(self.pos.x + rhs.left) && fits_i32(self.pos.y + rhs.top)
        &&& fits_i32(self.dim.w - rhs.left) && fits_i32(self.dim.w - rhs.left - rhs.right)
        &&& fits_i32(self.dim.h - rhs.top) && fits_i32(self.dim.h - rhs.top - rhs.bottom)
    }

    open spec fn sub_spec(self, rhs: Padding) -> Region {
        Region {
            pos: Pos { x: (self.pos.x + rhs.left) as i32, y: (self.pos.y + rhs.top) as i32 },
            dim: Dim {
                w: (self.dim.w - rhs.left - rhs.right) as i32,
                h: (self.dim.h - rhs.top - rhs.bottom) as i32,
            },
        }
    }
}

} // verus!
