//! Points, sizes, rectangles and dimensions with a baseline.

use vstd::prelude::*;

verus! {

/// The number of length units in one point.
pub const UNITS_PER_PT: i64 = 10_000;

/// The tolerance of fit tests: one unit, a ten-thousandth of a point.
pub const EPS: i64 = 1;

/// The largest extent the engine lays out, in units.
pub const MAX_LEN: i64 = 0x100_0000_0000;

/// Whether a length lies between zero and `MAX_LEN`.
pub open spec fn is_extent(v: i64) -> bool {
    0 <= v <= MAX_LEN
}

/// Whether a coordinate lies between `-MAX_LEN` and `MAX_LEN`.
pub open spec fn is_coord(v: i64) -> bool {
    -MAX_LEN <= v <= MAX_LEN
}

/// The smaller of two integers.
pub open spec fn min_int(a: int, b: int) -> int {
    if a <= b {
        a
    } else {
        b
    }
}

/// The larger of two integers.
pub open spec fn max_int(a: int, b: int) -> int {
    if a >= b {
        a
    } else {
        b
    }
}

/// The smaller of two lengths.
pub fn min_len(a: i64, b: i64) -> (r: i64)
    ensures
        r == min_int(a as int, b as int),
{
    if a <= b {
        a
    } else {
        b
    }
}

/// The larger of two lengths.
pub fn max_len(a: i64, b: i64) -> (r: i64)
    ensures
        r == max_int(a as int, b as int),
{
    if a >= b {
        a
    } else {
        b
    }
}

/// A position in a layout's coordinate frame, whose origin is the top-left
/// corner; `y` grows downwards.
#[derive(Clone, Copy, Debug, PartialEq, Eq, Structural)]
pub struct Point {
    pub x: i64,
    pub y: i64,
}

impl Point {
    /// The origin.
    pub fn zero() -> (p: Point)
        ensures
            p == (Point { x: 0, y: 0 }),
    {
        Point { x: 0, y: 0 }
    }

    pub fn new(x: i64, y: i64) -> (p: Point)
        ensures
            p == (Point { x, y }),
    {
        Point { x, y }
    }

    /// Whether moving this point by `delta` stays within machine range.
    pub open spec fn can_shift(self, delta: Point) -> bool {
        &&& i64::MIN <= self.x + delta.x <= i64::MAX
        &&& i64::MIN <= self.y + delta.y <= i64::MAX
    }

    /// This point moved by `delta`, taken as a vector.
    pub open spec fn shifted(self, delta: Point) -> Point {
        Point { x: (self.x + delta.x) as i64, y: (self.y + delta.y) as i64 }
    }

    /// Moves this point by `delta`, taken as a vector.
    pub fn shift(self, delta: Point) -> (p: Point)
        requires
            self.can_shift(delta),
        ensures
            p == self.shifted(delta),
            p.x == self.x + delta.x,
            p.y == self.y + delta.y,
    {
        Point { x: self.x + delta.x, y: self.y + delta.y }
    }
}

/// The margins of a page, or the amounts to take off the four sides of a
/// rectangle.
#[derive(Clone, Copy, Debug, PartialEq, Eq, Structural)]
pub struct Sides {
    pub left: i64,
    pub top: i64,
    pub right: i64,
    pub bottom: i64,
}

impl Sides {
    pub fn new(left: i64, top: i64, right: i64, bottom: i64) -> (s: Sides)
        ensures
            s == (Sides { left, top, right, bottom }),
    {
        Sides { left, top, right, bottom }
    }

    /// The same amount on all four sides.
    pub fn uniform(v: i64) -> (s: Sides)
        ensures
            s == (Sides { left: v, top: v, right: v, bottom: v }),
    {
        Sides { left: v, top: v, right: v, bottom: v }
    }

    /// Whether every side is an extent.
    pub open spec fn wf(self) -> bool {
        &&& is_extent(self.left)
        &&& is_extent(self.top)
        &&& is_extent(self.right)
        &&& is_extent(self.bottom)
    }
}

/// A width and a height.
#[derive(Clone, Copy, Debug, PartialEq, Eq, Structural)]
pub struct Size {
    pub width: i64,
    pub height: i64,
}

impl Size {
    /// The empty size.
    pub fn zero() -> (s: Size)
        ensures
            s == (Size { width: 0, height: 0 }),
    {
        Size { width: 0, height: 0 }
    }

    pub fn new(width: i64, height: i64) -> (s: Size)
        ensures
            s == (Size { width, height }),
    {
        Size { width, height }
    }

    /// Whether both extents lie between zero and `MAX_LEN`.
    pub open spec fn wf(self) -> bool {
        is_extent(self.width) && is_extent(self.height)
    }

    /// The rectangle of this size whose top-left corner is the origin.
    pub open spec fn rect(self) -> Rect {
        Rect { x0: 0, y0: 0, x1: self.width, y1: self.height }
    }

    /// The rectangle of this size whose top-left corner is the origin.
    pub fn to_rect(self) -> (r: Rect)
        ensures
            r == self.rect(),
    {
        Rect { x0: 0, y0: 0, x1: self.width, y1: self.height }
    }
}

/// An axis-aligned rectangle from `(x0, y0)`, its top-left corner, to
/// `(x1, y1)`.
#[derive(Clone, Copy, Debug, PartialEq, Eq, Structural)]
pub struct Rect {
    pub x0: i64,
    pub y0: i64,
    pub x1: i64,
    pub y1: i64,
}

impl Rect {
    pub fn new(x0: i64, y0: i64, x1: i64, y1: i64) -> (r: Rect)
        ensures
            r == (Rect { x0, y0, x1, y1 }),
    {
        Rect { x0, y0, x1, y1 }
    }

    /// Whether the rectangle is not inverted and its coordinates are
    /// coordinates of the engine.
    pub open spec fn wf(self) -> bool {
        &&& is_coord(self.x0)
        &&& is_coord(self.y0)
        &&& is_coord(self.x1)
        &&& is_coord(self.y1)
        &&& self.x0 <= self.x1
        &&& self.y0 <= self.y1
    }

    /// The horizontal extent.
    pub open spec fn spec_width(self) -> int {
        self.x1 - self.x0
    }

    /// The vertical extent.
    pub open spec fn spec_height(self) -> int {
        self.y1 - self.y0
    }

    /// The horizontal extent.
    pub fn width(&self) -> (w: i64)
        requires
            i64::MIN <= self.spec_width() <= i64::MAX,
        ensures
            w == self.spec_width(),
    {
        self.x1 - self.x0
    }

    /// The vertical extent.
    pub fn height(&self) -> (h: i64)
        requires
            i64::MIN <= self.spec_height() <= i64::MAX,
        ensures
            h == self.spec_height(),
    {
        self.y1 - self.y0
    }

    /// Whether `other` lies inside this rectangle.
    pub open spec fn encloses(self, other: Rect) -> bool {
        &&& self.x0 <= other.x0
        &&& other.x1 <= self.x1
        &&& self.y0 <= other.y0
        &&& other.y1 <= self.y1
    }

    /// Whether `p` lies in this rectangle grown by `by` on every side.
    pub open spec fn holds_within(self, p: Point, by: int) -> bool {
        &&& self.x0 - by <= p.x <= self.x1 + by
        &&& self.y0 - by <= p.y <= self.y1 + by
    }

    /// Whether `p` lies in this rectangle grown by `by` on every side.
    pub fn contains_within(&self, p: Point, by: i64) -> (b: bool)
        requires
            self.wf(),
            is_extent(by),
        ensures
            b == self.holds_within(p, by as int),
    {
        self.x0 - by <= p.x && p.x <= self.x1 + by && self.y0 - by <= p.y && p.y <= self.y1 + by
    }

    /// The rectangle with `margins` taken off: the left and top edges move
    /// inwards first and stop at the opposite edge, then the right and bottom
    /// edges move inwards and stop at the moved left and top edges.
    pub open spec fn spec_inset(self, margins: Sides) -> Rect {
        let x0 = min_int(self.x0 + margins.left, self.x1 as int);
        let y0 = min_int(self.y0 + margins.top, self.y1 as int);
        let x1 = max_int(self.x1 - margins.right, x0);
        let y1 = max_int(self.y1 - margins.bottom, y0);
        Rect { x0: x0 as i64, y0: y0 as i64, x1: x1 as i64, y1: y1 as i64 }
    }

    /// Takes `margins` off the four sides. An edge never crosses the opposite
    /// one: where the margins are too large the rectangle becomes empty, never
    /// inverted.
    pub fn inset(&self, margins: Sides) -> (r: Rect)
        requires
            self.wf(),
            margins.wf(),
        ensures
            r == self.spec_inset(margins),
            r.wf(),
            self.encloses(r),
    {
        let x0: i64 = min_len(self.x0 + margins.left, self.x1);
        let y0: i64 = min_len(self.y0 + margins.top, self.y1);
        let x1: i64 = max_len(self.x1 - margins.right, x0);
        let y1: i64 = max_len(self.y1 - margins.bottom, y0);
        Rect { x0, y0, x1, y1 }
    }
}

/// The extent of a box with a baseline: `height` reaches from the top of the
/// box down to the baseline and `depth` from the baseline to the bottom.
#[derive(Clone, Copy, Debug, PartialEq, Eq, Structural)]
pub struct Dim {
    pub width: i64,
    pub height: i64,
    pub depth: i64,
}

impl Dim {
    /// The empty dimension.
    pub open spec fn spec_zero() -> Dim {
        Dim { width: 0, height: 0, depth: 0 }
    }

    /// The empty dimension.
    pub fn zero() -> (d: Dim)
        ensures
            d == Dim::spec_zero(),
    {
        Dim { width: 0, height: 0, depth: 0 }
    }

    pub fn new(width: i64, height: i64, depth: i64) -> (d: Dim)
        ensures
            d == (Dim { width, height, depth }),
    {
        Dim { width, height, depth }
    }

    /// Whether all three extents lie between zero and `MAX_LEN`.
    pub open spec fn wf(self) -> bool {
        &&& is_extent(self.width)
        &&& is_extent(self.height)
        &&& is_extent(self.depth)
    }

    /// The full vertical extent, above and below the baseline.
    pub open spec fn total_height(self) -> int {
        self.height + self.depth
    }

    /// The size of the box: its width and its full vertical extent.
    pub open spec fn spec_to_size(self) -> Size {
        Size { width: self.width, height: (self.height + self.depth) as i64 }
    }

    /// The size of the box: its width and its full vertical extent.
    pub fn to_size(&self) -> (s: Size)
        requires
            i64::MIN <= self.total_height() <= i64::MAX,
        ensures
            s == self.spec_to_size(),
            s.width == self.width,
            s.height == self.height + self.depth,
    {
        Size { width: self.width, height: self.height + self.depth }
    }
}

} // verus!
