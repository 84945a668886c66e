//! Areas: the rectangular regions content is placed into, and supplies of
//! them.

use vstd::prelude::*;
use crate::geom::{max_int, max_len, min_int, min_len, Dim, Point, Rect, Sides, Size, EPS};
use crate::primitive::Side;

verus! {

/// The outline of a region that is not a rectangle. Areas keep room for one,
/// but placement works on rectangles only.
#[derive(Clone, Copy, Debug, PartialEq, Eq, Structural)]
pub struct ShapeGroup {
    /// The rectangle around the outline.
    pub bounds: Rect,
}

/// What a supply of areas does when it runs out.
#[derive(Clone, Copy, Debug, PartialEq, Eq, Structural)]
pub enum Overflow {
    /// The supply ends after its last area.
    Stop,
    /// The last area is handed out again and again.
    Spill,
}

/// A region to place content into.
#[derive(Clone, Copy, Debug, PartialEq, Eq, Structural)]
pub struct Area {
    /// The size of the page the region lies on.
    pub size: Size,
    /// The part of the page that is still free.
    pub usable: Rect,
    /// The outline of the region where it is not a rectangle.
    pub shape: Option<ShapeGroup>,
}

impl Area {
    /// Whether the area is a rectangle whose free part is not inverted and
    /// lies on the page.
    pub open spec fn wf(self) -> bool {
        &&& self.shape is None
        &&& self.size.wf()
        &&& self.usable.wf()
        &&& self.size.rect().encloses(self.usable)
    }

    /// The rectangular area that covers a page of size `size` but for
    /// `margins`.
    pub fn of_page(size: Size, margins: Sides) -> (a: Area)
        requires
            size.wf(),
            margins.wf(),
        ensures
            a.wf(),
            a.size == size,
            a.usable == size.rect().spec_inset(margins),
            a.shape is None,
    {
        Area { size, usable: size.to_rect().inset(margins), shape: None }
    }

    /// Whether a box of dimension `dim` fits into the free part, with a
    /// tolerance of `EPS` along each axis.
    pub open spec fn fits(self, dim: Dim) -> bool {
        &&& self.usable.spec_width() + EPS >= dim.width
        &&& self.usable.spec_height() + EPS >= dim.height + dim.depth
    }

    /// Where the start of the baseline of a box of dimension `dim` comes to
    /// lie when the box is placed against the top of the free part: at its
    /// left edge, `dim.height` below its top edge. `None` if the box does not
    /// fit.
    pub open spec fn spec_place(self, dim: Dim) -> Option<Point> {
        if self.fits(dim) {
            Some(Point { x: self.usable.x0, y: (self.usable.y0 + dim.height) as i64 })
        } else {
            None
        }
    }

    /// Finds the place of a box of dimension `dim` against the top of the free
    /// part: the point at which its baseline starts, or `None` if the box
    /// does not fit. Placement is defined against the top of a rectangular
    /// area only.
    pub fn place(&self, dim: Dim, side: Side) -> (p: Option<Point>)
        requires
            side == Side::Top,
            self.shape is None,
            self.usable.wf(),
            i64::MIN <= dim.height + dim.depth <= i64::MAX,
            i64::MIN <= self.usable.y0 + dim.height <= i64::MAX,
        ensures
            p == self.spec_place(dim),
            p is Some <==> self.fits(dim),
            p matches Some(at) ==> at.x == self.usable.x0 && at.y == self.usable.y0 + dim.height,
    {
        if self.usable.width() + EPS >= dim.width && self.usable.height() + EPS >= dim.height
            + dim.depth {
            Some(Point::new(self.usable.x0, self.usable.y0 + dim.height))
        } else {
            None
        }
    }

    /// The free part after the edge on `side` has moved inwards by `by`, but
    /// not past the opposite edge.
    pub open spec fn shrunk_by(self, by: int, side: Side) -> Rect {
        let u = self.usable;
        match side {
            Side::Left => Rect { x0: min_int(u.x0 + by, u.x1 as int) as i64, ..u },
            Side::Right => Rect { x1: max_int(u.x1 - by, u.x0 as int) as i64, ..u },
            Side::Top => Rect { y0: min_int(u.y0 + by, u.y1 as int) as i64, ..u },
            Side::Bottom => Rect { y1: max_int(u.y1 - by, u.y0 as int) as i64, ..u },
        }
    }

    /// Whether moving the edge on `side` by `by` stays within machine range.
    pub open spec fn can_shrink_by(self, by: int, side: Side) -> bool {
        match side {
            Side::Left => i64::MIN <= self.usable.x0 + by <= i64::MAX,
            Side::Right => i64::MIN <= self.usable.x1 - by <= i64::MAX,
            Side::Top => i64::MIN <= self.usable.y0 + by <= i64::MAX,
            Side::Bottom => i64::MIN <= self.usable.y1 - by <= i64::MAX,
        }
    }

    /// Moves the edge of the free part on `side` inwards by `by`. The edge
    /// stops at the opposite one, so the free part is never inverted.
    pub fn shrink_by(&mut self, by: i64, side: Side)
        requires
            old(self).usable.wf(),
            old(self).can_shrink_by(by as int, side),
        ensures
            final(self).usable == old(self).shrunk_by(by as int, side),
            final(self).size == old(self).size,
            final(self).shape == old(self).shape,
            final(self).usable.x0 <= final(self).usable.x1,
            final(self).usable.y0 <= final(self).usable.y1,
            by >= 0 ==> final(self).usable.wf() && old(self).usable.encloses(final(self).usable),
            by >= 0 && old(self).wf() ==> final(self).wf(),
    {
        match side {
            Side::Left => {
                self.usable.x0 = min_len(self.usable.x0 + by, self.usable.x1);
            },
            Side::Right => {
                self.usable.x1 = max_len(self.usable.x1 - by, self.usable.x0);
            },
            Side::Top => {
                self.usable.y0 = min_len(self.usable.y0 + by, self.usable.y1);
            },
            Side::Bottom => {
                self.usable.y1 = max_len(self.usable.y1 - by, self.usable.y0);
            },
        }
    }

    /// The free part after the edge on `side` has moved to the coordinate
    /// `to`, but not past the opposite edge.
    pub open spec fn shrunk_to(self, to: int, side: Side) -> Rect {
        let u = self.usable;
        match side {
            Side::Left => Rect { x0: min_int(to, u.x1 as int) as i64, ..u },
            Side::Right => Rect { x1: max_int(to, u.x0 as int) as i64, ..u },
            Side::Top => Rect { y0: min_int(to, u.y1 as int) as i64, ..u },
            Side::Bottom => Rect { y1: max_int(to, u.y0 as int) as i64, ..u },
        }
    }

    /// Whether the coordinate `to` is not outside the edge of the free part on
    /// `side`, so that moving the edge there does not widen the free part.
    pub open spec fn narrows(self, to: int, side: Side) -> bool {
        match side {
            Side::Left => self.usable.x0 <= to,
            Side::Right => to <= self.usable.x1,
            Side::Top => self.usable.y0 <= to,
            Side::Bottom => to <= self.usable.y1,
        }
    }

    /// Moves the edge of the free part on `side` to the coordinate `to`. The
    /// edge stops at the opposite one, so the free part is never inverted.
    pub fn shrink_to(&mut self, to: i64, side: Side)
        ensures
            final(self).usable == old(self).shrunk_to(to as int, side),
            final(self).size == old(self).size,
            final(self).shape == old(self).shape,
            old(self).usable.x0 <= old(self).usable.x1
                ==> final(self).usable.x0 <= final(self).usable.x1,
            old(self).usable.y0 <= old(self).usable.y1
                ==> final(self).usable.y0 <= final(self).usable.y1,
            old(self).narrows(to as int, side) && old(self).usable.wf()
                ==> old(self).usable.encloses(final(self).usable) && final(self).usable.wf(),
            old(self).narrows(to as int, side) && old(self).wf() ==> final(self).wf(),
    {
        match side {
            Side::Left => {
                self.usable.x0 = min_len(to, self.usable.x1);
            },
            Side::Right => {
                self.usable.x1 = max_len(to, self.usable.x0);
            },
            Side::Top => {
                self.usable.y0 = min_len(to, self.usable.y1);
            },
            Side::Bottom => {
                self.usable.y1 = max_len(to, self.usable.y0);
            },
        }
    }
}

/// A supply of areas that are handed out from the front.
#[derive(Clone, Debug, PartialEq, Eq)]
pub struct Areas {
    vec: Vec<Area>,
    overflow: Overflow,
}

impl View for Areas {
    type V = Seq<Area>;

    /// The areas that are left, the next one first.
    closed spec fn view(&self) -> Seq<Area> {
        self.vec@
    }
}

/// What drawing from a supply hands out and what it leaves: nothing from an
/// empty supply; a copy of the last area, which stays, when the supply spills;
/// else the first area, which leaves.
pub open spec fn draw(areas: Seq<Area>, overflow: Overflow) -> (Option<Area>, Seq<Area>) {
    if areas.len() == 0 {
        (None, areas)
    } else if areas.len() > 1 || overflow == Overflow::Stop {
        (Some(areas[0]), areas.subrange(1, areas.len() as int))
    } else {
        (Some(areas[0]), areas)
    }
}

/// What is left of a supply after `n` draws.
pub open spec fn left_after(areas: Seq<Area>, overflow: Overflow, n: nat) -> Seq<Area>
    decreases n,
{
    if n == 0 {
        areas
    } else {
        left_after(draw(areas, overflow).1, overflow, (n - 1) as nat)
    }
}

/// Whether every area of a supply is well-formed.
pub open spec fn all_wf(areas: Seq<Area>) -> bool {
    forall|i: int| 0 <= i < areas.len() ==> (#[trigger] areas[i]).wf()
}

impl Areas {
    /// What the supply does when it runs out.
    pub closed spec fn policy(&self) -> Overflow {
        self.overflow
    }

    /// A supply of the areas of `vec`, the first one first.
    pub fn new(vec: Vec<Area>, overflow: Overflow) -> (areas: Areas)
        ensures
            areas@ == vec@,
            areas.policy() == overflow,
    {
        Areas { vec, overflow }
    }

    /// What the supply does when it runs out.
    pub fn overflow(&self) -> (o: Overflow)
        ensures
            o == self.policy(),
    {
        self.overflow
    }

    /// The number of areas that are left.
    pub fn len(&self) -> (n: usize)
        ensures
            n == self@.len(),
    {
        self.vec.len()
    }

    /// The areas that are left, the next one first.
    pub fn as_slice(&self) -> (s: &[Area])
        ensures
            s@ == self@,
    {
        self.vec.as_slice()
    }

    /// Hands out the next area. A supply that spills keeps its last area and
    /// hands out a copy of it; otherwise the area leaves the supply. `None`
    /// when no area is left.
    pub fn next(&mut self) -> (area: Option<Area>)
        ensures
            area == draw(old(self)@, old(self).policy()).0,
            final(self)@ == draw(old(self)@, old(self).policy()).1,
            final(self).policy() == old(self).policy(),
            old(self).policy() == Overflow::Spill && old(self)@.len() > 0 ==> area is Some
                && final(self)@.len() > 0,
    {
        if self.vec.len() == 0 {
            None
        } else if self.vec.len() > 1 || self.overflow == Overflow::Stop {
            let first: Area = self.vec.remove(0);
            Some(first)
        } else {
            Some(self.vec[0])
        }
    }
}

impl std::ops::Deref for Areas {
    type Target = [Area];

    /// The areas that are left, the next one first.
    fn deref(&self) -> (s: &[Area])
        ensures
            s@ == self@,
    {
        self.vec.as_slice()
    }
}

/// A supply that spills and holds an area never runs dry: every draw hands
/// out an area, and after any number of draws an area is left. Once a single
/// area is left, every draw hands out that area and leaves the supply as it
/// is.
pub proof fn spill_never_runs_dry(areas: Seq<Area>, n: nat)
    requires
        areas.len() > 0,
    ensures
        left_after(areas, Overflow::Spill, n).len() > 0,
        draw(left_after(areas, Overflow::Spill, n), Overflow::Spill).0 is Some,
        areas.len() == 1 ==> left_after(areas, Overflow::Spill, n) == areas && draw(
            areas,
            Overflow::Spill,
        ).0 == Some(areas[0]),
    decreases n,
{
    if n > 0 {
        spill_never_runs_dry(draw(areas, Overflow::Spill).1, (n - 1) as nat);
    }
}

/// A supply that stops hands out each of its areas once, in order, and then
/// nothing.
pub proof fn stop_hands_out_each_once(areas: Seq<Area>, n: nat)
    ensures
        n <= areas.len() ==> left_after(areas, Overflow::Stop, n) == areas.subrange(
            n as int,
            areas.len() as int,
        ),
        n < areas.len() ==> draw(left_after(areas, Overflow::Stop, n), Overflow::Stop).0 == Some(
            areas[n as int],
        ),
        n >= areas.len() ==> draw(left_after(areas, Overflow::Stop, n), Overflow::Stop).0 is None,
    decreases n,
{
    if n == 0 {
        assert(areas.subrange(0, areas.len() as int) == areas);
    } else if areas.len() == 0 {
        stop_hands_out_each_once(areas, (n - 1) as nat);
    } else {
        let rest = areas.subrange(1, areas.len() as int);
        stop_hands_out_each_once(rest, (n - 1) as nat);
        if n <= areas.len() {
            assert(rest.subrange(n - 1, rest.len() as int) == areas.subrange(
                n as int,
                areas.len() as int,
            ));
        }
    }
}

} // verus!
