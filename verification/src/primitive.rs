//! Directions, axes, alignments and sides.
//!
//! Generic axes and alignments are relative to a main direction and become
//! specific ones once that direction is given.

use vstd::prelude::*;

verus! {

/// One of the four directions in which content can progress.
#[derive(Clone, Copy, Debug, PartialEq, Eq, Structural)]
pub enum Dir {
    /// Left to right.
    LTR,
    /// Right to left.
    RTL,
    /// Top to bottom.
    TTB,
    /// Bottom to top.
    BTT,
}

/// An axis of the page.
#[derive(Clone, Copy, Debug, PartialEq, Eq, Structural)]
pub enum SpecAxis {
    Horizontal,
    Vertical,
}

/// An axis relative to a main direction.
#[derive(Clone, Copy, Debug, PartialEq, Eq, Structural)]
pub enum GenAxis {
    /// The axis along which content progresses.
    Main,
    /// The axis across the main one.
    Cross,
}

/// An alignment on the page.
#[derive(Clone, Copy, Debug, PartialEq, Eq, Structural)]
pub enum SpecAlign {
    Left,
    Right,
    Top,
    Bottom,
    Center,
}

/// An alignment relative to a direction.
#[derive(Clone, Copy, Debug, PartialEq, Eq, Structural)]
pub enum GenAlign {
    Start,
    Center,
    End,
}

/// A side of a rectangle.
#[derive(Clone, Copy, Debug, PartialEq, Eq, Structural)]
pub enum Side {
    Left,
    Top,
    Right,
    Bottom,
}

impl SpecAxis {
    /// The axis across this one.
    pub open spec fn spec_other(self) -> SpecAxis {
        match self {
            SpecAxis::Horizontal => SpecAxis::Vertical,
            SpecAxis::Vertical => SpecAxis::Horizontal,
        }
    }

    /// The axis across this one.
    pub fn other(self) -> (a: SpecAxis)
        ensures
            a == self.spec_other(),
            a != self,
    {
        match self {
            SpecAxis::Horizontal => SpecAxis::Vertical,
            SpecAxis::Vertical => SpecAxis::Horizontal,
        }
    }
}

impl Dir {
    /// The axis this direction runs along.
    pub open spec fn spec_axis(self) -> SpecAxis {
        match self {
            Dir::LTR | Dir::RTL => SpecAxis::Horizontal,
            Dir::TTB | Dir::BTT => SpecAxis::Vertical,
        }
    }

    /// The axis this direction runs along.
    pub fn axis(self) -> (a: SpecAxis)
        ensures
            a == self.spec_axis(),
    {
        match self {
            Dir::LTR | Dir::RTL => SpecAxis::Horizontal,
            Dir::TTB | Dir::BTT => SpecAxis::Vertical,
        }
    }

    /// Whether coordinates grow along this direction.
    pub open spec fn spec_is_positive(self) -> bool {
        self == Dir::LTR || self == Dir::TTB
    }

    /// Whether coordinates grow along this direction.
    pub fn is_positive(self) -> (b: bool)
        ensures
            b == self.spec_is_positive(),
    {
        match self {
            Dir::LTR | Dir::TTB => true,
            Dir::RTL | Dir::BTT => false,
        }
    }

    /// The side at which this direction starts.
    pub open spec fn spec_start(self) -> Side {
        match self {
            Dir::LTR => Side::Left,
            Dir::RTL => Side::Right,
            Dir::TTB => Side::Top,
            Dir::BTT => Side::Bottom,
        }
    }

    /// The side at which this direction starts.
    pub fn start(self) -> (s: Side)
        ensures
            s == self.spec_start(),
    {
        match self {
            Dir::LTR => Side::Left,
            Dir::RTL => Side::Right,
            Dir::TTB => Side::Top,
            Dir::BTT => Side::Bottom,
        }
    }

    /// The side at which this direction ends.
    pub open spec fn spec_end(self) -> Side {
        match self {
            Dir::LTR => Side::Right,
            Dir::RTL => Side::Left,
            Dir::TTB => Side::Bottom,
            Dir::BTT => Side::Top,
        }
    }

    /// The side at which this direction ends.
    pub fn end(self) -> (s: Side)
        ensures
            s == self.spec_end(),
    {
        match self {
            Dir::LTR => Side::Right,
            Dir::RTL => Side::Left,
            Dir::TTB => Side::Bottom,
            Dir::BTT => Side::Top,
        }
    }
}

impl GenAxis {
    /// The axis of the page this generic axis is when content progresses along
    /// `main`: the main axis is that of `main`, the cross axis the other one.
    pub open spec fn spec_resolve(self, main: Dir) -> SpecAxis {
        match self {
            GenAxis::Main => main.spec_axis(),
            GenAxis::Cross => main.spec_axis().spec_other(),
        }
    }

    /// The axis of the page this generic axis is when content progresses along
    /// `main`.
    pub fn resolve(self, main: Dir) -> (a: SpecAxis)
        ensures
            a == self.spec_resolve(main),
    {
        match self {
            GenAxis::Main => main.axis(),
            GenAxis::Cross => main.axis().other(),
        }
    }
}

impl SpecAxis {
    /// The generic axis this axis is when content progresses along `main`.
    pub open spec fn spec_generalize(self, main: Dir) -> GenAxis {
        if self == main.spec_axis() {
            GenAxis::Main
        } else {
            GenAxis::Cross
        }
    }

    /// The generic axis this axis is when content progresses along `main`.
    pub fn generalize(self, main: Dir) -> (g: GenAxis)
        ensures
            g == self.spec_generalize(main),
            g.spec_resolve(main) == self,
    {
        if self == main.axis() {
            GenAxis::Main
        } else {
            GenAxis::Cross
        }
    }
}

impl GenAlign {
    /// The alignment on the page this alignment is along `dir`. `Start` is the
    /// side at which `dir` starts, which for the directions against which
    /// coordinates fall (`RTL`, `BTT`) is the edge of the higher coordinate;
    /// `End` is the opposite side; `Center` is the same along every
    /// direction.
    pub open spec fn spec_resolve(self, dir: Dir) -> SpecAlign {
        match self {
            GenAlign::Start => align_of_side(dir.spec_start()),
            GenAlign::Center => SpecAlign::Center,
            GenAlign::End => align_of_side(dir.spec_end()),
        }
    }

    /// The alignment on the page this alignment is along `dir`.
    pub fn resolve(self, dir: Dir) -> (a: SpecAlign)
        ensures
            a == self.spec_resolve(dir),
    {
        match self {
            GenAlign::Start => dir.start().to_align(),
            GenAlign::Center => SpecAlign::Center,
            GenAlign::End => dir.end().to_align(),
        }
    }

    /// The alignment mirrored: `Start` and `End` swap places.
    pub open spec fn spec_inv(self) -> GenAlign {
        match self {
            GenAlign::Start => GenAlign::End,
            GenAlign::Center => GenAlign::Center,
            GenAlign::End => GenAlign::Start,
        }
    }

    /// The alignment mirrored: `Start` and `End` swap places.
    pub fn inv(self) -> (a: GenAlign)
        ensures
            a == self.spec_inv(),
    {
        match self {
            GenAlign::Start => GenAlign::End,
            GenAlign::Center => GenAlign::Center,
            GenAlign::End => GenAlign::Start,
        }
    }
}

/// The alignment towards a side.
pub open spec fn align_of_side(side: Side) -> SpecAlign {
    match side {
        Side::Left => SpecAlign::Left,
        Side::Top => SpecAlign::Top,
        Side::Right => SpecAlign::Right,
        Side::Bottom => SpecAlign::Bottom,
    }
}

impl Side {
    /// The alignment towards this side.
    pub fn to_align(self) -> (a: SpecAlign)
        ensures
            a == align_of_side(self),
    {
        match self {
            Side::Left => SpecAlign::Left,
            Side::Top => SpecAlign::Top,
            Side::Right => SpecAlign::Right,
            Side::Bottom => SpecAlign::Bottom,
        }
    }

    /// The axis along which this side bounds a rectangle: the left and right
    /// sides bound it horizontally.
    pub open spec fn spec_axis(self) -> SpecAxis {
        match self {
            Side::Left | Side::Right => SpecAxis::Horizontal,
            Side::Top | Side::Bottom => SpecAxis::Vertical,
        }
    }

    /// The axis along which this side bounds a rectangle.
    pub fn axis(self) -> (a: SpecAxis)
        ensures
            a == self.spec_axis(),
    {
        match self {
            Side::Left | Side::Right => SpecAxis::Horizontal,
            Side::Top | Side::Bottom => SpecAxis::Vertical,
        }
    }
}

impl SpecAlign {
    /// The axis along which this alignment acts; `Center` acts along both, so
    /// it has none of its own.
    pub open spec fn spec_axis(self) -> Option<SpecAxis> {
        match self {
            SpecAlign::Left | SpecAlign::Right => Some(SpecAxis::Horizontal),
            SpecAlign::Top | SpecAlign::Bottom => Some(SpecAxis::Vertical),
            SpecAlign::Center => None,
        }
    }

    /// The axis along which this alignment acts, if it is not `Center`.
    pub fn axis(self) -> (a: Option<SpecAxis>)
        ensures
            a == self.spec_axis(),
    {
        match self {
            SpecAlign::Left | SpecAlign::Right => Some(SpecAxis::Horizontal),
            SpecAlign::Top | SpecAlign::Bottom => Some(SpecAxis::Vertical),
            SpecAlign::Center => None,
        }
    }

    /// Where a box starts when it is aligned so within free room of extent
    /// `slack`: at the low edge for `Left` and `Top`, at the high edge for
    /// `Right` and `Bottom`, half way (rounded down) for `Center`.
    pub open spec fn spec_offset(self, slack: int) -> int {
        match self {
            SpecAlign::Left | SpecAlign::Top => 0,
            SpecAlign::Right | SpecAlign::Bottom => slack,
            SpecAlign::Center => slack / 2,
        }
    }

    /// Where a box starts when it is aligned so within free room of extent
    /// `slack`.
    pub fn offset(self, slack: i64) -> (o: i64)
        requires
            0 <= slack,
        ensures
            o == self.spec_offset(slack as int),
            0 <= o <= slack,
    {
        match self {
            SpecAlign::Left | SpecAlign::Top => 0,
            SpecAlign::Right | SpecAlign::Bottom => slack,
            SpecAlign::Center => slack / 2,
        }
    }
}

/// Along a direction in which coordinates grow, `Start` is the low edge and
/// `End` the high one; along one against which they fall it is the other way
/// round; `Center` is `Center` along every direction.
pub proof fn alignment_symmetry(dir: Dir)
    ensures
        GenAlign::Start.spec_resolve(Dir::LTR) == SpecAlign::Left,
        GenAlign::Start.spec_resolve(Dir::RTL) == SpecAlign::Right,
        GenAlign::Start.spec_resolve(Dir::TTB) == SpecAlign::Top,
        GenAlign::Start.spec_resolve(Dir::BTT) == SpecAlign::Bottom,
        GenAlign::Center.spec_resolve(dir) == SpecAlign::Center,
        GenAlign::End.spec_resolve(Dir::LTR) == SpecAlign::Right,
        GenAlign::End.spec_resolve(Dir::RTL) == SpecAlign::Left,
{
}

/// Mirroring an alignment and resolving it along a direction gives what the
/// alignment itself gives along the opposite direction, and mirroring twice
/// changes nothing. Where an alignment that is not `Center` leaves a box,
/// and where its mirror leaves it, are as far from the two ends of the free
/// room.
pub proof fn alignment_mirror(align: GenAlign, dir: Dir, slack: int)
    ensures
        align.spec_inv().spec_inv() == align,
        align.spec_inv().spec_resolve(dir) == align.spec_resolve(opposite(dir)),
        align != GenAlign::Center ==> align.spec_resolve(dir).spec_offset(slack)
            + align.spec_inv().spec_resolve(dir).spec_offset(slack) == slack,
{
}

/// The direction along the same axis that runs the other way.
pub open spec fn opposite(dir: Dir) -> Dir {
    match dir {
        Dir::LTR => Dir::RTL,
        Dir::RTL => Dir::LTR,
        Dir::TTB => Dir::BTT,
        Dir::BTT => Dir::TTB,
    }
}

/// The main axis always resolves to the axis of the main direction and the
/// cross axis to the other one, so the two never coincide.
pub proof fn axes_are_distinct(main: Dir)
    ensures
        GenAxis::Main.spec_resolve(main) == main.spec_axis(),
        GenAxis::Cross.spec_resolve(main) != GenAxis::Main.spec_resolve(main),
        GenAxis::Main.spec_resolve(main).spec_generalize(main) == GenAxis::Main,
        GenAxis::Cross.spec_resolve(main).spec_generalize(main) == GenAxis::Cross,
{
}

} // verus!
