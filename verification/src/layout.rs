//! Layouts: flat collections of positioned elements with a dimension.

use vstd::prelude::*;
use crate::area::{Area, Areas};
use crate::elements::{element_views, ElementView, LayoutElement};
use crate::geom::{is_coord, is_extent, Dim, Point, Size};
use crate::primitive::{GenAlign, SpecAxis};

verus! {

/// A layout consisting of atomic elements.
///
/// Positions are relative to the top-left corner of the layout; its baseline
/// lies `dim.height` below the top.
#[derive(Clone, Debug, PartialEq, Eq)]
pub struct Layout {
    /// The dimensions of the layout.
    ///
    /// A layout has a width, height and depth. Its full height is
    /// `height + depth`; how the two share it fixes the baseline and so how
    /// the layout lines up with others in a line of text.
    pub dim: Dim,
    /// The elements with their positions, in the order in which they were
    /// added.
    pub elements: Vec<(Point, LayoutElement)>,
}

/// A layout as a mathematical value.
pub struct LayoutView {
    pub dim: Dim,
    pub elements: Seq<(Point, ElementView)>,
}

impl View for Layout {
    type V = LayoutView;

    open spec fn view(&self) -> LayoutView {
        LayoutView { dim: self.dim, elements: element_views(self.elements@) }
    }
}

/// `elements` with every position moved by `pos`.
pub open spec fn shifted_elements(pos: Point, elements: Seq<(Point, ElementView)>) -> Seq<
    (Point, ElementView),
> {
    Seq::new(elements.len(), |i: int| (pos.shifted(elements[i].0), elements[i].1))
}

impl LayoutView {
    /// The layout of dimension `dim` without elements.
    pub open spec fn empty(dim: Dim) -> LayoutView {
        LayoutView { dim, elements: Seq::empty() }
    }

    /// The layout with `element` added at `pos` after the others.
    pub open spec fn push(self, pos: Point, element: ElementView) -> LayoutView {
        LayoutView { dim: self.dim, elements: self.elements.push((pos, element)) }
    }

    /// Whether every position of `other`, moved by `pos`, stays within machine
    /// range.
    pub open spec fn can_embed(pos: Point, other: LayoutView) -> bool {
        forall|i: int| 0 <= i < other.elements.len() ==> pos.can_shift((#[trigger] other.elements[i]).0)
    }

    /// The layout with the elements of `other` added after the others, in
    /// their order, each moved by `pos`.
    pub open spec fn embed(self, pos: Point, other: LayoutView) -> LayoutView {
        LayoutView { dim: self.dim, elements: self.elements + shifted_elements(pos, other.elements) }
    }

    /// The layout after each of `elements` has been added on its own, the
    /// first one first, at its position moved by `pos`.
    pub open spec fn push_each(self, pos: Point, elements: Seq<(Point, ElementView)>) -> LayoutView
        decreases elements.len(),
    {
        if elements.len() == 0 {
            self
        } else {
            self.push(pos.shifted(elements[0].0), elements[0].1).push_each(
                pos,
                elements.drop_first(),
            )
        }
    }

    /// Whether the dimension consists of extents and the positions of
    /// coordinates of the engine.
    pub open spec fn wf(self) -> bool {
        &&& self.dim.wf()
        &&& forall|i: int|
            0 <= i < self.elements.len() ==> is_coord((#[trigger] self.elements[i]).0.x)
                && is_coord(self.elements[i].0.y)
    }

    /// Whether every element is positioned inside the box of the layout.
    pub open spec fn contained(self) -> bool {
        forall|i: int|
            0 <= i < self.elements.len() ==> 0 <= (#[trigger] self.elements[i]).0.x
                <= self.dim.width && 0 <= self.elements[i].0.y <= self.dim.height
                + self.dim.depth
    }
}

impl Layout {
    /// A layout of dimension `dim` without elements.
    pub fn new(dim: Dim) -> (layout: Layout)
        ensures
            layout@ == LayoutView::empty(dim),
    {
        let layout = Layout { dim, elements: Vec::new() };
        assert(layout@.elements =~= Seq::empty());
        layout
    }

    /// The size of the box: its width and its full height.
    pub fn size(&self) -> (s: Size)
        requires
            i64::MIN <= self.dim.total_height() <= i64::MAX,
        ensures
            s == self.dim.spec_to_size(),
    {
        self.dim.to_size()
    }

    /// Adds `element` at `pos`, after the elements that are there.
    pub fn push(&mut self, pos: Point, element: LayoutElement)
        ensures
            final(self)@ == old(self)@.push(pos, element@),
    {
        self.elements.push((pos, element));
        assert(element_views(self.elements@) =~= element_views(old(self).elements@).push(
            (pos, element@),
        ));
    }

    /// Adds the elements of `layout`, in their order and after the elements
    /// that are there, each at its position moved by `pos`.
    pub fn push_layout(&mut self, pos: Point, layout: Layout)
        requires
            LayoutView::can_embed(pos, layout@),
        ensures
            final(self)@ == old(self)@.embed(pos, layout@),
    {
        let ghost added = layout@.elements;
        let ghost given = layout.elements@;
        for item in it: layout.elements
            invariant
                it.seq() == given,
                added == element_views(given),
                forall|i: int| 0 <= i < added.len() ==> pos.can_shift((#[trigger] added[i]).0),
                self@.dim == old(self)@.dim,
                self@.elements == old(self)@.elements + shifted_elements(
                    pos,
                    added.subrange(0, it.index() as int),
                ),
        {
            let (delta, element) = item;
            assert(added[it.index() as int] == (delta, element@));
            self.push(pos.shift(delta), element);
        }
        assert(added.subrange(0, added.len() as int) == added);
    }

    /// Whether the layout has no elements.
    pub fn is_empty(&self) -> (b: bool)
        ensures
            b == (self@.elements.len() == 0),
    {
        self.elements.len() == 0
    }
}

/// Embedding a layout is the same as adding each of its elements on its own,
/// in order, at its position moved by the offset.
pub proof fn embedding_law(target: LayoutView, pos: Point, other: LayoutView)
    ensures
        target.embed(pos, other) == target.push_each(pos, other.elements),
    decreases other.elements.len(),
{
    let elements = other.elements;
    if elements.len() == 0 {
        assert(target.embed(pos, other).elements == target.elements);
    } else {
        let first = target.push(pos.shifted(elements[0].0), elements[0].1);
        let rest = LayoutView { dim: other.dim, elements: elements.drop_first() };
        embedding_law(first, pos, rest);
        assert(first.embed(pos, rest).elements == target.embed(pos, other).elements);
    }
}

/// A request to a layouter.
#[derive(Clone, Debug, PartialEq, Eq)]
pub enum LayoutItem {
    /// Room between words, which collapses at the start of a line and next to
    /// other such room.
    Space,
    /// The end of a paragraph.
    Parbreak,
    /// A box with its alignment across the direction of stacking.
    Layout(GenAlign, Layout),
    /// A fixed gap along an axis.
    Spacing(SpecAxis, i64),
}

impl LayoutItem {
    /// Whether the item is one the engine lays out: a box is well-formed and
    /// a gap is an extent.
    pub open spec fn wf(self) -> bool {
        match self {
            LayoutItem::Layout(_, layout) => layout@.wf(),
            LayoutItem::Spacing(_, amount) => is_extent(amount),
            _ => true,
        }
    }
}

/// How a layout that is placed at a given position takes part in the flow.
#[derive(Clone, Copy, Debug, PartialEq, Eq, Structural)]
pub enum Placement {
    /// The layout is part of the flow.
    InFlow,
    /// The layout stands outside the flow, which gives way to it as the
    /// collider says.
    OutOfFlow(Collider),
}

/// How the flow gives way to a layout outside it.
#[derive(Clone, Copy, Debug, PartialEq, Eq, Structural)]
pub enum Collider {
    /// Not at all.
    Nothing,
    /// Around the outline of the layout.
    Tight,
    /// Around the box of the layout.
    Bounds,
    /// Over the full width, for the height of the layout.
    Row,
    /// Over the full height, for the width of the layout.
    Column,
}

/// Something that takes requests and lays them out into areas.
pub trait Layouter {
    /// Whether the layouter is in a state that it can reach.
    spec fn valid(&self) -> bool;

    /// Whether the layouter can place a layout in this way.
    spec fn places(&self, placement: Placement) -> bool;

    /// The area that is being laid out into, if there is one, and the areas
    /// that are left.
    fn areas(&self) -> (Option<&Area>, &Areas);

    /// Takes the next request.
    fn layout_item(&mut self, item: LayoutItem)
        requires
            old(self).valid(),
            item.wf(),
        ensures
            final(self).valid(),
    ;

    /// Places `layout` with its top-left corner at `pos`.
    fn layout_placed(&mut self, pos: Point, placement: Placement, layout: Layout)
        requires
            old(self).valid(),
            old(self).places(placement),
            is_coord(pos.x),
            is_coord(pos.y),
            layout@.wf(),
        ensures
            final(self).valid(),
    ;
}

} // verus!
