//! The state of the stack layouter as a mathematical value, and its
//! transitions.

use vstd::prelude::*;
use crate::area::{all_wf, draw, Area, Overflow};
use crate::diag::{Diagnostic, DiagnosticKind, Span};
use crate::geom::{is_extent, max_int, Dim, Point, Rect, EPS, MAX_LEN};
use crate::layout::{LayoutItem, LayoutView};
use crate::primitive::{Dir, GenAlign, GenAxis, Side, SpecAxis};

verus! {

/// How a stack layouter stacks.
#[derive(Clone, Copy, Debug, PartialEq, Eq, Structural)]
pub struct StackOptions {
    /// The direction in which lines follow one another.
    pub dir: Dir,
    /// The dimension of the room that a space between words takes.
    pub space: Dim,
    /// How far a paragraph break moves on along the direction of stacking.
    pub par_spacing: i64,
}

impl StackOptions {
    /// Whether the layouter can stack this way. Lines are placed against the
    /// side at which the direction starts, and areas place against their top
    /// only; the room of a space and the paragraph spacing are extents.
    pub open spec fn wf(self) -> bool {
        &&& self.dir.spec_start() == Side::Top
        &&& self.space.wf()
        &&& is_extent(self.par_spacing)
    }

    /// Stacking from top to bottom, with the given room for a space and the
    /// given paragraph spacing.
    pub fn new(space: Dim, par_spacing: i64) -> (opts: StackOptions)
        ensures
            opts == (StackOptions { dir: Dir::TTB, space, par_spacing }),
    {
        StackOptions { dir: Dir::TTB, space, par_spacing }
    }
}

impl Default for StackOptions {
    /// Stacking from top to bottom, spaces and paragraph breaks taking no
    /// room.
    fn default() -> (opts: StackOptions)
        ensures
            opts == (StackOptions { dir: Dir::TTB, space: Dim::spec_zero(), par_spacing: 0 }),
            opts.wf(),
    {
        StackOptions { dir: Dir::TTB, space: Dim::zero(), par_spacing: 0 }
    }
}

/// What is recorded of a page while it is laid out.
pub struct PageTrace {
    /// The free part of the page's area when the page was begun.
    pub frame: Rect,
    /// The heights of the lines put on the page and the gaps made on it,
    /// added up.
    pub used: int,
    /// By how much lines and gaps ran past the bottom of the frame, added up.
    pub cut: int,
    /// Whether every line on the page fitted into what was free of the area
    /// and consisted of boxes that contain their elements.
    pub regular: bool,
}

impl PageTrace {
    /// The trace of a page on which nothing has been put.
    pub open spec fn fresh(frame: Rect) -> PageTrace {
        PageTrace { frame, used: 0, cut: 0, regular: true }
    }

    /// The trace after something of extent `amount` has been stacked where
    /// `room` was left.
    pub open spec fn stacked(self, amount: int, room: int) -> PageTrace {
        PageTrace {
            used: self.used + amount,
            cut: self.cut + max_int(amount - room, 0),
            ..self
        }
    }

    /// Whether the sums agree with the frame: nothing ran past the bottom
    /// while what was stacked is less than the frame is high, and whatever
    /// was stacked beyond it ran past the bottom.
    pub open spec fn sound(self) -> bool {
        &&& self.frame.wf()
        &&& 0 <= self.cut
        &&& 0 <= self.used
        &&& self.cut == 0 ==> self.used <= self.frame.spec_height()
        &&& self.cut > 0 ==> self.used == self.frame.spec_height() + self.cut
    }
}

/// Whether every element of `page` is positioned in `frame` grown by `EPS`.
pub open spec fn stays_in(page: LayoutView, frame: Rect) -> bool {
    forall|j: int|
        0 <= j < page.elements.len() ==> frame.holds_within(
            (#[trigger] page.elements[j]).0,
            EPS as int,
        )
}

/// A line: boxes with their alignments, in the order in which they came.
pub type Line = Seq<(GenAlign, LayoutView)>;

/// The widths of the boxes of a line, added up.
pub open spec fn line_width(line: Line) -> int
    decreases line.len(),
{
    if line.len() == 0 {
        0
    } else {
        line_width(line.drop_last()) + line.last().1.dim.width
    }
}

/// The largest height above the baseline among the boxes of a line.
pub open spec fn line_height(line: Line) -> int
    decreases line.len(),
{
    if line.len() == 0 {
        0
    } else {
        max_int(line_height(line.drop_last()), line.last().1.dim.height as int)
    }
}

/// The largest depth below the baseline among the boxes of a line.
pub open spec fn line_depth(line: Line) -> int
    decreases line.len(),
{
    if line.len() == 0 {
        0
    } else {
        max_int(line_depth(line.drop_last()), line.last().1.dim.depth as int)
    }
}

/// The dimension of a line: as wide as its boxes together, as high and as
/// deep as the highest and the deepest of them.
pub open spec fn line_dim(line: Line) -> Dim {
    Dim {
        width: line_width(line) as i64,
        height: line_height(line) as i64,
        depth: line_depth(line) as i64,
    }
}

/// Whether every box of a line is well-formed.
pub open spec fn line_wf(line: Line) -> bool {
    forall|i: int| 0 <= i < line.len() ==> (#[trigger] line[i]).1.wf()
}

/// Whether every box of a line contains its elements.
pub open spec fn line_contained(line: Line) -> bool {
    forall|i: int| 0 <= i < line.len() ==> (#[trigger] line[i]).1.contained()
}

/// Where the top-left corner of the `i`-th box of `line` comes to lie when
/// the line is set into a box of dimension `within` whose baseline starts at
/// `origin`: after the boxes before it, moved by what its alignment along
/// `dir` makes of the room that the boxes leave free in `within`, and with
/// its baseline on that of the line.
pub open spec fn entry_pos(origin: Point, within: Dim, line: Line, dir: Dir, i: int) -> Point {
    let slack = within.width - line_width(line);
    Point {
        x: (origin.x + line_width(line.subrange(0, i)) + line[i].0.spec_resolve(dir).spec_offset(
            slack,
        )) as i64,
        y: (origin.y - line[i].1.dim.height) as i64,
    }
}

/// `page` with the first `n` boxes of `line` embedded, each at its
/// `entry_pos`.
pub open spec fn set_line(
    page: LayoutView,
    origin: Point,
    within: Dim,
    line: Line,
    dir: Dir,
    n: nat,
) -> LayoutView
    decreases n,
{
    if n == 0 {
        page
    } else {
        set_line(page, origin, within, line, dir, (n - 1) as nat).embed(
            entry_pos(origin, within, line, dir, n - 1),
            line[n - 1].1,
        )
    }
}

/// The dimension of the page that an area lies on.
pub open spec fn page_dim(area: Area) -> Dim {
    Dim { width: area.size.width, height: area.size.height, depth: 0 }
}

/// The state of a stack layouter.
pub struct StackState {
    /// How the layouter stacks.
    pub opts: StackOptions,
    /// The areas that are left.
    pub areas: Seq<Area>,
    /// What happens when the areas run out.
    pub policy: Overflow,
    /// The area of the page that is being laid out; `None` once the areas
    /// have run out.
    pub current: Option<Area>,
    /// The pages that are done.
    pub finished: Seq<LayoutView>,
    /// The page that is being laid out.
    pub page: LayoutView,
    /// The coordinate along the direction of stacking at which the next line
    /// starts.
    pub cursor: int,
    /// The boxes of the line that is being gathered.
    pub line: Line,
    /// Whether a space is pending: it joins the line if a box follows that
    /// still fits.
    pub space: bool,
    /// The diagnostics so far.
    pub feedback: Seq<Diagnostic>,
    /// The source that is being laid out, for diagnostics.
    pub span: Option<Span>,
    /// What was recorded of the pages that are done.
    pub traces: Seq<PageTrace>,
    /// What is recorded of the page that is being laid out.
    pub trace: PageTrace,
    /// The areas the layouter started with.
    pub pool: Seq<Area>,
}

/// Whether `frame` is the free part of one of the areas of `pool`.
pub open spec fn frame_from(pool: Seq<Area>, frame: Rect) -> bool {
    exists|k: int| 0 <= k < pool.len() && (#[trigger] pool[k]).usable == frame
}

impl StackState {
    /// The state of a layouter that starts with the supply `areas`: the first
    /// area is drawn and an empty page begun on it.
    pub open spec fn start(areas: Seq<Area>, policy: Overflow, opts: StackOptions) -> StackState {
        let (first, rest) = draw(areas, policy);
        StackState {
            opts,
            areas: rest,
            policy,
            current: first,
            finished: Seq::empty(),
            page: match first {
                Some(a) => LayoutView::empty(page_dim(a)),
                None => LayoutView::empty(Dim::spec_zero()),
            },
            cursor: match first {
                Some(a) => a.usable.y0 as int,
                None => 0,
            },
            line: Seq::empty(),
            space: false,
            feedback: Seq::empty(),
            span: None,
            traces: Seq::empty(),
            trace: match first {
                Some(a) => PageTrace::fresh(a.usable),
                None => PageTrace::fresh(Rect { x0: 0, y0: 0, x1: 0, y1: 0 }),
            },
            pool: areas,
        }
    }

    /// The room that a pending space takes in the line: its width if one is
    /// pending, else nothing.
    pub open spec fn gap(self) -> int {
        if self.space {
            self.opts.space.width as int
        } else {
            0
        }
    }

    /// Whether the line, grown by `width`, still fits across the free part of
    /// the current area, with a tolerance of `EPS`.
    pub open spec fn takes(self, width: int) -> bool {
        self.current matches Some(a) && line_width(self.line) + width <= a.usable.spec_width()
            + EPS
    }

    /// The diagnostic that content did not fit, about the source that is
    /// being laid out.
    pub open spec fn overflow_here(self) -> Diagnostic {
        Diagnostic { kind: DiagnosticKind::Overflow, span: self.span }
    }

    /// The state after the page has been sealed and the next area drawn. With
    /// an area, an empty page of its size is begun on it; without one, the
    /// layouter records an overflow and has no page any more.
    #[verifier::opaque]
    pub open spec fn advance(self) -> StackState {
        let (next, rest) = draw(self.areas, self.policy);
        let sealed = StackState {
            finished: self.finished.push(self.page),
            traces: self.traces.push(self.trace),
            areas: rest,
            ..self
        };
        match next {
            Some(a) => StackState {
                current: Some(a),
                cursor: a.usable.y0 as int,
                page: LayoutView::empty(page_dim(a)),
                trace: PageTrace::fresh(a.usable),
                ..sealed
            },
            None => StackState {
                current: None,
                cursor: 0,
                page: LayoutView::empty(Dim::spec_zero()),
                trace: PageTrace::fresh(Rect { x0: 0, y0: 0, x1: 0, y1: 0 }),
                feedback: self.feedback.push(self.overflow_here()),
                ..sealed
            },
        }
    }

    /// The state after the line has been put on the page. The line goes
    /// against the top of the free part of the current area, which then
    /// shrinks from the top by the full height of the line. A line that does
    /// not fit there is put all the same, and an overflow recorded.
    #[verifier::opaque]
    pub open spec fn commit(self) -> StackState
        recommends
            self.current is Some,
    {
        let area = self.current->0;
        let dim = line_dim(self.line);
        let fits = area.fits(dim);
        let origin = Point { x: area.usable.x0, y: (area.usable.y0 + dim.height) as i64 };
        let shrunk = Area { usable: area.shrunk_by(dim.total_height(), Side::Top), ..area };
        StackState {
            current: Some(shrunk),
            cursor: shrunk.usable.y0 as int,
            page: set_line(self.page, origin, dim, self.line, self.opts.dir, self.line.len()),
            line: Seq::empty(),
            space: false,
            feedback: if fits {
                self.feedback
            } else {
                self.feedback.push(self.overflow_here())
            },
            trace: PageTrace {
                regular: self.trace.regular && fits && line_contained(self.line),
                ..self.trace.stacked(dim.total_height(), area.usable.spec_height())
            },
            ..self
        }
    }

    /// The state after the pending line has been flushed. Without a line,
    /// only a pending space is dropped. A line that fits goes on the current
    /// page. One that does not fit goes on the next page, whether it fits
    /// there or not; if no area is left for a next page, the line is dropped.
    #[verifier::opaque]
    pub open spec fn flush(self) -> StackState {
        if self.line.len() == 0 {
            StackState { space: false, ..self }
        } else {
            match self.current {
                None => StackState { line: Seq::empty(), space: false, ..self },
                Some(area) => if area.fits(line_dim(self.line)) {
                    self.commit()
                } else {
                    let next = self.advance();
                    if next.current is Some {
                        next.commit()
                    } else {
                        StackState { line: Seq::empty(), space: false, ..next }
                    }
                },
            }
        }
    }

    /// The state after the layouter has moved on by `amount` along the
    /// direction of stacking: the free part of the current area shrinks by
    /// `amount` from the side at which the direction starts, down to nothing
    /// at most.
    pub open spec fn move_on(self, amount: int) -> StackState {
        match self.current {
            None => self,
            Some(area) => {
                let shrunk = Area {
                    usable: area.shrunk_by(amount, self.opts.dir.spec_start()),
                    ..area
                };
                StackState {
                    current: Some(shrunk),
                    cursor: shrunk.usable.y0 as int,
                    trace: self.trace.stacked(amount, area.usable.spec_height()),
                    ..self
                }
            },
        }
    }

    /// The state after a space has come: it is pending if the line has a box
    /// and no space is pending yet; else it is dropped.
    pub open spec fn on_space(self) -> StackState {
        if self.line.len() > 0 && !self.space {
            StackState { space: true, ..self }
        } else {
            self
        }
    }

    /// The state after a box has come. If the line still fits across the area
    /// with the pending space and the box, both join the line. Otherwise the
    /// line is flushed and the box begins the next one; a box that is too
    /// wide even for a line of its own is flushed at once, on a line of its
    /// own. Once the areas have run out, the box is dropped.
    #[verifier::opaque]
    pub open spec fn on_layout(self, align: GenAlign, layout: LayoutView) -> StackState {
        if self.current is None {
            self
        } else if self.takes(self.gap() + layout.dim.width) {
            let spaced = if self.space {
                self.line.push((GenAlign::Start, LayoutView::empty(self.opts.space)))
            } else {
                self.line
            };
            StackState { line: spaced.push((align, layout)), space: false, ..self }
        } else {
            let flushed = self.flush();
            if flushed.current is None {
                flushed
            } else {
                let begun = StackState { line: seq![(align, layout)], ..flushed };
                if flushed.takes(layout.dim.width as int) {
                    begun
                } else {
                    begun.flush()
                }
            }
        }
    }

    /// The state after a fixed gap of `amount` along `axis` has come. Across
    /// the direction of stacking the gap joins the line as an empty box of
    /// that width; along it the line is flushed and the layouter moves on by
    /// `amount`.
    pub open spec fn on_spacing(self, axis: SpecAxis, amount: i64) -> StackState {
        if axis == GenAxis::Cross.spec_resolve(self.opts.dir) {
            self.on_layout(
                GenAlign::Start,
                LayoutView::empty(Dim { width: amount, height: 0, depth: 0 }),
            )
        } else {
            self.flush().move_on(amount as int)
        }
    }

    /// The state after a paragraph break has come: the line is flushed, a
    /// pending space dropped, and the layouter moves on by the paragraph
    /// spacing.
    pub open spec fn on_parbreak(self) -> StackState {
        self.flush().move_on(self.opts.par_spacing as int)
    }

    /// The state after a layout has been placed in the flow with its
    /// top-left corner at `pos`: the line is flushed, the layout embedded in
    /// the page at `pos`, and the flow goes on below it, so the free part of
    /// the current area shrinks from the top down to the bottom of the layout
    /// where it reached higher. Once the areas have run out, the layout is
    /// dropped.
    pub open spec fn on_placed(self, pos: Point, layout: LayoutView) -> StackState {
        let flushed = self.flush();
        match flushed.current {
            None => flushed,
            Some(area) => {
                let to = max_int(pos.y + layout.dim.total_height(), area.usable.y0 as int);
                let shrunk = Area { usable: area.shrunk_to(to, Side::Top), ..area };
                let page = flushed.page.embed(pos, layout);
                StackState {
                    current: Some(shrunk),
                    cursor: shrunk.usable.y0 as int,
                    page,
                    trace: PageTrace {
                        regular: flushed.trace.regular && stays_in(page, flushed.trace.frame),
                        ..flushed.trace.stacked(to - area.usable.y0, area.usable.spec_height())
                    },
                    ..flushed
                }
            },
        }
    }

    /// The state after `item` has come.
    pub open spec fn step(self, item: LayoutItem) -> StackState {
        match item {
            LayoutItem::Space => self.on_space(),
            LayoutItem::Parbreak => self.on_parbreak(),
            LayoutItem::Layout(align, layout) => self.on_layout(align, layout@),
            LayoutItem::Spacing(axis, amount) => self.on_spacing(axis, amount),
        }
    }

    /// The pages of a layouter that finishes in this state: the line is
    /// flushed, then the page that is being laid out follows the pages that
    /// are done. Once the areas have run out there is no such page.
    pub open spec fn pages(self) -> Seq<LayoutView> {
        let last = self.flush();
        if last.current is Some {
            last.finished.push(last.page)
        } else {
            last.finished
        }
    }

    /// What was recorded of each of `pages()`.
    pub open spec fn page_traces(self) -> Seq<PageTrace> {
        let last = self.flush();
        if last.current is Some {
            last.traces.push(last.trace)
        } else {
            last.traces
        }
    }

    /// Whether every page so far is regular and every box of the pending line
    /// contains its elements.
    pub open spec fn tidy(self) -> bool {
        &&& self.current is Some ==> self.trace.regular
        &&& forall|i: int| 0 <= i < self.traces.len() ==> (#[trigger] self.traces[i]).regular
        &&& line_contained(self.line)
    }

    /// What holds of every state that a layouter passes through, also in the
    /// middle of a flush.
    pub open spec fn base(self) -> bool {
        &&& self.opts.wf()
        &&& all_wf(self.areas)
        &&& all_wf(self.pool)
        &&& forall|i: int| 0 <= i < self.areas.len() ==> self.pool.contains(#[trigger] self.areas[i])
        &&& self.finished.len() == self.traces.len()
        &&& forall|i: int|
            0 <= i < self.traces.len() ==> {
                &&& (#[trigger] self.traces[i]).sound()
                &&& frame_from(self.pool, self.traces[i].frame)
                &&& self.traces[i].regular ==> stays_in(self.finished[i], self.traces[i].frame)
            }
        &&& line_wf(self.line)
        &&& line_width(self.line) <= MAX_LEN + EPS
        &&& self.current matches Some(area) ==> {
            &&& area.wf()
            &&& self.cursor == area.usable.y0
            &&& self.page.dim == page_dim(area)
            &&& frame_from(self.pool, self.trace.frame)
            &&& self.trace.frame.wf()
            &&& area.usable == (Rect { y0: area.usable.y0, ..self.trace.frame })
            &&& self.trace.frame.y0 <= area.usable.y0
            &&& 0 <= self.trace.cut
            &&& self.trace.used == area.usable.y0 - self.trace.frame.y0 + self.trace.cut
            &&& self.trace.cut > 0 ==> area.usable.y0 == self.trace.frame.y1
            &&& self.trace.regular ==> stays_in(self.page, self.trace.frame)
            &&& self.policy == Overflow::Spill ==> self.areas.len() > 0
        }
    }

    /// What holds of every state between two requests: besides `base`, a
    /// pending space follows a box, the line fits across the current area,
    /// and no line is pending once the areas have run out.
    pub open spec fn inv(self) -> bool {
        &&& self.base()
        &&& self.space ==> self.line.len() > 0
        &&& match self.current {
            None => self.line.len() == 0,
            Some(area) => line_width(self.line) <= area.usable.spec_width() + EPS,
        }
    }

    /// Whether `self` can come after `before`: the options, the policy, the
    /// source and the areas started with are the same; the pages that were
    /// done and the diagnostics that were there are still there; every
    /// diagnostic that came since is an overflow about the source that is
    /// being laid out; and a layouter whose supply spills still has a page if
    /// it had one.
    pub open spec fn follows(self, before: StackState) -> bool {
        &&& self.opts == before.opts
        &&& self.policy == before.policy
        &&& self.span == before.span
        &&& self.pool == before.pool
        &&& before.feedback.is_prefix_of(self.feedback)
        &&& forall|i: int|
            before.feedback.len() <= i < self.feedback.len() ==> #[trigger] self.feedback[i]
                == before.overflow_here()
        &&& before.finished.is_prefix_of(self.finished)
        &&& before.traces.is_prefix_of(self.traces)
        &&& before.current is None ==> self.current is None && self.finished == before.finished
        &&& before.policy == Overflow::Spill && before.current is Some ==> self.current is Some
    }
}

} // verus!
