//! The executable stack layouter.

use vstd::prelude::*;
use crate::area::{all_wf, Area, Areas};
use crate::diag::{Diagnostic, DiagnosticKind, Feedback, Pass, Span};
use crate::geom::{is_coord, is_extent, max_len, Dim, Point, Rect, EPS, MAX_LEN};
use crate::layout::{Layout, LayoutItem, LayoutView, Layouter, Placement};
use crate::primitive::{Dir, GenAlign, GenAxis, Side};
use crate::stack::proofs::{lemma_line_extents, lemma_line_prefix, lemma_line_push};
use crate::stack::state::{
    entry_pos, line_contained, line_depth, line_dim, line_height, line_wf, line_width, set_line,
    stays_in, Line, PageTrace, StackOptions, StackState,
};

verus! {

/// The layouts of `layouts` as mathematical values.
pub open spec fn views(layouts: Seq<Layout>) -> Seq<LayoutView> {
    Seq::new(layouts.len(), |i: int| layouts[i]@)
}

/// The boxes of `line` as mathematical values, with their alignments.
pub open spec fn line_views(line: Seq<(GenAlign, Layout)>) -> Line {
    Seq::new(line.len(), |i: int| (line[i].0, line[i].1@))
}

/// Sets the boxes of `line` into `page`: side by side, in their order, into
/// a box of dimension `within` whose baseline starts at `origin`, each with
/// its baseline on that line and moved by what its alignment along `dir`
/// makes of the room that the boxes leave free in `within`.
fn set_boxes(page: &mut Layout, origin: Point, within: Dim, line: Vec<(GenAlign, Layout)>, dir: Dir)
    requires
        line_wf(line_views(line@)),
        line_width(line_views(line@)) <= within.width <= MAX_LEN + EPS,
        -2 * MAX_LEN <= origin.x <= 2 * MAX_LEN,
        -2 * MAX_LEN <= origin.y <= 2 * MAX_LEN,
    ensures
        final(page)@ == set_line(
            old(page)@,
            origin,
            within,
            line_views(line@),
            dir,
            line@.len(),
        ),
{
    let ghost boxes = line_views(line@);
    let n: usize = line.len();
    let mut total: i64 = 0;
    let mut i: usize = 0;
    proof {
        lemma_line_extents(boxes);
        assert(line_width(boxes.subrange(0, 0)) == 0);
    }
    while i < n
        invariant
            n == line@.len(),
            i <= n,
            boxes == line_views(line@),
            line_wf(boxes),
            line_width(boxes) <= MAX_LEN + EPS,
            total == line_width(boxes.subrange(0, i as int)),
            0 <= total <= line_width(boxes),
        decreases n - i,
    {
        proof {
            lemma_line_prefix(boxes, i as int);
            assert(boxes[i as int].1.wf());
        }
        total = total + line[i].1.dim.width;
        i += 1;
    }
    assert(boxes.subrange(0, n as int) == boxes);
    let slack: i64 = within.width - total;
    let mut run: i64 = 0;
    for entry in it: line
        invariant
            it.seq() == line@,
            boxes == line_views(line@),
            line_wf(boxes),
            line_width(boxes) <= within.width <= MAX_LEN + EPS,
            slack == within.width - line_width(boxes),
            -2 * MAX_LEN <= origin.x <= 2 * MAX_LEN,
            -2 * MAX_LEN <= origin.y <= 2 * MAX_LEN,
            run == line_width(boxes.subrange(0, it.index() as int)),
            page@ == set_line(old(page)@, origin, within, boxes, dir, it.index() as nat),
    {
        let ghost k = it.index() as int;
        let (align, layout) = entry;
        proof {
            lemma_line_prefix(boxes, k);
            lemma_line_extents(boxes);
            assert(boxes[k] == (align, layout@));
            assert(boxes[k].1.wf());
        }
        let x: i64 = origin.x + run + align.resolve(dir).offset(slack);
        let y: i64 = origin.y - layout.dim.height;
        let at: Point = Point::new(x, y);
        assert(at == entry_pos(origin, within, boxes, dir, k));
        run = run + layout.dim.width;
        page.push_layout(at, layout);
    }
}

/// A layouter that stacks lines of boxes from the top of areas into pages.
pub struct StackLayouter {
    /// How the layouter stacks.
    opts: StackOptions,
    /// The areas that are left.
    areas: Areas,
    /// The area of the page that is being laid out; `None` once the areas
    /// have run out.
    current: Option<Area>,
    /// The pages that are done.
    finished: Vec<Layout>,
    /// The page that is being laid out.
    page: Layout,
    /// The coordinate at which the next line starts.
    cursor: i64,
    /// The boxes of the line that is being gathered.
    pending_line: Vec<(GenAlign, Layout)>,
    /// The room of a space that joins the line if a box follows that still
    /// fits.
    pending_space: Option<Layout>,
    /// The dimension of the line that is being gathered.
    line_dim: Dim,
    /// The diagnostics so far.
    feedback: Feedback,
    /// The source that is being laid out, for diagnostics.
    span: Option<Span>,
    /// What was recorded of the pages that are done.
    traces: Ghost<Seq<PageTrace>>,
    /// What is recorded of the page that is being laid out.
    trace: Ghost<PageTrace>,
    /// The areas the layouter started with.
    pool: Ghost<Seq<Area>>,
}

impl View for StackLayouter {
    type V = StackState;

    closed spec fn view(&self) -> StackState {
        StackState {
            opts: self.opts,
            areas: self.areas@,
            policy: self.areas.policy(),
            current: self.current,
            finished: views(self.finished@),
            page: self.page@,
            cursor: self.cursor as int,
            line: line_views(self.pending_line@),
            space: self.pending_space is Some,
            feedback: self.feedback@,
            span: self.span,
            traces: self.traces@,
            trace: self.trace@,
            pool: self.pool@,
        }
    }
}

impl StackLayouter {
    /// What holds of the layouter also in the middle of a flush: `base` of
    /// its state, and its fields agree with one another.
    closed spec fn sane(&self) -> bool {
        &&& self@.base()
        &&& self.line_dim == line_dim(self@.line)
        &&& self.pending_space matches Some(space) ==> space@ == LayoutView::empty(self.opts.space)
    }

    /// Whether the layouter is in a state that it can reach, of which `inv`
    /// holds.
    pub closed spec fn wf(&self) -> bool {
        self.sane() && self@.inv()
    }

    /// `inv` holds of the state of a well-formed layouter.
    pub proof fn lemma_wf(&self)
        requires
            self.wf(),
        ensures
            self@.inv(),
    {
    }

    /// A layouter that draws its areas from `areas`. It draws the first one
    /// at once and begins an empty page on it.
    pub fn new(areas: Areas, opts: StackOptions) -> (layouter: StackLayouter)
        requires
            all_wf(areas@),
            opts.wf(),
        ensures
            layouter.wf(),
            layouter@ == StackState::start(areas@, areas.policy(), opts),
    {
        let ghost pool = areas@;
        let ghost start = StackState::start(areas@, areas.policy(), opts);
        let mut areas = areas;
        let current: Option<Area> = areas.next();
        let page: Layout = match current {
            Some(area) => Layout::new(Dim::new(area.size.width, area.size.height, 0)),
            None => Layout::new(Dim::zero()),
        };
        let cursor: i64 = match current {
            Some(area) => area.usable.y0,
            None => 0,
        };
        let layouter = StackLayouter {
            opts,
            areas,
            current,
            finished: Vec::new(),
            page,
            cursor,
            pending_line: Vec::new(),
            pending_space: None,
            line_dim: Dim::zero(),
            feedback: Feedback::new(),
            span: None,
            traces: Ghost(Seq::empty()),
            trace: Ghost(start.trace),
            pool: Ghost(pool),
        };
        proof {
            StackState::lemma_start(pool, start.policy, opts);
            assert(layouter@.finished =~= start.finished);
            assert(layouter@.line =~= start.line);
            assert(layouter@ == start);
            assert(line_width(start.line) == 0);
            assert(line_height(start.line) == 0);
            assert(line_depth(start.line) == 0);
        }
        layouter
    }

    /// The current area, if the areas have not run out, and the areas that
    /// are left.
    pub fn areas(&self) -> (r: (Option<&Area>, &Areas))
        ensures
            r.0 == match self@.current {
                Some(area) => Some(&area),
                None => None,
            },
            r.1@ == self@.areas,
            r.1.policy() == self@.policy,
    {
        (self.current.as_ref(), &self.areas)
    }

    /// The diagnostics so far.
    pub fn feedback(&self) -> (f: &Feedback)
        ensures
            f@ == self@.feedback,
    {
        &self.feedback
    }

    /// The number of pages that are done.
    pub fn finished_len(&self) -> (n: usize)
        ensures
            n == self@.finished.len(),
    {
        self.finished.len()
    }

    /// Whether the areas have run out, so that whatever comes is dropped.
    pub fn is_exhausted(&self) -> (b: bool)
        ensures
            b == (self@.current is None),
    {
        self.current.is_none()
    }

    /// Names the source that is laid out from now on. Diagnostics are about
    /// the source that is being laid out when they arise.
    pub fn set_span(&mut self, span: Option<Span>)
        requires
            old(self).wf(),
        ensures
            final(self).wf(),
            final(self)@ == (StackState { span, ..old(self)@ }),
    {
        self.span = span;
    }

    /// Seals the page and draws the next area.
    fn advance(&mut self)
        requires
            old(self).sane(),
            old(self)@.current is Some,
        ensures
            final(self).sane(),
            final(self)@ == old(self)@.advance(),
    {
        proof {
            reveal(StackState::advance);
            old(self)@.lemma_advance();
        }
        let ghost before = self@;
        let mut page: Layout = Layout::new(Dim::zero());
        core::mem::swap(&mut self.page, &mut page);
        self.finished.push(page);
        self.traces = Ghost(before.traces.push(before.trace));
        let next: Option<Area> = self.areas.next();
        match next {
            Some(area) => {
                self.current = Some(area);
                self.cursor = area.usable.y0;
                self.page = Layout::new(Dim::new(area.size.width, area.size.height, 0));
                self.trace = Ghost(PageTrace::fresh(area.usable));
            },
            None => {
                self.current = None;
                self.cursor = 0;
                self.trace = Ghost(PageTrace::fresh(Rect { x0: 0, y0: 0, x1: 0, y1: 0 }));
                self.feedback.push(Diagnostic::new(DiagnosticKind::Overflow, self.span));
            },
        }
        proof {
            assert(self@.finished =~= before.finished.push(before.page));
            assert(self@.line =~= before.line);
            assert(self@ == before.advance());
        }
    }

    /// Puts the line on the page, against the top of what is free of the
    /// current area.
    fn commit(&mut self)
        requires
            old(self).sane(),
            old(self)@.current is Some,
        ensures
            final(self).wf(),
            final(self)@ == old(self)@.commit(),
    {
        proof {
            reveal(StackState::commit);
            old(self)@.lemma_commit();
            lemma_line_extents(old(self)@.line);
        }
        let ghost before = self@;
        let mut area: Area = self.current.unwrap();
        let dim: Dim = self.line_dim;
        let origin: Point = match area.place(dim, Side::Top) {
            Some(at) => at,
            None => {
                self.feedback.push(Diagnostic::new(DiagnosticKind::Overflow, self.span));
                Point::new(area.usable.x0, area.usable.y0 + dim.height)
            },
        };
        let mut line: Vec<(GenAlign, Layout)> = Vec::new();
        core::mem::swap(&mut self.pending_line, &mut line);
        set_boxes(&mut self.page, origin, dim, line, self.opts.dir);
        let ghost room = area.usable.spec_height();
        area.shrink_by(dim.height + dim.depth, Side::Top);
        self.current = Some(area);
        self.cursor = area.usable.y0;
        self.pending_space = None;
        self.line_dim = Dim::zero();
        self.trace = Ghost(
            PageTrace {
                regular: before.trace.regular && before.current->0.fits(dim) && line_contained(
                    before.line,
                ),
                ..before.trace.stacked(dim.total_height(), room)
            },
        );
        proof {
            assert(self@.finished =~= before.finished);
            assert(self@.line =~= Seq::<(GenAlign, LayoutView)>::empty());
            assert(self@ == before.commit());
            assert(line_width(self@.line) == 0);
            assert(line_height(self@.line) == 0);
            assert(line_depth(self@.line) == 0);
        }
    }

    /// Flushes the line, whether it fits across the current area or not.
    fn flush_line(&mut self)
        requires
            old(self).sane(),
            old(self)@.current is None ==> old(self)@.line.len() == 0,
        ensures
            final(self).wf(),
            final(self)@ == old(self)@.flush(),
            final(self)@.line.len() == 0,
            !final(self)@.space,
    {
        proof {
            reveal(StackState::flush);
            old(self)@.lemma_flush();
            lemma_line_extents(old(self)@.line);
        }
        let ghost before = self@;
        if self.pending_line.len() == 0 {
            self.pending_space = None;
            proof {
                assert(self@.finished =~= before.finished);
                assert(self@.line =~= before.line);
            }
        } else {
            match self.current {
                None => {},
                Some(area) => {
                    if area.place(self.line_dim, Side::Top).is_some() {
                        self.commit();
                    } else {
                        self.advance();
                        if self.current.is_some() {
                            self.commit();
                        } else {
                            self.pending_line = Vec::new();
                            self.pending_space = None;
                            self.line_dim = Dim::zero();
                            proof {
                                let next = before.advance();
                                assert(self@.finished =~= next.finished);
                                assert(self@.line =~= Seq::<(GenAlign, LayoutView)>::empty());
                                assert(line_width(self@.line) == 0);
                                assert(line_height(self@.line) == 0);
                                assert(line_depth(self@.line) == 0);
                            }
                        }
                    }
                },
            }
        }
    }

    /// Flushes the pending line. Without a line, only a pending space is
    /// dropped. A line that fits into what is free of the current area goes
    /// on the current page. One that does not goes on the next page, with an
    /// overflow recorded if it does not fit there either; if no area is left
    /// for a next page, an overflow is recorded and the line dropped.
    pub fn flush(&mut self)
        requires
            old(self).wf(),
        ensures
            final(self).wf(),
            final(self)@ == old(self)@.flush(),
            final(self)@.line.len() == 0,
            !final(self)@.space,
            old(self)@.line.len() == 0 ==> final(self)@.finished == old(self)@.finished,
    {
        proof {
            old(self)@.lemma_flush();
        }
        self.flush_line();
    }

    /// Moves on by `amount` along the direction of stacking.
    fn move_on(&mut self, amount: i64)
        requires
            old(self).wf(),
            old(self)@.line.len() == 0,
            is_extent(amount),
        ensures
            final(self).wf(),
            final(self)@ == old(self)@.move_on(amount as int),
    {
        proof {
            old(self)@.lemma_move_on(amount as int);
        }
        let ghost before = self@;
        match self.current {
            None => {},
            Some(area) => {
                let mut area: Area = area;
                let ghost room = area.usable.spec_height();
                area.shrink_by(amount, self.opts.dir.start());
                self.current = Some(area);
                self.cursor = area.usable.y0;
                self.trace = Ghost(before.trace.stacked(amount as int, room));
                proof {
                    assert(self@.finished =~= before.finished);
                    assert(self@.line =~= before.line);
                }
            },
        }
    }

    /// Lets a box join the line.
    fn append(&mut self, align: GenAlign, layout: Layout)
        requires
            old(self).sane(),
            old(self)@.current is Some,
            layout@.wf(),
            line_width(old(self)@.line) + layout.dim.width <= MAX_LEN + EPS,
        ensures
            final(self).sane(),
            final(self)@ == (StackState {
                line: old(self)@.line.push((align, layout@)),
                ..old(self)@
            }),
    {
        let ghost before = self@;
        proof {
            lemma_line_push(before.line, (align, layout@));
            lemma_line_extents(before.line);
        }
        self.line_dim = Dim::new(
            self.line_dim.width + layout.dim.width,
            max_len(self.line_dim.height, layout.dim.height),
            max_len(self.line_dim.depth, layout.dim.depth),
        );
        self.pending_line.push((align, layout));
        proof {
            assert(self@.finished =~= before.finished);
            assert(self@.line =~= before.line.push((align, layout@)));
        }
    }

    /// Takes a box: see `StackState::on_layout`.
    fn push_box(&mut self, align: GenAlign, layout: Layout)
        requires
            old(self).wf(),
            layout@.wf(),
        ensures
            final(self).wf(),
            final(self)@ == old(self)@.on_layout(align, layout@),
    {
        proof {
            reveal(StackState::on_layout);
            old(self)@.lemma_on_layout(align, layout@);
            lemma_line_extents(old(self)@.line);
        }
        let ghost before = self@;
        let ghost boxed = layout@;
        match self.current {
            None => {},
            Some(area) => {
                let gap: i64 = if self.pending_space.is_some() {
                    self.opts.space.width
                } else {
                    0
                };
                if self.line_dim.width + gap + layout.dim.width <= area.usable.width() + EPS {
                    match self.pending_space.take() {
                        Some(space) => {
                            proof {
                                lemma_line_push(before.line, (GenAlign::Start, space@));
                            }
                            self.append(GenAlign::Start, space);
                        },
                        None => {},
                    }
                    self.append(align, layout);
                } else {
                    self.flush_line();
                    match self.current {
                        None => {},
                        Some(next) => {
                            let fits: bool = layout.dim.width <= next.usable.width() + EPS;
                            proof {
                                assert(line_width(self@.line) == 0);
                            }
                            self.append(align, layout);
                            proof {
                                assert(self@.line =~= seq![(align, boxed)]);
                            }
                            if !fits {
                                self.flush_line();
                            }
                        },
                    }
                }
            },
        }
    }

    /// Takes the next request.
    ///
    /// A space is kept pending if the line has a box and no space is pending
    /// yet; else it is dropped. A box joins the line, after the pending
    /// space, if the line still fits across the current area with both;
    /// otherwise the line is flushed and the box begins the next one, and a
    /// box that is too wide even for a line of its own is flushed at once. A
    /// gap across the direction of stacking joins the line as an empty box;
    /// a gap along it flushes the line and moves the layouter on. A paragraph
    /// break flushes the line and moves the layouter on by the paragraph
    /// spacing. Once the areas have run out, lines are dropped.
    pub fn layout_item(&mut self, item: LayoutItem)
        requires
            old(self).wf(),
            item.wf(),
        ensures
            final(self).wf(),
            final(self)@ == old(self)@.step(item),
    {
        proof {
            old(self)@.lemma_step(item);
        }
        let ghost before = self@;
        match item {
            LayoutItem::Space => {
                if self.pending_line.len() > 0 && self.pending_space.is_none() {
                    self.pending_space = Some(Layout::new(self.opts.space));
                    proof {
                        assert(self@.finished =~= before.finished);
                        assert(self@.line =~= before.line);
                    }
                }
            },
            LayoutItem::Parbreak => {
                self.flush();
                self.move_on(self.opts.par_spacing);
            },
            LayoutItem::Layout(align, layout) => {
                self.push_box(align, layout);
            },
            LayoutItem::Spacing(axis, amount) => {
                if axis == GenAxis::Cross.resolve(self.opts.dir) {
                    self.push_box(GenAlign::Start, Layout::new(Dim::new(amount, 0, 0)));
                } else {
                    self.flush();
                    self.move_on(amount);
                }
            },
        }
    }

    /// Flushes the pending line, seals the page that is being laid out, and
    /// hands over the pages with the diagnostics. Once the areas have run
    /// out there is no page to seal.
    pub fn finish(self) -> (pass: Pass<Vec<Layout>>)
        requires
            self.wf(),
        ensures
            views(pass.output@) == self@.pages(),
            pass.feedback@ == self@.flush().feedback,
    {
        let ghost before = self@;
        let mut layouter = self;
        layouter.flush();
        let StackLayouter { current, finished, page, feedback, .. } = layouter;
        let mut pages: Vec<Layout> = finished;
        if current.is_some() {
            pages.push(page);
        }
        proof {
            assert(views(pages@) =~= before.pages());
        }
        Pass::new(pages, feedback)
    }

    /// Places `layout` in the flow with its top-left corner at `pos`: the
    /// line is flushed, the layout embedded in the page, and the flow goes on
    /// below it. Only placement in the flow is defined.
    pub fn layout_placed(&mut self, pos: Point, placement: Placement, layout: Layout)
        requires
            old(self).wf(),
            placement == Placement::InFlow,
            is_coord(pos.x),
            is_coord(pos.y),
            layout@.wf(),
        ensures
            final(self).wf(),
            final(self)@ == old(self)@.on_placed(pos, layout@),
    {
        proof {
            old(self)@.lemma_on_placed(pos, layout@);
        }
        self.flush();
        let ghost flushed = self@;
        match self.current {
            None => {},
            Some(area) => {
                let mut area: Area = area;
                let ghost room = area.usable.spec_height();
                let to: i64 = max_len(pos.y + (layout.dim.height + layout.dim.depth), area.usable.y0);
                let ghost placed = flushed.page.embed(pos, layout@);
                area.shrink_to(to, Side::Top);
                self.page.push_layout(pos, layout);
                self.current = Some(area);
                self.cursor = area.usable.y0;
                self.trace = Ghost(
                    PageTrace {
                        regular: flushed.trace.regular && stays_in(placed, flushed.trace.frame),
                        ..flushed.trace.stacked(to - flushed.current->0.usable.y0, room)
                    },
                );
                proof {
                    assert(self@.finished =~= flushed.finished);
                    assert(self@.line =~= flushed.line);
                }
            },
        }
    }
}

impl Layouter for StackLayouter {
    open spec fn valid(&self) -> bool {
        self.wf()
    }

    open spec fn places(&self, placement: Placement) -> bool {
        placement == Placement::InFlow
    }

    /// The current area, if the areas have not run out, and the areas that
    /// are left.
    fn areas(&self) -> (r: (Option<&Area>, &Areas))
        ensures
            r.0 == match self@.current {
                Some(area) => Some(&area),
                None => None,
            },
            r.1@ == self@.areas,
            r.1.policy() == self@.policy,
    {
        StackLayouter::areas(self)
    }

    fn layout_item(&mut self, item: LayoutItem)
        ensures
            final(self)@ == old(self)@.step(item),
    {
        StackLayouter::layout_item(self, item)
    }

    fn layout_placed(&mut self, pos: Point, placement: Placement, layout: Layout)
        ensures
            final(self)@ == old(self)@.on_placed(pos, layout@),
    {
        StackLayouter::layout_placed(self, pos, placement, layout)
    }
}

} // verus!
