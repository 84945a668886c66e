//! What the transitions of the stack layouter keep.

use vstd::prelude::*;
use crate::area::{all_wf, draw, Area, Overflow};
use crate::geom::{is_coord, max_int, Dim, Point, Rect, EPS, MAX_LEN};
use crate::layout::{LayoutItem, LayoutView};
use crate::primitive::{Dir, GenAlign, GenAxis};
use crate::stack::state::{
    entry_pos, frame_from, line_contained, line_depth, line_dim, line_height, line_wf,
    line_width, set_line, stays_in, Line, StackOptions, StackState,
};

verus! {

/// The sums over a well-formed line are extents, and no box is higher or
/// deeper than the line.
pub proof fn lemma_line_extents(line: Line)
    requires
        line_wf(line),
    ensures
        0 <= line_width(line),
        0 <= line_height(line) <= MAX_LEN,
        0 <= line_depth(line) <= MAX_LEN,
        forall|i: int|
            0 <= i < line.len() ==> (#[trigger] line[i]).1.dim.height <= line_height(line)
                && line[i].1.dim.depth <= line_depth(line),
    decreases line.len(),
{
    if line.len() > 0 {
        let init = line.drop_last();
        assert forall|i: int| 0 <= i < init.len() implies (#[trigger] init[i]).1.wf() by {
            assert(init[i] == line[i]);
        }
        lemma_line_extents(init);
        assert(line.last() == line[line.len() - 1]);
        assert forall|i: int| 0 <= i < line.len() implies (#[trigger] line[i]).1.dim.height
            <= line_height(line) && line[i].1.dim.depth <= line_depth(line) by {
            if i < init.len() {
                assert(init[i] == line[i]);
            }
        }
    }
}

/// The boxes up to and with the `i`-th of a well-formed line are together no
/// wider than the line.
pub proof fn lemma_line_prefix(line: Line, i: int)
    requires
        line_wf(line),
        0 <= i < line.len(),
    ensures
        0 <= line_width(line.subrange(0, i)),
        line_width(line.subrange(0, i + 1)) == line_width(line.subrange(0, i))
            + line[i].1.dim.width,
        line_width(line.subrange(0, i + 1)) <= line_width(line),
    decreases line.len(),
{
    let upto = line.subrange(0, i + 1);
    assert(upto.drop_last() == line.subrange(0, i));
    assert(upto.last() == line[i]);
    assert forall|k: int| 0 <= k < i implies (#[trigger] line.subrange(0, i)[k]).1.wf() by {
        assert(line.subrange(0, i)[k] == line[k]);
    }
    lemma_line_extents(line.subrange(0, i));
    if i == line.len() - 1 {
        assert(upto == line);
    } else {
        let init = line.drop_last();
        assert forall|k: int| 0 <= k < init.len() implies (#[trigger] init[k]).1.wf() by {
            assert(init[k] == line[k]);
        }
        lemma_line_prefix(init, i);
        assert(init.subrange(0, i + 1) == upto);
        assert(init.subrange(0, i) == line.subrange(0, i));
        assert(line.last() == line[line.len() - 1]);
    }
}

/// A box that joins a line adds its width to that of the line and raises the
/// height and the depth of the line to its own where they were less.
pub proof fn lemma_line_push(line: Line, entry: (GenAlign, LayoutView))
    ensures
        line_width(line.push(entry)) == line_width(line) + entry.1.dim.width,
        line_height(line.push(entry)) == max_int(line_height(line), entry.1.dim.height as int),
        line_depth(line.push(entry)) == max_int(line_depth(line), entry.1.dim.depth as int),
        line_wf(line) && entry.1.wf() ==> line_wf(line.push(entry)),
        line_contained(line) && entry.1.contained() ==> line_contained(line.push(entry)),
{
    let grown = line.push(entry);
    assert(grown.drop_last() == line);
    assert(grown.last() == entry);
    if line_wf(line) && entry.1.wf() {
        assert forall|i: int| 0 <= i < grown.len() implies (#[trigger] grown[i]).1.wf() by {
            if i < line.len() {
                assert(grown[i] == line[i]);
            }
        }
    }
    if line_contained(line) && entry.1.contained() {
        assert forall|i: int| 0 <= i < grown.len() implies (#[trigger] grown[i]).1.contained() by {
            if i < line.len() {
                assert(grown[i] == line[i]);
            }
        }
    }
}

/// Where the baseline of a line of dimension `dim` starts when the line is
/// put against the top of the free part of `area`.
pub open spec fn line_origin(area: Area, dim: Dim) -> Point {
    Point { x: area.usable.x0, y: (area.usable.y0 + dim.height) as i64 }
}

/// Setting boxes of a line into a page keeps the dimension of the page and
/// the elements that were on it.
pub proof fn lemma_set_line_keeps(
    page: LayoutView,
    origin: Point,
    within: Dim,
    line: Line,
    dir: Dir,
    n: nat,
)
    requires
        n <= line.len(),
    ensures
        set_line(page, origin, within, line, dir, n).dim == page.dim,
        page.elements.is_prefix_of(set_line(page, origin, within, line, dir, n).elements),
    decreases n,
{
    if n > 0 {
        lemma_set_line_keeps(page, origin, within, line, dir, (n - 1) as nat);
    }
}

/// A line that fits into what is free of an area and consists of boxes that
/// contain their elements puts its elements into the frame of the page, grown
/// by `EPS`.
pub proof fn lemma_set_line_stays(
    page: LayoutView,
    area: Area,
    frame: Rect,
    line: Line,
    dir: Dir,
    n: nat,
)
    requires
        n <= line.len(),
        line_wf(line),
        line_contained(line),
        line_width(line) <= MAX_LEN + EPS,
        area.wf(),
        area.fits(line_dim(line)),
        frame.encloses(area.usable),
        stays_in(page, frame),
    ensures
        stays_in(
            set_line(page, line_origin(area, line_dim(line)), line_dim(line), line, dir, n),
            frame,
        ),
    decreases n,
{
    if n > 0 {
        let dim = line_dim(line);
        let origin = line_origin(area, dim);
        let prev = set_line(page, origin, dim, line, dir, (n - 1) as nat);
        lemma_set_line_stays(page, area, frame, line, dir, (n - 1) as nat);
        lemma_line_extents(line);
        lemma_line_prefix(line, n - 1);
        let at = entry_pos(origin, dim, line, dir, n - 1);
        let entry = line[n - 1].1;
        let next = prev.embed(at, entry);
        assert(entry.wf());
        assert(entry.contained());
        assert(dim.width - line_width(line) == 0);
        assert(line[n - 1].0.spec_resolve(dir).spec_offset(0) == 0);
        assert forall|j: int| 0 <= j < next.elements.len() implies frame.holds_within(
            (#[trigger] next.elements[j]).0,
            EPS as int,
        ) by {
            if j < prev.elements.len() {
                assert(next.elements[j] == prev.elements[j]);
            } else {
                let k = j - prev.elements.len();
                assert(next.elements[j].0 == at.shifted(entry.elements[k].0));
                assert(0 <= entry.elements[k].0.x <= entry.dim.width);
                assert(0 <= entry.elements[k].0.y <= entry.dim.height + entry.dim.depth);
            }
        }
    }
}

/// What can come after something that can come after a state can come after
/// that state.
pub proof fn lemma_follows_trans(a: StackState, b: StackState, c: StackState)
    requires
        b.follows(a),
        c.follows(b),
    ensures
        c.follows(a),
{
    assert(a.feedback =~= c.feedback.subrange(0, a.feedback.len() as int));
    assert(a.finished =~= c.finished.subrange(0, a.finished.len() as int));
    assert(a.traces =~= c.traces.subrange(0, a.traces.len() as int));
    assert forall|i: int| a.feedback.len() <= i < c.feedback.len() implies #[trigger] c.feedback[i]
        == a.overflow_here() by {
        if i < b.feedback.len() {
            assert(c.feedback[i] == b.feedback[i]);
        }
    }
}

impl StackState {
    /// Sealing the page and drawing the next area keeps `base`.
    pub proof fn lemma_advance(self)
        requires
            self.base(),
            self.current is Some,
        ensures
            self.advance().base(),
            self.advance().follows(self),
            self.advance().line == self.line,
            self.advance().space == self.space,
            self.advance().finished == self.finished.push(self.page),
            self.advance().current is Some ==> self.advance().feedback == self.feedback,
            self.advance().current is None ==> self.advance().feedback == self.feedback.push(
                self.overflow_here(),
            ),
            self.tidy() && self.advance().current is Some ==> self.advance().tidy(),
    {
        reveal(StackState::advance);
        let next = self.advance();
        let area = self.current->0;
        let (drawn, rest) = draw(self.areas, self.policy);
        assert(self.trace.sound());
        assert forall|i: int| 0 <= i < next.traces.len() implies {
            &&& (#[trigger] next.traces[i]).sound()
            &&& frame_from(next.pool, next.traces[i].frame)
            &&& next.traces[i].regular ==> stays_in(next.finished[i], next.traces[i].frame)
        } by {
            if i < self.traces.len() {
                assert(next.traces[i] == self.traces[i]);
                assert(next.finished[i] == self.finished[i]);
            }
        }
        assert forall|i: int| 0 <= i < next.areas.len() implies next.pool.contains(
            #[trigger] next.areas[i],
        ) by {
            if rest.len() < self.areas.len() {
                assert(rest[i] == self.areas[i + 1]);
            }
        }
        assert(all_wf(next.areas)) by {
            assert forall|i: int| 0 <= i < rest.len() implies (#[trigger] rest[i]).wf() by {
                if rest.len() < self.areas.len() {
                    assert(rest[i] == self.areas[i + 1]);
                }
            }
        }
        if let Some(a) = drawn {
            assert(a == self.areas[0]);
            assert(self.pool.contains(a));
            let k = choose|k: int| 0 <= k < self.pool.len() && self.pool[k] == a;
            assert(self.pool[k].usable == a.usable);
            assert(stays_in(next.page, next.trace.frame));
        }
        if self.tidy() && next.current is Some {
            assert forall|i: int| 0 <= i < next.traces.len() implies (
            #[trigger] next.traces[i]).regular by {
                if i < self.traces.len() {
                    assert(next.traces[i] == self.traces[i]);
                }
            }
        }
    }

    /// Putting the line on the page keeps `base` and leaves no line.
    pub proof fn lemma_commit(self)
        requires
            self.base(),
            self.current is Some,
        ensures
            self.commit().inv(),
            self.commit().follows(self),
            self.commit().finished == self.finished,
            self.commit().current is Some,
            self.commit().line.len() == 0,
            !self.commit().space,
            self.current->0.fits(line_dim(self.line)) ==> self.commit().feedback == self.feedback,
            !self.current->0.fits(line_dim(self.line)) ==> self.commit().feedback
                == self.feedback.push(self.overflow_here()),
            self.tidy() && self.current->0.fits(line_dim(self.line)) ==> self.commit().tidy(),
    {
        reveal(StackState::commit);
        let area = self.current->0;
        let dim = line_dim(self.line);
        let next = self.commit();
        lemma_line_extents(self.line);
        lemma_set_line_keeps(
            self.page,
            line_origin(area, dim),
            dim,
            self.line,
            self.opts.dir,
            self.line.len(),
        );
        if next.trace.regular {
            lemma_set_line_stays(
                self.page,
                area,
                self.trace.frame,
                self.line,
                self.opts.dir,
                self.line.len(),
            );
        }
        assert(line_width(next.line) == 0);
    }

    /// Flushing keeps `inv` and leaves no line and no pending space.
    pub proof fn lemma_flush(self)
        requires
            self.base(),
            self.current is None ==> self.line.len() == 0,
        ensures
            self.flush().inv(),
            self.flush().follows(self),
            self.flush().line.len() == 0,
            !self.flush().space,
            self.line.len() == 0 ==> self.flush() == (StackState { space: false, ..self }),
            self.tidy() && self.flush().feedback.len() == self.feedback.len()
                ==> self.flush().tidy(),
    {
        reveal(StackState::flush);
        if self.line.len() == 0 {
            assert(line_width(self.line) == 0);
        } else {
            let area = self.current->0;
            if area.fits(line_dim(self.line)) {
                self.lemma_commit();
            } else {
                self.lemma_advance();
                let next = self.advance();
                if next.current is Some {
                    next.lemma_commit();
                    lemma_follows_trans(self, next, next.commit());
                } else {
                    let last = StackState { line: Seq::empty(), space: false, ..next };
                    assert(line_width(last.line) == 0);
                    assert(last.follows(self));
                }
            }
        }
    }

    /// Moving on along the direction of stacking keeps `inv`.
    pub proof fn lemma_move_on(self, amount: int)
        requires
            self.inv(),
            self.line.len() == 0,
            0 <= amount <= MAX_LEN,
        ensures
            self.move_on(amount).inv(),
            self.move_on(amount).follows(self),
            self.move_on(amount).feedback == self.feedback,
            self.move_on(amount).finished == self.finished,
            self.tidy() ==> self.move_on(amount).tidy(),
    {
        assert(line_width(self.line) == 0);
    }

    /// A box that comes keeps `inv`.
    pub proof fn lemma_on_layout(self, align: GenAlign, layout: LayoutView)
        requires
            self.inv(),
            layout.wf(),
        ensures
            self.on_layout(align, layout).inv(),
            self.on_layout(align, layout).follows(self),
            self.tidy() && layout.contained() && self.on_layout(align, layout).feedback.len()
                == self.feedback.len() ==> self.on_layout(align, layout).tidy(),
    {
        reveal(StackState::on_layout);
        let next = self.on_layout(align, layout);
        if self.current is None {
        } else if self.takes(self.gap() + layout.dim.width) {
            let gap = (GenAlign::Start, LayoutView::empty(self.opts.space));
            let spaced = if self.space {
                self.line.push(gap)
            } else {
                self.line
            };
            assert(gap.1.wf());
            assert(gap.1.contained());
            if self.space {
                lemma_line_push(self.line, gap);
            }
            lemma_line_push(spaced, (align, layout));
        } else {
            self.lemma_flush();
            let flushed = self.flush();
            if flushed.current is Some {
                let begun = StackState { line: seq![(align, layout)], ..flushed };
                assert(begun.line == Seq::<(GenAlign, LayoutView)>::empty().push((align, layout)));
                lemma_line_push(Seq::<(GenAlign, LayoutView)>::empty(), (align, layout));
                assert(line_width(Seq::<(GenAlign, LayoutView)>::empty()) == 0);
                assert(begun.base());
                assert(begun.follows(self));
                if flushed.takes(layout.dim.width as int) {
                    if self.tidy() && layout.contained() && next.feedback.len()
                        == self.feedback.len() {
                        assert(line_contained(begun.line));
                    }
                } else {
                    begun.lemma_flush();
                    lemma_follows_trans(self, flushed, begun);
                    lemma_follows_trans(self, begun, begun.flush());
                    if self.tidy() && layout.contained() && next.feedback.len()
                        == self.feedback.len() {
                        assert(line_contained(begun.line));
                        assert(begun.tidy());
                    }
                }
            }
        }
    }

    /// A request that comes keeps `inv`. The pages that were done stay, the
    /// diagnostics that were there stay, and every new one is an overflow.
    /// A layouter whose supply spills never loses its page. Pages stay
    /// regular as long as the boxes that come contain their elements and no
    /// diagnostic arises.
    pub proof fn lemma_step(self, item: LayoutItem)
        requires
            self.inv(),
            item.wf(),
        ensures
            self.step(item).inv(),
            self.step(item).follows(self),
            self.tidy() && (item matches LayoutItem::Layout(_, layout) ==> layout@.contained())
                && self.step(item).feedback.len() == self.feedback.len() ==> self.step(
                item,
            ).tidy(),
    {
        match item {
            LayoutItem::Space => {},
            LayoutItem::Parbreak => {
                self.lemma_flush();
                self.flush().lemma_move_on(self.opts.par_spacing as int);
                lemma_follows_trans(self, self.flush(), self.step(item));
            },
            LayoutItem::Layout(align, layout) => {
                self.lemma_on_layout(align, layout@);
            },
            LayoutItem::Spacing(axis, amount) => {
                if axis == GenAxis::Cross.spec_resolve(self.opts.dir) {
                    let gap = LayoutView::empty(Dim { width: amount, height: 0, depth: 0 });
                    assert(gap.wf());
                    assert(gap.contained());
                    self.lemma_on_layout(GenAlign::Start, gap);
                } else {
                    self.lemma_flush();
                    self.flush().lemma_move_on(amount as int);
                    lemma_follows_trans(self, self.flush(), self.step(item));
                }
            },
        }
    }

    /// A layout that is placed in the flow keeps `inv`.
    pub proof fn lemma_on_placed(self, pos: Point, layout: LayoutView)
        requires
            self.inv(),
            layout.wf(),
            is_coord(pos.x),
            is_coord(pos.y),
        ensures
            self.on_placed(pos, layout).inv(),
            self.on_placed(pos, layout).follows(self),
    {
        self.lemma_flush();
        let flushed = self.flush();
        if flushed.current is Some {
            assert(line_width(flushed.line) == 0);
            lemma_follows_trans(self, flushed, self.on_placed(pos, layout));
        }
    }

    /// A layouter starts in a state of which `inv` holds, in which every page
    /// is regular.
    pub proof fn lemma_start(areas: Seq<Area>, policy: Overflow, opts: StackOptions)
        requires
            all_wf(areas),
            opts.wf(),
        ensures
            StackState::start(areas, policy, opts).inv(),
            StackState::start(areas, policy, opts).tidy(),
            StackState::start(areas, policy, opts).pool == areas,
            StackState::start(areas, policy, opts).feedback.len() == 0,
            areas.len() > 0 ==> StackState::start(areas, policy, opts).current is Some,
    {
        let s = StackState::start(areas, policy, opts);
        let (first, rest) = draw(areas, policy);
        assert(line_width(s.line) == 0);
        assert forall|i: int| 0 <= i < rest.len() implies areas.contains(#[trigger] rest[i])
            && rest[i].wf() by {
            if rest.len() < areas.len() {
                assert(rest[i] == areas[i + 1]);
            }
        }
        if let Some(a) = first {
            assert(a == areas[0]);
            assert(areas[0].usable == a.usable);
        }
    }
}

} // verus!
