//! What holds of the pages that the stack layouter makes.

use vstd::prelude::*;
use crate::area::{all_wf, draw, Area, Overflow};
use crate::geom::EPS;
use crate::layout::LayoutItem;
use crate::stack::state::{frame_from, stays_in, StackOptions, StackState};

verus! {

/// On every page that is regular, every element is positioned inside the
/// frame of the page, the part of its area that was free when the page was
/// begun, grown by `EPS`; and that frame is the free part of one of the areas
/// that the layouter started with.
pub proof fn regular_pages_stay_in_frame(state: StackState, page: int)
    requires
        state.inv(),
        0 <= page < state.pages().len(),
    ensures
        state.pages().len() == state.page_traces().len(),
        frame_from(state.pool, state.page_traces()[page].frame),
        state.page_traces()[page].regular ==> stays_in(
            state.pages()[page],
            state.page_traces()[page].frame,
        ),
{
    state.lemma_flush();
    let last = state.flush();
    if page < last.finished.len() {
        assert(last.traces[page].sound());
    }
}

/// On every page, the heights of the lines and the gaps add up to no more
/// than the height of the frame and what ran past its bottom. So on a page
/// where no more than `EPS` ran past the bottom they add up to no more than
/// the height of the frame and `EPS`; and on a page where nothing ran past it,
/// to no more than the height of the frame.
pub proof fn page_extent_bounded(state: StackState, page: int)
    requires
        state.inv(),
        0 <= page < state.page_traces().len(),
    ensures
        state.page_traces()[page].sound(),
        state.page_traces()[page].used <= state.page_traces()[page].frame.spec_height()
            + state.page_traces()[page].cut,
        state.page_traces()[page].cut <= EPS ==> state.page_traces()[page].used
            <= state.page_traces()[page].frame.spec_height() + EPS,
{
    state.lemma_flush();
    let last = state.flush();
    if page < last.traces.len() {
        assert(last.traces[page].sound());
    }
}

/// A flush without a pending line changes nothing but to drop a pending
/// space: the pages that are done and the page that is being laid out stay as
/// they are, and no area is drawn.
pub proof fn flush_without_line(state: StackState)
    requires
        state.line.len() == 0,
    ensures
        state.flush() == (StackState { space: false, ..state }),
        state.flush().finished == state.finished,
        state.flush().flush() == state.flush(),
{
    reveal(StackState::flush);
}

/// A layouter whose supply spills and that started with an area has a page
/// at all times: it never draws in vain, and it drops nothing.
pub proof fn spill_keeps_page(areas: Seq<Area>, opts: StackOptions, state: StackState, item: LayoutItem)
    requires
        all_wf(areas),
        opts.wf(),
        areas.len() > 0,
        state.inv(),
        state.policy == Overflow::Spill,
        state.current is Some,
        item.wf(),
    ensures
        StackState::start(areas, Overflow::Spill, opts).current is Some,
        state.step(item).current is Some,
        state.flush().current is Some,
        state.areas.len() > 0,
        draw(state.areas, state.policy).0 is Some,
{
    StackState::lemma_start(areas, Overflow::Spill, opts);
    state.lemma_step(item);
    state.lemma_flush();
}

/// Pages stay regular as long as every box that comes contains its elements
/// and nothing overflows: if every page was regular and every box of the
/// pending line contained its elements, the same holds after a request that
/// gives no diagnostic.
pub proof fn pages_stay_regular(state: StackState, item: LayoutItem)
    requires
        state.inv(),
        state.tidy(),
        item.wf(),
        item matches LayoutItem::Layout(_, layout) ==> layout@.contained(),
        state.step(item).feedback.len() == state.feedback.len(),
    ensures
        state.step(item).tidy(),
        state.step(item).inv(),
{
    state.lemma_step(item);
}

} // verus!
