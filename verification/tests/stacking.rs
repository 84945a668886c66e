use layout_engine::{
    Area, Areas, Color, Diagnostic, DiagnosticKind, Dim, FilledShape, GenAlign, Layout,
    LayoutElement, LayoutItem, Layouter, Overflow, Placement, Point, Rect, Sides, Size, Span,
    SpecAxis, StackLayouter, StackOptions,
};

fn page() -> Area {
    Area::of_page(Size::new(100, 100), Sides::uniform(10))
}

fn mark(n: u8) -> LayoutElement {
    LayoutElement::Shape(FilledShape {
        size: Size::new(1, 1),
        fill: Color { r: n, g: 0, b: 0, a: 255 },
    })
}

/// A box of the given width, 8 high and 2 deep, with one element at the start
/// of its baseline.
fn word(n: u8, width: i64) -> LayoutItem {
    let mut l = Layout::new(Dim::new(width, 8, 2));
    l.push(Point::new(0, 8), mark(n));
    LayoutItem::Layout(GenAlign::Start, l)
}

fn spill() -> StackLayouter {
    StackLayouter::new(
        Areas::new(vec![page()], Overflow::Spill),
        StackOptions::new(Dim::new(5, 0, 0), 4),
    )
}

fn stop() -> StackLayouter {
    StackLayouter::new(
        Areas::new(vec![page()], Overflow::Stop),
        StackOptions::new(Dim::new(5, 0, 0), 4),
    )
}

fn positions(page: &Layout) -> Vec<(i64, i64)> {
    page.elements.iter().map(|(p, _)| (p.x, p.y)).collect()
}

#[test]
fn default_options_stack_downwards() {
    let opts = StackOptions::default();
    assert_eq!(opts.dir, layout_engine::Dir::TTB);
    assert_eq!(opts.space, Dim::zero());
    assert_eq!(opts.par_spacing, 0);
}

#[test]
fn new_layouter_draws_first_area() {
    let s = spill();
    let (current, rest) = s.areas();
    assert_eq!(current, Some(&page()));
    assert_eq!(rest.len(), 1);
    assert!(!s.is_exhausted());
    assert_eq!(s.finished_len(), 0);
    let s = stop();
    let (current, rest) = s.areas();
    assert_eq!(current, Some(&page()));
    assert_eq!(rest.len(), 0);
}

#[test]
fn finish_without_items_gives_one_empty_page() {
    let pass = spill().finish();
    assert!(pass.feedback.is_empty());
    assert_eq!(pass.output, vec![Layout::new(Dim::new(100, 100, 0))]);
}

#[test]
fn layouter_without_areas_gives_no_page() {
    let mut s = StackLayouter::new(Areas::new(vec![], Overflow::Spill), StackOptions::default());
    assert!(s.is_exhausted());
    s.layout_item(word(1, 10));
    s.layout_item(LayoutItem::Parbreak);
    let pass = s.finish();
    assert_eq!(pass.output, vec![]);
    assert!(pass.feedback.is_empty());
}

#[test]
fn one_box_sits_at_top_left_baseline() {
    let mut s = spill();
    s.layout_item(word(1, 10));
    let pass = s.finish();
    assert_eq!(pass.output.len(), 1);
    assert_eq!(pass.output[0].dim, Dim::new(100, 100, 0));
    assert_eq!(pass.output[0].elements, vec![(Point::new(10, 18), mark(1))]);
}

#[test]
fn space_joins_two_boxes_on_a_line() {
    let mut s = spill();
    s.layout_item(word(1, 10));
    s.layout_item(LayoutItem::Space);
    s.layout_item(word(2, 25));
    let pass = s.finish();
    assert_eq!(positions(&pass.output[0]), vec![(10, 18), (25, 18)]);
}

#[test]
fn spaces_collapse_and_vanish_at_line_start() {
    let mut s = spill();
    s.layout_item(LayoutItem::Space);
    s.layout_item(word(1, 10));
    s.layout_item(LayoutItem::Space);
    s.layout_item(LayoutItem::Space);
    s.layout_item(LayoutItem::Space);
    s.layout_item(word(2, 10));
    s.layout_item(LayoutItem::Space);
    let pass = s.finish();
    assert_eq!(positions(&pass.output[0]), vec![(10, 18), (25, 18)]);
}

#[test]
fn boxes_without_space_are_adjacent() {
    let mut s = spill();
    s.layout_item(word(1, 10));
    s.layout_item(word(2, 10));
    let pass = s.finish();
    assert_eq!(positions(&pass.output[0]), vec![(10, 18), (20, 18)]);
}

#[test]
fn box_that_does_not_fit_wraps() {
    let mut s = spill();
    s.layout_item(word(1, 50));
    s.layout_item(LayoutItem::Space);
    s.layout_item(word(2, 50));
    s.layout_item(LayoutItem::Space);
    s.layout_item(word(3, 25));
    let pass = s.finish();
    assert_eq!(positions(&pass.output[0]), vec![(10, 18), (10, 28), (65, 28)]);
}

#[test]
fn line_fits_exactly_and_by_tolerance() {
    let mut s = spill();
    s.layout_item(word(1, 40));
    s.layout_item(word(2, 41));
    let pass = s.finish();
    assert_eq!(positions(&pass.output[0]), vec![(10, 18), (50, 18)]);
    let mut s = spill();
    s.layout_item(word(1, 40));
    s.layout_item(word(2, 42));
    let pass = s.finish();
    assert_eq!(positions(&pass.output[0]), vec![(10, 18), (10, 28)]);
}

#[test]
fn pending_space_counts_for_the_fit() {
    let mut s = spill();
    s.layout_item(word(1, 40));
    s.layout_item(LayoutItem::Space);
    s.layout_item(word(2, 40));
    let pass = s.finish();
    assert_eq!(positions(&pass.output[0]), vec![(10, 18), (10, 28)]);
}

#[test]
fn baselines_align_within_a_line() {
    let mut s = spill();
    let mut tall = Layout::new(Dim::new(10, 20, 5));
    tall.push(Point::new(0, 20), mark(1));
    tall.push(Point::new(0, 0), mark(2));
    s.layout_item(LayoutItem::Layout(GenAlign::Start, tall));
    s.layout_item(word(3, 10));
    s.layout_item(LayoutItem::Parbreak);
    s.layout_item(word(4, 10));
    let pass = s.finish();
    // the line is 20 high and 5 deep: its baseline is at 30; the next line
    // starts at 10 + 25 + 4 = 39 and has its baseline at 47
    assert_eq!(positions(&pass.output[0]), vec![(10, 30), (10, 10), (20, 30), (10, 47)]);
}

#[test]
fn parbreak_advances_by_paragraph_spacing() {
    let mut s = spill();
    s.layout_item(word(1, 10));
    s.layout_item(LayoutItem::Space);
    s.layout_item(word(2, 10));
    s.layout_item(LayoutItem::Parbreak);
    s.layout_item(word(3, 10));
    s.layout_item(LayoutItem::Space);
    s.layout_item(word(4, 10));
    let pass = s.finish();
    assert_eq!(positions(&pass.output[0]), vec![(10, 18), (25, 18), (10, 32), (25, 32)]);
}

#[test]
fn parbreak_drops_pending_space() {
    let mut s = spill();
    s.layout_item(word(1, 10));
    s.layout_item(LayoutItem::Space);
    s.layout_item(LayoutItem::Parbreak);
    s.layout_item(word(2, 10));
    let pass = s.finish();
    assert_eq!(positions(&pass.output[0]), vec![(10, 18), (10, 32)]);
}

#[test]
fn main_spacing_flushes_and_moves_on() {
    let mut s = spill();
    s.layout_item(word(1, 10));
    s.layout_item(LayoutItem::Spacing(SpecAxis::Vertical, 30));
    let (current, _) = s.areas();
    assert_eq!(current.unwrap().usable, Rect::new(10, 50, 90, 90));
    s.layout_item(word(2, 10));
    let pass = s.finish();
    assert_eq!(positions(&pass.output[0]), vec![(10, 18), (10, 58)]);
}

#[test]
fn main_spacing_stops_at_the_bottom() {
    let mut s = spill();
    s.layout_item(LayoutItem::Spacing(SpecAxis::Vertical, 500));
    let (current, _) = s.areas();
    assert_eq!(current.unwrap().usable, Rect::new(10, 90, 90, 90));
    s.layout_item(word(1, 10));
    let pass = s.finish();
    assert_eq!(pass.output.len(), 2);
    assert!(pass.output[0].elements.is_empty());
    assert_eq!(positions(&pass.output[1]), vec![(10, 18)]);
    assert!(pass.feedback.is_empty());
}

#[test]
fn cross_spacing_is_a_rigid_gap_in_the_line() {
    let mut s = spill();
    s.layout_item(word(1, 10));
    s.layout_item(LayoutItem::Spacing(SpecAxis::Horizontal, 30));
    s.layout_item(word(2, 10));
    let pass = s.finish();
    assert_eq!(positions(&pass.output[0]), vec![(10, 18), (50, 18)]);
}

#[test]
fn flush_with_empty_line_changes_no_page() {
    let mut s = spill();
    s.layout_item(word(1, 10));
    s.flush();
    let (before, _) = s.areas();
    let before = *before.unwrap();
    let done = s.finished_len();
    s.flush();
    s.flush();
    assert_eq!(s.finished_len(), done);
    let (after, _) = s.areas();
    assert_eq!(*after.unwrap(), before);
    let pass = s.finish();
    assert_eq!(pass.output.len(), 1);
    assert_eq!(positions(&pass.output[0]), vec![(10, 18)]);
}

#[test]
fn lines_spill_onto_next_page() {
    let mut s = spill();
    for n in 0..9 {
        s.layout_item(word(n, 50));
        s.layout_item(LayoutItem::Space);
    }
    let pass = s.finish();
    assert!(pass.feedback.is_empty());
    assert_eq!(pass.output.len(), 2);
    assert_eq!(
        positions(&pass.output[0]),
        vec![(10, 18), (10, 28), (10, 38), (10, 48), (10, 58), (10, 68), (10, 78), (10, 88)]
    );
    assert_eq!(positions(&pass.output[1]), vec![(10, 18)]);
    for page in &pass.output {
        let lines = page.elements.len() as i64;
        assert!(lines * 10 <= 80 + 1);
        for (pos, _) in &page.elements {
            assert!(Rect::new(10, 10, 90, 90).contains_within(*pos, 1));
        }
    }
}

#[test]
fn stop_drops_what_does_not_fit() {
    let mut s = stop();
    for n in 0..9 {
        s.set_span(Some(Span::new(n as usize * 10, n as usize * 10 + 5)));
        s.layout_item(word(n, 50));
        s.layout_item(LayoutItem::Space);
    }
    assert!(!s.is_exhausted());
    let pass = s.finish();
    assert_eq!(pass.output.len(), 1);
    assert_eq!(pass.output[0].elements.len(), 8);
    assert_eq!(
        pass.feedback.diagnostics,
        vec![Diagnostic { kind: DiagnosticKind::Overflow, span: Some(Span::new(80, 85)) }]
    );
}

#[test]
fn stop_discards_items_after_exhaustion() {
    let mut s = stop();
    for n in 0..12 {
        s.layout_item(word(n, 50));
    }
    assert!(s.is_exhausted());
    assert_eq!(s.finished_len(), 1);
    assert_eq!(s.feedback().len(), 1);
    s.layout_item(LayoutItem::Space);
    s.layout_item(LayoutItem::Parbreak);
    s.layout_item(LayoutItem::Spacing(SpecAxis::Vertical, 5));
    s.layout_item(word(99, 5));
    let pass = s.finish();
    assert_eq!(pass.output.len(), 1);
    assert_eq!(pass.output[0].elements.len(), 8);
    assert_eq!(
        pass.feedback.diagnostics,
        vec![Diagnostic { kind: DiagnosticKind::Overflow, span: None }]
    );
}

#[test]
fn stop_walks_through_its_areas() {
    let small = Area::of_page(Size::new(100, 30), Sides::uniform(10));
    let mut s = StackLayouter::new(
        Areas::new(vec![small, page()], Overflow::Stop),
        StackOptions::default(),
    );
    s.layout_item(word(1, 50));
    s.layout_item(word(2, 50));
    s.layout_item(word(3, 50));
    let pass = s.finish();
    assert!(pass.feedback.is_empty());
    assert_eq!(pass.output.len(), 2);
    assert_eq!(pass.output[0].dim, Dim::new(100, 30, 0));
    assert_eq!(positions(&pass.output[0]), vec![(10, 18)]);
    assert_eq!(pass.output[1].dim, Dim::new(100, 100, 0));
    assert_eq!(positions(&pass.output[1]), vec![(10, 18), (10, 28)]);
}

#[test]
fn box_too_wide_is_put_on_its_own_line_with_overflow() {
    let mut s = spill();
    s.layout_item(word(1, 10));
    s.set_span(Some(Span::new(3, 9)));
    s.layout_item(word(2, 200));
    s.set_span(None);
    s.layout_item(word(3, 10));
    let pass = s.finish();
    assert_eq!(
        pass.feedback.diagnostics,
        vec![Diagnostic { kind: DiagnosticKind::Overflow, span: Some(Span::new(3, 9)) }]
    );
    assert_eq!(pass.output.len(), 2);
    assert_eq!(positions(&pass.output[0]), vec![(10, 18)]);
    assert_eq!(positions(&pass.output[1]), vec![(10, 18), (10, 28)]);
}

#[test]
fn line_too_high_for_any_page_is_forced() {
    let mut s = spill();
    let mut tall = Layout::new(Dim::new(10, 200, 0));
    tall.push(Point::new(0, 200), mark(1));
    s.layout_item(LayoutItem::Layout(GenAlign::Start, tall));
    let pass = s.finish();
    assert!(pass.feedback.has(DiagnosticKind::Overflow));
    assert_eq!(pass.output.len(), 2);
    assert!(pass.output[0].elements.is_empty());
    assert_eq!(positions(&pass.output[1]), vec![(10, 210)]);
}

#[test]
fn alignment_does_not_move_boxes_of_a_tight_line() {
    for align in [GenAlign::Start, GenAlign::Center, GenAlign::End] {
        let mut s = spill();
        let mut l = Layout::new(Dim::new(10, 8, 2));
        l.push(Point::new(0, 8), mark(1));
        s.layout_item(LayoutItem::Layout(align, l));
        s.layout_item(word(2, 10));
        let pass = s.finish();
        assert_eq!(positions(&pass.output[0]), vec![(10, 18), (20, 18)]);
    }
}

#[test]
fn placed_layout_is_embedded_and_flow_goes_on_below() {
    let mut s = spill();
    s.layout_item(word(1, 10));
    let mut figure = Layout::new(Dim::new(30, 20, 0));
    figure.push(Point::new(1, 2), mark(7));
    StackLayouter::layout_placed(&mut s, Point::new(40, 30), Placement::InFlow, figure);
    let (current, _) = s.areas();
    assert_eq!(current.unwrap().usable, Rect::new(10, 50, 90, 90));
    s.layout_item(word(2, 10));
    let pass = s.finish();
    assert_eq!(positions(&pass.output[0]), vec![(10, 18), (41, 32), (10, 58)]);
}

#[test]
fn layouter_trait_drives_the_stack() {
    fn feed<L: Layouter>(l: &mut L, item: LayoutItem) {
        l.layout_item(item);
    }
    let mut s = spill();
    feed(&mut s, word(1, 10));
    feed(&mut s, LayoutItem::Space);
    feed(&mut s, word(2, 10));
    let (current, rest) = Layouter::areas(&s);
    assert_eq!(current, Some(&page()));
    assert_eq!(rest.len(), 1);
    Layouter::layout_placed(&mut s, Point::new(0, 0), Placement::InFlow, Layout::new(Dim::zero()));
    let pass = s.finish();
    assert_eq!(positions(&pass.output[0]), vec![(10, 18), (25, 18)]);
}
