use layout_engine::geom::{max_len, min_len};
use layout_engine::{Dim, Point, Rect, Sides, Size, EPS, MAX_LEN, UNITS_PER_PT};

#[test]
fn units_and_tolerance() {
    assert_eq!(UNITS_PER_PT, 10_000);
    assert_eq!(EPS, 1);
    assert_eq!(MAX_LEN, 1 << 40);
}

#[test]
fn min_and_max_of_lengths() {
    assert_eq!(min_len(3, 7), 3);
    assert_eq!(min_len(7, 3), 3);
    assert_eq!(max_len(3, 7), 7);
    assert_eq!(max_len(-3, -7), -3);
}

#[test]
fn point_shift_adds_coordinates() {
    let p = Point::new(10, 20).shift(Point::new(-3, 5));
    assert_eq!(p, Point { x: 7, y: 25 });
    assert_eq!(Point::zero().shift(p), p);
}

#[test]
fn size_to_rect_starts_at_origin() {
    let r = Size::new(100, 50).to_rect();
    assert_eq!(r, Rect { x0: 0, y0: 0, x1: 100, y1: 50 });
    assert_eq!(r.width(), 100);
    assert_eq!(r.height(), 50);
}

#[test]
fn rect_inset_takes_margins_off() {
    let r = Rect::new(0, 0, 100, 100).inset(Sides::uniform(10));
    assert_eq!(r, Rect { x0: 10, y0: 10, x1: 90, y1: 90 });
    let r = Rect::new(0, 0, 100, 100).inset(Sides::new(1, 2, 3, 4));
    assert_eq!(r, Rect { x0: 1, y0: 2, x1: 97, y1: 96 });
}

#[test]
fn rect_inset_never_inverts() {
    let r = Rect::new(0, 0, 100, 100).inset(Sides::uniform(70));
    assert_eq!(r, Rect { x0: 70, y0: 70, x1: 70, y1: 70 });
    assert_eq!(r.width(), 0);
    assert_eq!(r.height(), 0);
    let r = Rect::new(0, 0, 100, 100).inset(Sides::new(200, 0, 0, 200));
    assert_eq!(r, Rect { x0: 100, y0: 0, x1: 100, y1: 0 });
}

#[test]
fn rect_contains_within_tolerance() {
    let r = Rect::new(10, 10, 90, 90);
    assert!(r.contains_within(Point::new(10, 90), 0));
    assert!(r.contains_within(Point::new(91, 9), 1));
    assert!(!r.contains_within(Point::new(92, 50), 1));
    assert!(!r.contains_within(Point::new(50, 8), 1));
}

#[test]
fn dim_to_size_adds_height_and_depth() {
    let d = Dim::new(10, 8, 2);
    assert_eq!(d.to_size(), Size { width: 10, height: 10 });
    assert_eq!(Dim::zero(), Dim { width: 0, height: 0, depth: 0 });
    assert_eq!(Size::zero(), Size { width: 0, height: 0 });
}
