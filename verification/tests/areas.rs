use layout_engine::{Area, Areas, Dim, Overflow, Point, Rect, Side, Sides, Size};

fn page() -> Area {
    Area::of_page(Size::new(100, 100), Sides::uniform(10))
}

#[test]
fn area_of_page_insets_margins() {
    let a = page();
    assert_eq!(a.size, Size { width: 100, height: 100 });
    assert_eq!(a.usable, Rect { x0: 10, y0: 10, x1: 90, y1: 90 });
    assert_eq!(a.shape, None);
}

#[test]
fn place_puts_baseline_below_top() {
    let a = page();
    assert_eq!(a.place(Dim::new(10, 8, 2), Side::Top), Some(Point { x: 10, y: 18 }));
    assert_eq!(a.place(Dim::new(0, 0, 0), Side::Top), Some(Point { x: 10, y: 10 }));
}

#[test]
fn place_fits_up_to_tolerance() {
    let a = page();
    assert_eq!(a.place(Dim::new(80, 70, 10), Side::Top), Some(Point { x: 10, y: 80 }));
    assert_eq!(a.place(Dim::new(81, 70, 11), Side::Top), Some(Point { x: 10, y: 80 }));
    assert_eq!(a.place(Dim::new(82, 8, 2), Side::Top), None);
    assert_eq!(a.place(Dim::new(10, 80, 2), Side::Top), None);
}

#[test]
fn shrink_by_moves_one_edge() {
    let mut a = page();
    a.shrink_by(5, Side::Left);
    assert_eq!(a.usable, Rect { x0: 15, y0: 10, x1: 90, y1: 90 });
    a.shrink_by(5, Side::Right);
    assert_eq!(a.usable, Rect { x0: 15, y0: 10, x1: 85, y1: 90 });
    a.shrink_by(5, Side::Top);
    assert_eq!(a.usable, Rect { x0: 15, y0: 15, x1: 85, y1: 90 });
    a.shrink_by(5, Side::Bottom);
    assert_eq!(a.usable, Rect { x0: 15, y0: 15, x1: 85, y1: 85 });
    assert_eq!(a.size, Size { width: 100, height: 100 });
}

#[test]
fn shrink_by_stops_at_opposite_edge() {
    let mut a = page();
    a.shrink_by(500, Side::Top);
    assert_eq!(a.usable, Rect { x0: 10, y0: 90, x1: 90, y1: 90 });
    let mut a = page();
    a.shrink_by(500, Side::Bottom);
    assert_eq!(a.usable, Rect { x0: 10, y0: 10, x1: 90, y1: 10 });
    let mut a = page();
    a.shrink_by(500, Side::Left);
    assert_eq!(a.usable, Rect { x0: 90, y0: 10, x1: 90, y1: 90 });
    let mut a = page();
    a.shrink_by(500, Side::Right);
    assert_eq!(a.usable, Rect { x0: 10, y0: 10, x1: 10, y1: 90 });
}

#[test]
fn shrink_to_sets_one_edge() {
    let mut a = page();
    a.shrink_to(30, Side::Left);
    assert_eq!(a.usable.x0, 30);
    a.shrink_to(70, Side::Right);
    assert_eq!(a.usable.x1, 70);
    a.shrink_to(40, Side::Top);
    assert_eq!(a.usable.y0, 40);
    a.shrink_to(60, Side::Bottom);
    assert_eq!(a.usable.y1, 60);
}

#[test]
fn shrink_to_stops_at_opposite_edge() {
    let mut a = page();
    a.shrink_to(1000, Side::Top);
    assert_eq!(a.usable, Rect { x0: 10, y0: 90, x1: 90, y1: 90 });
    let mut a = page();
    a.shrink_to(-1000, Side::Right);
    assert_eq!(a.usable, Rect { x0: 10, y0: 10, x1: 10, y1: 90 });
}

#[test]
fn areas_stop_drains() {
    let first = page();
    let second = Area::of_page(Size::new(50, 50), Sides::uniform(5));
    let mut areas = Areas::new(vec![first, second], Overflow::Stop);
    assert_eq!(areas.len(), 2);
    assert_eq!(areas.overflow(), Overflow::Stop);
    assert_eq!(areas.next(), Some(first));
    assert_eq!(areas.next(), Some(second));
    assert_eq!(areas.len(), 0);
    assert_eq!(areas.next(), None);
    assert_eq!(areas.next(), None);
}

#[test]
fn areas_spill_repeats_last() {
    let first = page();
    let second = Area::of_page(Size::new(50, 50), Sides::uniform(5));
    let mut areas = Areas::new(vec![first, second], Overflow::Spill);
    assert_eq!(areas.next(), Some(first));
    for _ in 0..10 {
        assert_eq!(areas.next(), Some(second));
        assert_eq!(areas.len(), 1);
        assert_eq!(areas.as_slice(), &[second]);
    }
}

#[test]
fn areas_spill_with_one_area_never_runs_dry() {
    let mut areas = Areas::new(vec![page()], Overflow::Spill);
    for _ in 0..100 {
        assert_eq!(areas.next(), Some(page()));
    }
    assert_eq!(areas.len(), 1);
}

#[test]
fn areas_empty_supply_gives_nothing() {
    let mut areas = Areas::new(vec![], Overflow::Spill);
    assert_eq!(areas.next(), None);
    let mut areas = Areas::new(vec![], Overflow::Stop);
    assert_eq!(areas.next(), None);
}

#[test]
fn areas_deref_to_what_is_left() {
    let first = page();
    let second = Area::of_page(Size::new(50, 50), Sides::uniform(5));
    let mut areas = Areas::new(vec![first, second], Overflow::Stop);
    assert_eq!(areas[0], first);
    assert_eq!(areas[1], second);
    assert_eq!(areas.iter().count(), 2);
    areas.next();
    assert_eq!(areas.first(), Some(&second));
    assert_eq!(&*areas, &[second]);
}
