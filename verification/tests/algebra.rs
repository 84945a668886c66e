use layout_engine::{Dir, GenAlign, GenAxis, Side, SpecAlign, SpecAxis};

#[test]
fn directions_have_axis_and_sign() {
    assert_eq!(Dir::LTR.axis(), SpecAxis::Horizontal);
    assert_eq!(Dir::RTL.axis(), SpecAxis::Horizontal);
    assert_eq!(Dir::TTB.axis(), SpecAxis::Vertical);
    assert_eq!(Dir::BTT.axis(), SpecAxis::Vertical);
    assert!(Dir::LTR.is_positive());
    assert!(Dir::TTB.is_positive());
    assert!(!Dir::RTL.is_positive());
    assert!(!Dir::BTT.is_positive());
}

#[test]
fn directions_start_and_end_at_sides() {
    assert_eq!(Dir::LTR.start(), Side::Left);
    assert_eq!(Dir::LTR.end(), Side::Right);
    assert_eq!(Dir::RTL.start(), Side::Right);
    assert_eq!(Dir::RTL.end(), Side::Left);
    assert_eq!(Dir::TTB.start(), Side::Top);
    assert_eq!(Dir::TTB.end(), Side::Bottom);
    assert_eq!(Dir::BTT.start(), Side::Bottom);
    assert_eq!(Dir::BTT.end(), Side::Top);
}

#[test]
fn generic_axes_resolve_against_main_direction() {
    assert_eq!(GenAxis::Main.resolve(Dir::TTB), SpecAxis::Vertical);
    assert_eq!(GenAxis::Cross.resolve(Dir::TTB), SpecAxis::Horizontal);
    assert_eq!(GenAxis::Main.resolve(Dir::RTL), SpecAxis::Horizontal);
    assert_eq!(GenAxis::Cross.resolve(Dir::RTL), SpecAxis::Vertical);
    assert_eq!(SpecAxis::Horizontal.other(), SpecAxis::Vertical);
    assert_eq!(SpecAxis::Vertical.other(), SpecAxis::Horizontal);
}

#[test]
fn specific_axes_generalize_back() {
    for dir in [Dir::LTR, Dir::RTL, Dir::TTB, Dir::BTT] {
        for axis in [GenAxis::Main, GenAxis::Cross] {
            assert_eq!(axis.resolve(dir).generalize(dir), axis);
        }
    }
}

#[test]
fn alignment_symmetry_on_directions() {
    assert_eq!(GenAlign::Start.resolve(Dir::LTR), SpecAlign::Left);
    assert_eq!(GenAlign::Start.resolve(Dir::RTL), SpecAlign::Right);
    assert_eq!(GenAlign::Start.resolve(Dir::TTB), SpecAlign::Top);
    assert_eq!(GenAlign::Start.resolve(Dir::BTT), SpecAlign::Bottom);
    assert_eq!(GenAlign::End.resolve(Dir::LTR), SpecAlign::Right);
    assert_eq!(GenAlign::End.resolve(Dir::RTL), SpecAlign::Left);
    assert_eq!(GenAlign::End.resolve(Dir::TTB), SpecAlign::Bottom);
    assert_eq!(GenAlign::End.resolve(Dir::BTT), SpecAlign::Top);
    for dir in [Dir::LTR, Dir::RTL, Dir::TTB, Dir::BTT] {
        assert_eq!(GenAlign::Center.resolve(dir), SpecAlign::Center);
    }
}

#[test]
fn alignment_inverse_swaps_start_and_end() {
    assert_eq!(GenAlign::Start.inv(), GenAlign::End);
    assert_eq!(GenAlign::End.inv(), GenAlign::Start);
    assert_eq!(GenAlign::Center.inv(), GenAlign::Center);
}

#[test]
fn alignment_offsets_within_slack() {
    assert_eq!(SpecAlign::Left.offset(11), 0);
    assert_eq!(SpecAlign::Top.offset(11), 0);
    assert_eq!(SpecAlign::Right.offset(11), 11);
    assert_eq!(SpecAlign::Bottom.offset(11), 11);
    assert_eq!(SpecAlign::Center.offset(11), 5);
    assert_eq!(SpecAlign::Center.offset(0), 0);
}

#[test]
fn sides_and_alignments_have_axes() {
    assert_eq!(Side::Left.axis(), SpecAxis::Horizontal);
    assert_eq!(Side::Bottom.axis(), SpecAxis::Vertical);
    assert_eq!(Side::Right.to_align(), SpecAlign::Right);
    assert_eq!(SpecAlign::Top.axis(), Some(SpecAxis::Vertical));
    assert_eq!(SpecAlign::Left.axis(), Some(SpecAxis::Horizontal));
    assert_eq!(SpecAlign::Center.axis(), None);
}
