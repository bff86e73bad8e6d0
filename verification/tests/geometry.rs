use nested_tooltips::geometry::{
    debounce_inside, position_tooltip, HitRect, HorizontalAnchor, TooltipPlacement,
    VerticalAnchor,
};

#[test]
fn placement_top_left_quadrant() {
    let p = position_tooltip(800, 600, 100, 100);
    assert_eq!(p.horizontal, HorizontalAnchor::FromLeft(108));
    assert_eq!(p.vertical, VerticalAnchor::FromTop(108));
}

#[test]
fn placement_bottom_right_quadrant() {
    let p = position_tooltip(800, 600, 500, 400);
    assert_eq!(p.horizontal, HorizontalAnchor::FromRight(308));
    assert_eq!(p.vertical, VerticalAnchor::FromBottom(208));
}

#[test]
fn placement_centre_counts_as_top_left() {
    let p = position_tooltip(800, 600, 400, 300);
    assert_eq!(p.horizontal, HorizontalAnchor::FromLeft(408));
    assert_eq!(p.vertical, VerticalAnchor::FromTop(308));
}

#[test]
fn placement_mixed_quadrant() {
    let p = position_tooltip(1000, 1000, 900, 100);
    assert_eq!(p.horizontal, HorizontalAnchor::FromRight(108));
    assert_eq!(p.vertical, VerticalAnchor::FromTop(108));
}

#[test]
fn default_placement_sits_at_origin() {
    let p = TooltipPlacement::default();
    assert_eq!(p.horizontal, HorizontalAnchor::FromLeft(0));
    assert_eq!(p.vertical, VerticalAnchor::FromTop(0));
}

#[test]
fn debounce_bounds_are_inclusive() {
    assert!(debounce_inside(0, 0));
    assert!(debounce_inside(480, -480));
    assert!(debounce_inside(-480, 480));
    assert!(!debounce_inside(481, 0));
    assert!(!debounce_inside(0, -481));
    assert!(!debounce_inside(500, 500));
}

#[test]
fn hit_rect_contains_is_border_inclusive() {
    let r = HitRect { min_x: 10, min_y: 20, max_x: 30, max_y: 40 };
    assert!(r.contains(10, 20));
    assert!(r.contains(30, 40));
    assert!(r.contains(15, 35));
    assert!(!r.contains(9, 20));
    assert!(!r.contains(31, 40));
    assert!(!r.contains(15, 41));
}
