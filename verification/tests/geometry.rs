use eye_tracker::geometry::{translate_circle, translate_rect, Circle, Rect};

#[test]
fn rect_inside_the_frame_is_in_bounds() {
    let r = Rect::new(10, 20, 100, 50);
    assert!(r.in_bounds(640, 480));
    assert!(r.in_bounds(110, 70));
}

#[test]
fn rect_touching_the_edge_is_in_bounds() {
    let r = Rect::new(540, 430, 100, 50);
    assert!(r.in_bounds(640, 480));
}

#[test]
fn rect_crossing_the_edge_is_out_of_bounds() {
    assert!(!Rect::new(541, 430, 100, 50).in_bounds(640, 480));
    assert!(!Rect::new(540, 431, 100, 50).in_bounds(640, 480));
    assert!(!Rect::new(-1, 0, 10, 10).in_bounds(640, 480));
    assert!(!Rect::new(0, 0, -5, 10).in_bounds(640, 480));
}

#[test]
fn circle_center_bounds_follow_the_region() {
    let c = Circle::new(50, 30, 8);
    assert!(c.center_in(50, 30));
    assert!(!c.center_in(49, 30));
    assert!(!Circle::new(-1, 0, 2).center_in(50, 30));
}

#[test]
fn translated_rect_adds_the_origin() {
    let eye = Rect::new(30, 40, 50, 25);
    let moved = translate_rect(200, 100, &eye);
    assert_eq!(moved, Rect::new(230, 140, 50, 25));
}

#[test]
fn translated_circle_adds_the_origin_and_keeps_the_radius() {
    let c = Circle::new(5, 6, 3);
    let moved = translate_circle(230, 140, &c);
    assert_eq!(moved, Circle::new(235, 146, 3));
}
