use minimal_game::direction::Direction;
use minimal_game::geometry::{Point, Rect};

#[test]
fn from_center_places_top_left_corner() {
    let r = Rect::from_center(Point::new(0, 290), 32, 58);
    assert_eq!(r, Rect::new(-16, 261, 32, 58));
    assert_eq!(r.center(), Point::new(0, 290));
}

#[test]
fn world_bounds_from_canvas_size() {
    let r = Rect::from_center(Point::new(0, 0), 800, 600);
    assert_eq!(r, Rect::new(-400, -300, 800, 600));
}

#[test]
fn center_rounds_towards_top_left() {
    let r = Rect::new(1, 0, 2, 3);
    assert_eq!(r.center(), Point::new(2, 1));
}

#[test]
fn contains_rect_allows_shared_edges() {
    let r = Rect::new(1, 2, 3, 4);
    assert!(r.contains_rect(r));
    assert!(r.contains_rect(Rect::new(3, 3, 1, 1)));
    assert!(!r.contains_rect(Rect::new(2, 1, 1, 1)));
    assert!(!r.contains_rect(Rect::new(3, 3, 2, 1)));
}

#[test]
fn intersection_needs_shared_area() {
    let r = Rect::new(0, 0, 5, 5);
    assert!(r.has_intersection(r));
    assert!(r.has_intersection(Rect::new(2, 2, 5, 5)));
    assert!(!r.has_intersection(Rect::new(5, 0, 5, 5)));
    assert!(!r.has_intersection(Rect::new(0, 5, 5, 5)));
    assert!(!r.has_intersection(Rect::new(1, 1, 0, 3)));
}

#[test]
fn direction_unit_points() {
    assert_eq!(Direction::Up.into_point(), Point::new(0, -1));
    assert_eq!(Direction::Down.into_point(), Point::new(0, 1));
    assert_eq!(Direction::Left.into_point(), Point::new(-1, 0));
    assert_eq!(Direction::Right.into_point(), Point::new(1, 0));
}
