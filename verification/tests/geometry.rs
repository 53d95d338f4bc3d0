use paneru::geometry::{Point, Rect};
use paneru::windows::{find_window, WindowEntry};

#[test]
fn rect_new_orders_corners() {
    let r = Rect::new(2, 3, 5, -1);
    assert_eq!(r.min, Point::new(2, -1));
    assert_eq!(r.max, Point::new(5, 3));
}

#[test]
fn contains_includes_edges() {
    let r = Rect::new(0, 0, 5, 1);
    assert!(r.contains(r.min));
    assert!(r.contains(r.max));
    assert!(r.contains(Point::new(5, 0)));
    assert!(!r.contains(Point::new(6, 0)));
    assert!(!r.contains(Point::new(0, -1)));
    assert!(!r.contains(Point::new(-1, 1)));
    assert!(!r.contains(Point::new(3, 2)));
}

#[test]
fn center_rounds_down_for_positive_sums() {
    let r = Rect::new(0, 0, 5, 2);
    assert_eq!(r.center(), Point::new(2, 1));
    assert!(r.contains(r.center()));
}

#[test]
fn center_rounds_toward_zero_for_negative_sums() {
    let r = Rect::new(-5, -3, 0, 0);
    assert_eq!(r.center(), Point::new(-2, -1));
}

#[test]
fn center_of_extreme_rect() {
    let r = Rect::new(i32::MIN, i32::MIN, i32::MAX, i32::MAX);
    assert_eq!(r.center(), Point::new(0, 0));
    let r = Rect::new(i32::MAX, i32::MAX, i32::MAX, i32::MAX);
    assert_eq!(r.center(), Point::new(i32::MAX, i32::MAX));
}

#[test]
fn find_window_takes_first_match() {
    let windows = vec![
        WindowEntry { id: 7, entity: 70 },
        WindowEntry { id: 9, entity: 90 },
        WindowEntry { id: 7, entity: 71 },
    ];
    assert_eq!(find_window(&windows, 7), Some(70));
    assert_eq!(find_window(&windows, 9), Some(90));
    assert_eq!(find_window(&windows, 8), None);
    assert_eq!(find_window(&Vec::new(), 7), None);
}
