use paneru::geometry::{Point, Rect};
use paneru::warp::{horizontal_warp_point, warp_target_index, EDGE_THRESHOLD};

// Three displays stacked vertically: top, middle, bottom.
fn stacked() -> Vec<Rect> {
    vec![
        Rect::new(0, 1000, 1919, 2079),
        Rect::new(0, 0, 1919, 1079),
        Rect::new(0, -1200, 1599, -1),
    ]
}

#[test]
fn left_edge_positive_direction_goes_to_greater_y() {
    let ds = stacked();
    // On the middle display (min.y 0) at its left edge.
    assert_eq!(warp_target_index(&ds, Point::new(1, 500), Some(1)), Some(0));
    assert_eq!(horizontal_warp_point(&ds, Point::new(1, 500), Some(1)), Some(Point::new(959, 1539)));
}

#[test]
fn left_edge_negative_direction_goes_to_smaller_y() {
    let ds = stacked();
    assert_eq!(warp_target_index(&ds, Point::new(0, 500), Some(-1)), Some(2));
    assert_eq!(horizontal_warp_point(&ds, Point::new(0, 500), Some(-1)), Some(Point::new(799, -600)));
}

#[test]
fn right_edge_swaps_direction() {
    let ds = stacked();
    assert_eq!(warp_target_index(&ds, Point::new(1918, 500), Some(1)), Some(2));
    assert_eq!(warp_target_index(&ds, Point::new(1919, 500), Some(-1)), Some(0));
}

#[test]
fn zero_direction_counts_as_negative() {
    let ds = stacked();
    assert_eq!(warp_target_index(&ds, Point::new(0, 500), Some(0)), Some(2));
}

#[test]
fn no_warp_away_from_edges() {
    let ds = stacked();
    assert_eq!(warp_target_index(&ds, Point::new(EDGE_THRESHOLD, 500), Some(1)), None);
    assert_eq!(warp_target_index(&ds, Point::new(1919 - EDGE_THRESHOLD, 500), Some(1)), None);
    assert_eq!(warp_target_index(&ds, Point::new(2, 500), Some(1)), Some(0));
    assert_eq!(warp_target_index(&ds, Point::new(1917, 500), Some(1)), Some(2));
}

#[test]
fn no_warp_without_direction_or_second_display() {
    let ds = stacked();
    assert_eq!(warp_target_index(&ds, Point::new(0, 500), None), None);
    let one = vec![Rect::new(0, 0, 1919, 1079)];
    assert_eq!(warp_target_index(&one, Point::new(0, 500), Some(1)), None);
    assert_eq!(horizontal_warp_point(&one, Point::new(0, 500), Some(1)), None);
}

#[test]
fn no_warp_outside_every_display() {
    let ds = stacked();
    assert_eq!(warp_target_index(&ds, Point::new(-5, 500), Some(1)), None);
}

#[test]
fn no_warp_without_display_in_direction() {
    let ds = stacked();
    // The top display has nothing further up.
    assert_eq!(warp_target_index(&ds, Point::new(0, 1500), Some(1)), None);
    assert_eq!(warp_target_index(&ds, Point::new(0, 1500), Some(-1)), Some(1));
}

#[test]
fn nearest_display_wins_and_ties_keep_order() {
    let ds = vec![
        Rect::new(0, 3000, 99, 3999),
        Rect::new(0, 0, 99, 999),
        Rect::new(200, 1000, 299, 1999),
        Rect::new(400, 1000, 499, 1999),
    ];
    assert_eq!(warp_target_index(&ds, Point::new(0, 10), Some(1)), Some(2));
}

#[test]
fn first_containing_display_is_current() {
    // Two overlapping displays both contain the point; the first one listed
    // is the one the pointer is on.
    let ds = vec![
        Rect::new(0, 0, 99, 99),
        Rect::new(0, 50, 99, 149),
        Rect::new(0, 500, 99, 599),
    ];
    assert_eq!(warp_target_index(&ds, Point::new(0, 60), Some(1)), Some(1));
}

#[test]
fn left_edge_preferred_on_narrow_display() {
    let ds = vec![
        Rect::new(0, 0, 3, 99),
        Rect::new(0, 100, 99, 199),
        Rect::new(0, -100, 99, -1),
    ];
    // Near both edges: the left edge decides.
    assert_eq!(warp_target_index(&ds, Point::new(2, 10), Some(1)), Some(1));
}

#[test]
fn warp_lands_inside_another_display() {
    let ds = stacked();
    for (x, y, dir) in [(0, 500, 1), (0, 500, -1), (1919, 500, 1), (0, 1500, -1), (1, -600, 1)] {
        let p = Point::new(x, y);
        let k = warp_target_index(&ds, p, Some(dir)).unwrap();
        let current = ds.iter().position(|d| d.contains(p)).unwrap();
        assert_ne!(k, current);
        assert!(ds[k].contains(horizontal_warp_point(&ds, p, Some(dir)).unwrap()));
    }
}

#[test]
fn warp_happens_when_a_display_lies_in_direction() {
    let ds = vec![Rect::new(0, 0, 99, 99), Rect::new(1000, 5000, 1099, 5099)];
    // The second display is far away horizontally but lower on the desktop.
    assert_eq!(warp_target_index(&ds, Point::new(99, 50), Some(-1)), Some(1));
    assert_eq!(horizontal_warp_point(&ds, Point::new(99, 50), Some(-1)), Some(Point::new(1049, 5049)));
}
