use paneru::drag::{drag_needs_hit_test, on_mouse_dragged, DragReport};
use paneru::windows::WindowEntry;

fn windows() -> Vec<WindowEntry> {
    vec![
        WindowEntry { id: 1, entity: 100 },
        WindowEntry { id: 2, entity: 200 },
    ]
}

#[test]
fn drag_over_window_is_only_reported() {
    assert_eq!(
        on_mouse_dragged(false, Some(1), &windows(), Some(4)),
        Some(DragReport { entity: 100, display_id: Some(4) })
    );
    assert_eq!(
        on_mouse_dragged(false, Some(2), &windows(), None),
        Some(DragReport { entity: 200, display_id: None })
    );
}

#[test]
fn drag_ignored_during_mission_control() {
    assert!(!drag_needs_hit_test(true));
    assert_eq!(on_mouse_dragged(true, Some(1), &windows(), Some(4)), None);
}

#[test]
fn drag_ignored_off_windows() {
    assert!(drag_needs_hit_test(false));
    assert_eq!(on_mouse_dragged(false, None, &windows(), Some(4)), None);
    assert_eq!(on_mouse_dragged(false, Some(3), &windows(), Some(4)), None);
}
