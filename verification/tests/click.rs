use paneru::click::{click_needs_hit_test, on_mouse_down, on_mouse_up, HeldMarker, MouseRelease, Workspace, HELD_MARKER_TIMEOUT_SECS};
use paneru::windows::WindowEntry;

fn windows() -> Vec<WindowEntry> {
    vec![
        WindowEntry { id: 1, entity: 100 },
        WindowEntry { id: 2, entity: 200 },
    ]
}

fn workspaces() -> Vec<Workspace> {
    vec![
        Workspace { entity: 10, scrolling: true },
        Workspace { entity: 11, scrolling: false },
        Workspace { entity: 12, scrolling: true },
    ]
}

#[test]
fn click_stops_scrolling_and_holds_window() {
    let held = vec![HeldMarker { marker: 50, target: 100 }, HeldMarker { marker: 51, target: 200 }];
    let plan = on_mouse_down(false, Some(2), &windows(), &workspaces(), &held, true).unwrap();
    assert_eq!(plan.stop_scrolling, vec![10, 12]);
    assert_eq!(plan.despawn, vec![50, 51]);
    assert_eq!(plan.hold, Some(200));
}

#[test]
fn click_at_full_hidden_ratio_holds_nothing() {
    let held = vec![HeldMarker { marker: 50, target: 100 }];
    let plan = on_mouse_down(false, Some(1), &windows(), &workspaces(), &held, false).unwrap();
    assert_eq!(plan.stop_scrolling, vec![10, 12]);
    assert_eq!(plan.despawn, vec![50]);
    assert_eq!(plan.hold, None);
}

#[test]
fn click_ignored_during_mission_control() {
    assert!(on_mouse_down(true, Some(1), &windows(), &workspaces(), &Vec::new(), true).is_none());
}

#[test]
fn click_ignored_off_windows() {
    assert!(on_mouse_down(false, None, &windows(), &workspaces(), &Vec::new(), true).is_none());
    assert!(on_mouse_down(false, Some(9), &windows(), &workspaces(), &Vec::new(), true).is_none());
}

#[test]
fn click_without_scrolling_or_markers() {
    let plan = on_mouse_down(false, Some(1), &windows(), &Vec::new(), &Vec::new(), true).unwrap();
    assert!(plan.stop_scrolling.is_empty());
    assert!(plan.despawn.is_empty());
    assert_eq!(plan.hold, Some(100));
}

#[test]
fn release_reshuffles_each_held_window() {
    let held = vec![HeldMarker { marker: 60, target: 100 }, HeldMarker { marker: 61, target: 200 }];
    assert_eq!(
        on_mouse_up(&held),
        vec![
            MouseRelease { reshuffle_around: 100, despawn: 60 },
            MouseRelease { reshuffle_around: 200, despawn: 61 },
        ]
    );
    assert!(on_mouse_up(&Vec::new()).is_empty());
}

#[test]
fn click_then_release_reshuffles_clicked_window() {
    let held = vec![HeldMarker { marker: 50, target: 100 }];
    let plan = on_mouse_down(false, Some(2), &windows(), &Vec::new(), &held, true).unwrap();
    let mut remaining: Vec<HeldMarker> =
        held.into_iter().filter(|h| !plan.despawn.contains(&h.marker)).collect();
    if let Some(target) = plan.hold {
        remaining.push(HeldMarker { marker: 77, target });
    }
    assert_eq!(on_mouse_up(&remaining), vec![MouseRelease { reshuffle_around: 200, despawn: 77 }]);
}

#[test]
fn held_marker_timeout_is_five_seconds() {
    assert_eq!(HELD_MARKER_TIMEOUT_SECS, 5);
}

#[test]
fn click_hit_test_skipped_during_mission_control() {
    assert!(!click_needs_hit_test(true));
    assert!(click_needs_hit_test(false));
}

#[test]
fn click_stops_each_scrolling_workspace_once() {
    let ws = vec![
        Workspace { entity: 10, scrolling: false },
        Workspace { entity: 11, scrolling: true },
    ];
    let plan = on_mouse_down(false, Some(1), &windows(), &ws, &Vec::new(), true).unwrap();
    assert_eq!(plan.stop_scrolling, vec![11]);
}
