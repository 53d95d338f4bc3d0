use paneru::focus::{motion_needs_hit_test, on_mouse_moved, FocusState};
use paneru::windows::WindowEntry;

fn windows() -> Vec<WindowEntry> {
    vec![
        WindowEntry { id: 1, entity: 100 },
        WindowEntry { id: 2, entity: 200 },
    ]
}

fn idle() -> FocusState {
    FocusState { ffm_flag: None, skip_reshuffle: false }
}

#[test]
fn motion_focuses_hovered_window() {
    let mut state = idle();
    let focus = on_mouse_moved(&mut state, true, false, Some(2), Some(1), &windows());
    assert_eq!(focus, Some(200));
    assert_eq!(state, FocusState { ffm_flag: Some(2), skip_reshuffle: true });
}

#[test]
fn motion_focus_with_nothing_focused() {
    let mut state = idle();
    let focus = on_mouse_moved(&mut state, true, false, Some(1), None, &windows());
    assert_eq!(focus, Some(100));
    assert_eq!(state.ffm_flag, Some(1));
    assert!(state.skip_reshuffle);
}

#[test]
fn motion_focus_is_not_repeated_while_flag_set() {
    let mut state = idle();
    assert_eq!(on_mouse_moved(&mut state, true, false, Some(2), Some(1), &windows()), Some(200));
    let after_first = state;
    assert_eq!(on_mouse_moved(&mut state, true, false, Some(1), Some(2), &windows()), None);
    assert_eq!(state, after_first);
    state.ffm_flag = None;
    assert_eq!(on_mouse_moved(&mut state, true, false, Some(1), Some(2), &windows()), Some(100));
}

#[test]
fn motion_ignored_when_focus_follows_mouse_off() {
    let mut state = idle();
    assert_eq!(on_mouse_moved(&mut state, false, false, Some(2), Some(1), &windows()), None);
    assert_eq!(state, idle());
    assert!(!motion_needs_hit_test(false, false, &state));
}

#[test]
fn motion_ignored_during_mission_control() {
    let mut state = idle();
    assert_eq!(on_mouse_moved(&mut state, true, true, Some(2), Some(1), &windows()), None);
    assert_eq!(state, idle());
    assert!(!motion_needs_hit_test(true, true, &state));
}

#[test]
fn motion_ignored_over_focused_window() {
    let mut state = FocusState { ffm_flag: None, skip_reshuffle: false };
    assert_eq!(on_mouse_moved(&mut state, true, false, Some(2), Some(2), &windows()), None);
    assert_eq!(state, idle());
}

#[test]
fn motion_ignored_without_window_under_pointer() {
    let mut state = idle();
    assert!(motion_needs_hit_test(true, false, &state));
    assert_eq!(on_mouse_moved(&mut state, true, false, None, Some(2), &windows()), None);
    assert_eq!(on_mouse_moved(&mut state, true, false, Some(3), Some(2), &windows()), None);
    assert_eq!(state, idle());
}

#[test]
fn hit_test_skipped_while_flag_set() {
    let state = FocusState { ffm_flag: Some(4), skip_reshuffle: false };
    assert!(!motion_needs_hit_test(true, false, &state));
}
