//! Focus follows the mouse: which window takes focus when the pointer moves.

use vstd::prelude::*;
use crate::windows::{
    WinId, EntityId, WindowEntry, entity_of, find_window, lemma_entity_of_is_first_with_id,
};

verus! {

/// The part of the configuration that pointer-driven focus reads and writes.
#[derive(Clone, Copy, Debug, PartialEq, Eq, Structural)]
pub struct FocusState {
    /// The window that the pointer last focused; while set, pointer motion
    /// focuses nothing.
    pub ffm_flag: Option<WinId>,
    /// The next focus change must not reshuffle the windows.
    pub skip_reshuffle: bool,
}

/// Whether pointer motion may focus a window at all: focus follows the mouse
/// is on, Mission Control is not shown, and no focus by the pointer is pending.
pub open spec fn motion_focus_enabled(
    focus_follows_mouse: bool,
    mission_control_active: bool,
    state: FocusState,
) -> bool {
    focus_follows_mouse && !mission_control_active && state.ffm_flag is None
}

/// The window that pointer motion focuses, as its identifier and entity: the
/// tracked window under the pointer, unless it is already focused.
pub open spec fn motion_focus_target(
    focus_follows_mouse: bool,
    mission_control_active: bool,
    state: FocusState,
    hovered: Option<WinId>,
    focused: Option<WinId>,
    windows: Seq<WindowEntry>,
) -> Option<(WinId, EntityId)> {
    if !motion_focus_enabled(focus_follows_mouse, mission_control_active, state) {
        None
    } else {
        match hovered {
            None => None,
            Some(h) => {
                if focused == Some(h) {
                    None
                } else {
                    match entity_of(windows, h) {
                        Some(e) => Some((h, e)),
                        None => None,
                    }
                }
            },
        }
    }
}

/// The focus state after pointer motion that focused `target` (or nothing).
pub open spec fn focus_state_after(state: FocusState, target: Option<(WinId, EntityId)>) -> FocusState {
    match target {
        Some((h, _)) => FocusState { ffm_flag: Some(h), skip_reshuffle: true },
        None => state,
    }
}

/// Whether the window under the pointer needs looking up for a motion event:
/// only when pointer motion may focus a window.
pub fn motion_needs_hit_test(
    focus_follows_mouse: bool,
    mission_control_active: bool,
    state: &FocusState,
) -> (res: bool)
    ensures
        res == motion_focus_enabled(focus_follows_mouse, mission_control_active, *state),
{
    focus_follows_mouse && !mission_control_active && state.ffm_flag.is_none()
}

/// Handles a pointer motion. `hovered` is the window under the pointer as the
/// window server reports it, `focused` the focused window, `windows` the
/// tracked windows. Returns the entity to focus (without reshuffling), and
/// records in `state` that the pointer focused that window and that the
/// focus change must not reshuffle.
pub fn on_mouse_moved(
    state: &mut FocusState,
    focus_follows_mouse: bool,
    mission_control_active: bool,
    hovered: Option<WinId>,
    focused: Option<WinId>,
    windows: &Vec<WindowEntry>,
) -> (focus: Option<EntityId>)
    ensures
        focus == (match motion_focus_target(
            focus_follows_mouse,
            mission_control_active,
            *old(state),
            hovered,
            focused,
            windows@,
        ) {
            Some((_, e)) => Some(e),
            None => None,
        }),
        old(state).ffm_flag is Some ==> focus is None && *final(state) == *old(state),
        *final(state) == focus_state_after(
            *old(state),
            motion_focus_target(
                focus_follows_mouse,
                mission_control_active,
                *old(state),
                hovered,
                focused,
                windows@,
            ),
        ),
{
    if !motion_needs_hit_test(focus_follows_mouse, mission_control_active, state) {
        return None;
    }
    let h = match hovered {
        None => return None,
        Some(h) => h,
    };
    match focused {
        Some(f) => {
            if f == h {
                return None;
            }
        },
        None => {},
    }
    match find_window(windows, h) {
        None => None,
        Some(e) => {
            state.skip_reshuffle = true;
            state.ffm_flag = Some(h);
            Some(e)
        },
    }
}

/// Once pointer motion has focused a window, further pointer motion focuses
/// nothing, whatever it passes over, until the focus flag is cleared.
pub proof fn lemma_motion_focus_is_not_repeated(
    focus_follows_mouse: bool,
    mission_control_active: bool,
    state: FocusState,
    hovered: Option<WinId>,
    focused: Option<WinId>,
    windows: Seq<WindowEntry>,
    next_ffm: bool,
    next_mission_control: bool,
    next_hovered: Option<WinId>,
    next_focused: Option<WinId>,
    next_windows: Seq<WindowEntry>,
)
    requires
        motion_focus_target(
            focus_follows_mouse,
            mission_control_active,
            state,
            hovered,
            focused,
            windows,
        ) is Some,
    ensures
        motion_focus_target(
            next_ffm,
            next_mission_control,
            focus_state_after(
                state,
                motion_focus_target(
                    focus_follows_mouse,
                    mission_control_active,
                    state,
                    hovered,
                    focused,
                    windows,
                ),
            ),
            next_hovered,
            next_focused,
            next_windows,
        ) is None,
{
}

/// A window focused by pointer motion is the tracked window under the
/// pointer, was not focused before, and the focus change reshuffles nothing.
pub proof fn lemma_motion_focus_target(
    focus_follows_mouse: bool,
    mission_control_active: bool,
    state: FocusState,
    hovered: Option<WinId>,
    focused: Option<WinId>,
    windows: Seq<WindowEntry>,
)
    ensures
        motion_focus_target(focus_follows_mouse, mission_control_active, state, hovered, focused, windows)
            matches Some((h, e)) ==> {
            &&& hovered == Some(h)
            &&& focused != Some(h)
            &&& entity_of(windows, h) == Some(e)
            &&& focus_state_after(
                state,
                Some((h, e)),
            ).skip_reshuffle
            &&& focus_state_after(state, Some((h, e))).ffm_flag == Some(h)
        },
{
}

/// What pointer motion does, stated over the inputs alone:
/// - while focus follows the mouse is off, Mission Control is shown, or a
///   pointer focus is pending (the flag is set, whatever `skip_reshuffle`
///   says), it focuses nothing and leaves the state as it was;
/// - otherwise it focuses exactly the first tracked window whose identifier is
///   the hovered one, unless that window is already focused, and then the
///   flag names that window and the next focus change must not reshuffle.
pub proof fn lemma_motion_focus_meaning(
    focus_follows_mouse: bool,
    mission_control_active: bool,
    state: FocusState,
    hovered: Option<WinId>,
    focused: Option<WinId>,
    windows: Seq<WindowEntry>,
)
    ensures
        ({
            let target = motion_focus_target(
                focus_follows_mouse,
                mission_control_active,
                state,
                hovered,
                focused,
                windows,
            );
            let after = focus_state_after(state, target);
            &&& (!focus_follows_mouse || mission_control_active || state.ffm_flag is Some) ==> (
            target is None && after == state)
            &&& target is None ==> after == state
            &&& target matches Some((h, e)) ==> {
                &&& focus_follows_mouse && !mission_control_active && state.ffm_flag is None
                &&& hovered == Some(h)
                &&& focused != Some(h)
                &&& exists|k: int|
                    0 <= k < windows.len() && (#[trigger] windows[k]).id == h && windows[k].entity
                        == e && forall|j: int| 0 <= j < k ==> (#[trigger] windows[j]).id != h
                &&& after == FocusState { ffm_flag: Some(h), skip_reshuffle: true }
            }
            &&& forall|k: int|
                focus_follows_mouse && !mission_control_active && state.ffm_flag is None
                    && hovered == Some(windows[k].id) && focused != Some(windows[k].id) && 0 <= k
                    < windows.len() && (forall|j: int|
                    0 <= j < k ==> (#[trigger] windows[j]).id != windows[k].id) ==> target == Some(
                    (windows[k].id, #[trigger] windows[k].entity),
                )
            &&& (focus_follows_mouse && !mission_control_active && state.ffm_flag is None
                && hovered is Some && focused != hovered && exists|k: int|
                0 <= k < windows.len() && (#[trigger] windows[k]).id == hovered->0) ==> target is Some
        }),
{
    if let Some(h) = hovered {
        lemma_entity_of_is_first_with_id(windows, h);
    }
    assert forall|k: int|
        focus_follows_mouse && !mission_control_active && state.ffm_flag is None && hovered == Some(
            windows[k].id,
        ) && focused != Some(windows[k].id) && 0 <= k < windows.len() && (forall|j: int|
            0 <= j < k ==> (#[trigger] windows[j]).id != windows[k].id) implies motion_focus_target(
        focus_follows_mouse,
        mission_control_active,
        state,
        hovered,
        focused,
        windows,
    ) == Some((windows[k].id, #[trigger] windows[k].entity)) by {
        lemma_entity_of_is_first_with_id(windows, windows[k].id);
    }
}

} // verus!
