//! Drags: the drag handler is a placeholder that only reports the drag. It
//! finds the tracked window being dragged and the active display, for the log,
//! and plans no change to the world: no marker is spawned, moved or refreshed,
//! and no window is focused, moved or reshuffled.

use vstd::prelude::*;
use crate::windows::{
    WinId, EntityId, DisplayId, WindowEntry, entity_of, find_window,
    lemma_entity_of_is_first_with_id,
};

verus! {

/// What a drag reports: the entity of the dragged window and the active
/// display, if one is known. It carries no request to change anything.
#[derive(Clone, Copy, Debug, PartialEq, Eq, Structural)]
pub struct DragReport {
    pub entity: EntityId,
    pub display_id: Option<DisplayId>,
}

/// Whether the window under the pointer needs looking up for a drag event:
/// not while Mission Control is shown.
pub open spec fn drag_wants_hit_test(mission_control_active: bool) -> bool {
    !mission_control_active
}

/// The report of a drag over the window with identifier `dragged` (as the
/// window server reports it): nothing while Mission Control is shown or when
/// no tracked window is under the pointer; otherwise the dragged window's
/// entity and the active display.
pub open spec fn drag_report(
    mission_control_active: bool,
    dragged: Option<WinId>,
    windows: Seq<WindowEntry>,
    active_display: Option<DisplayId>,
) -> Option<DragReport> {
    if !drag_wants_hit_test(mission_control_active) {
        None
    } else {
        match dragged {
            None => None,
            Some(id) => match entity_of(windows, id) {
                None => None,
                Some(e) => Some(DragReport { entity: e, display_id: active_display }),
            },
        }
    }
}

/// Whether a drag event needs the window under the pointer looked up
/// (`drag_wants_hit_test`).
pub fn drag_needs_hit_test(mission_control_active: bool) -> (res: bool)
    ensures
        res == drag_wants_hit_test(mission_control_active),
{
    !mission_control_active
}

/// Handles a drag event (`drag_report`). The result only reports the drag;
/// the handler changes nothing.
pub fn on_mouse_dragged(
    mission_control_active: bool,
    dragged: Option<WinId>,
    windows: &Vec<WindowEntry>,
    active_display: Option<DisplayId>,
) -> (res: Option<DragReport>)
    ensures
        res == drag_report(mission_control_active, dragged, windows@, active_display),
{
    if !drag_needs_hit_test(mission_control_active) {
        return None;
    }
    let id = match dragged {
        None => return None,
        Some(id) => id,
    };
    match find_window(windows, id) {
        None => None,
        Some(e) => Some(DragReport { entity: e, display_id: active_display }),
    }
}

/// A drag is reported exactly when Mission Control is not shown and a
/// tracked window has the dragged identifier; the report names the first
/// tracked window with that identifier and the active display, as given.
pub proof fn lemma_drag_report_names_dragged_window(
    mission_control_active: bool,
    dragged: Option<WinId>,
    windows: Seq<WindowEntry>,
    active_display: Option<DisplayId>,
)
    ensures
        drag_report(mission_control_active, dragged, windows, active_display) is Some <==> (
        !mission_control_active && dragged is Some && exists|k: int|
            0 <= k < windows.len() && (#[trigger] windows[k]).id == dragged->0),
        drag_report(mission_control_active, dragged, windows, active_display) matches Some(r) ==> {
            &&& r.display_id == active_display
            &&& exists|k: int|
                0 <= k < windows.len() && (#[trigger] windows[k]).id == dragged->0
                    && windows[k].entity == r.entity && forall|j: int|
                    0 <= j < k ==> (#[trigger] windows[j]).id != dragged->0
        },
{
    if let Some(id) = dragged {
        lemma_entity_of_is_first_with_id(windows, id);
    }
}

} // verus!
