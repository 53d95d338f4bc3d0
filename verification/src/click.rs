//! Clicks: a mouse-down on a window stops scrolling and, unless windows may be
//! hidden entirely, marks the window as held; the matching mouse-up reshuffles
//! the windows around every held window so that it slides into view.

use vstd::prelude::*;
use crate::windows::{
    WinId, EntityId, WindowEntry, entity_of, find_window, lemma_entity_of_is_first_with_id,
};

verus! {

/// How long a held-window marker lives when no mouse-up arrives.
pub const HELD_MARKER_TIMEOUT_SECS: u64 = 5;

/// An active workspace, and whether it is scrolling.
#[derive(Clone, Copy, Debug, PartialEq, Eq, Structural)]
pub struct Workspace {
    pub entity: EntityId,
    pub scrolling: bool,
}

/// A marker entity that holds a clicked window until the button is released.
#[derive(Clone, Copy, Debug, PartialEq, Eq, Structural)]
pub struct HeldMarker {
    pub marker: EntityId,
    pub target: EntityId,
}

/// What a mouse-down asks for: stop the scrolling of these workspaces,
/// despawn these held markers, and hold this window (when there is one).
pub struct MouseDownPlan {
    pub stop_scrolling: Vec<EntityId>,
    pub despawn: Vec<EntityId>,
    pub hold: Option<EntityId>,
}

/// The mathematical content of a `MouseDownPlan`.
pub struct MouseDownPlanView {
    pub stop_scrolling: Seq<EntityId>,
    pub despawn: Seq<EntityId>,
    pub hold: Option<EntityId>,
}

impl View for MouseDownPlan {
    type V = MouseDownPlanView;

    open spec fn view(&self) -> MouseDownPlanView {
        MouseDownPlanView { stop_scrolling: self.stop_scrolling@, despawn: self.despawn@, hold: self.hold }
    }
}

/// What a mouse-up asks for about one held marker: reshuffle the windows
/// around its window, then despawn the marker.
#[derive(Clone, Copy, Debug, PartialEq, Eq, Structural)]
pub struct MouseRelease {
    pub reshuffle_around: EntityId,
    pub despawn: EntityId,
}

/// The entities of the scrolling workspaces, in order.
pub open spec fn scrolling_entities(workspaces: Seq<Workspace>) -> Seq<EntityId>
    decreases workspaces.len(),
{
    if workspaces.len() == 0 {
        Seq::empty()
    } else {
        let rest = scrolling_entities(workspaces.drop_last());
        if workspaces.last().scrolling {
            rest.push(workspaces.last().entity)
        } else {
            rest
        }
    }
}

/// The marker entities of the held markers, in order.
pub open spec fn marker_entities(held: Seq<HeldMarker>) -> Seq<EntityId> {
    held.map_values(|h: HeldMarker| h.marker)
}

/// Whether the window under the pointer needs looking up for a mouse-down:
/// not while Mission Control is shown.
pub open spec fn click_wants_hit_test(mission_control_active: bool) -> bool {
    !mission_control_active
}

/// The plan for a mouse-down on the window with identifier `clicked` (as the
/// window server reports it): nothing while Mission Control is shown or when
/// no tracked window is under the pointer; otherwise stop every scrolling
/// workspace, despawn every held marker left from an earlier click, and hold
/// the clicked window when `defer_reshuffle` says windows are not allowed to
/// stay hidden.
pub open spec fn mouse_down_plan(
    mission_control_active: bool,
    clicked: Option<WinId>,
    windows: Seq<WindowEntry>,
    workspaces: Seq<Workspace>,
    held: Seq<HeldMarker>,
    defer_reshuffle: bool,
) -> Option<MouseDownPlanView> {
    if !click_wants_hit_test(mission_control_active) {
        None
    } else {
        match clicked {
            None => None,
            Some(id) => match entity_of(windows, id) {
                None => None,
                Some(e) => Some(
                    MouseDownPlanView {
                        stop_scrolling: scrolling_entities(workspaces),
                        despawn: marker_entities(held),
                        hold: if defer_reshuffle {
                            Some(e)
                        } else {
                            None
                        },
                    },
                ),
            },
        }
    }
}

pub open spec fn release_of(h: HeldMarker) -> MouseRelease {
    MouseRelease { reshuffle_around: h.target, despawn: h.marker }
}

/// The plan for a mouse-up: release every held marker, in order.
pub open spec fn mouse_up_plan(held: Seq<HeldMarker>) -> Seq<MouseRelease> {
    held.map_values(|h: HeldMarker| release_of(h))
}

fn scrolling_workspaces(workspaces: &Vec<Workspace>) -> (res: Vec<EntityId>)
    ensures
        res@ == scrolling_entities(workspaces@),
{
    let mut res: Vec<EntityId> = Vec::new();
    let n = workspaces.len();
    let mut i: usize = 0;
    while i < n
        invariant
            n == workspaces@.len(),
            i <= n,
            res@ == scrolling_entities(workspaces@.take(i as int)),
        decreases n - i,
    {
        assert(workspaces@.take(i + 1).drop_last() =~= workspaces@.take(i as int));
        if workspaces[i].scrolling {
            res.push(workspaces[i].entity);
        }
        i += 1;
    }
    assert(workspaces@.take(n as int) =~= workspaces@);
    res
}

fn held_marker_entities(held: &Vec<HeldMarker>) -> (res: Vec<EntityId>)
    ensures
        res@ == marker_entities(held@),
{
    let mut res: Vec<EntityId> = Vec::new();
    let n = held.len();
    let mut i: usize = 0;
    while i < n
        invariant
            n == held@.len(),
            i <= n,
            res@ =~= marker_entities(held@.take(i as int)),
        decreases n - i,
    {
        res.push(held[i].marker);
        i += 1;
    }
    assert(held@.take(n as int) =~= held@);
    res
}

/// Whether a mouse-down needs the window under the pointer looked up
/// (`click_wants_hit_test`).
pub fn click_needs_hit_test(mission_control_active: bool) -> (res: bool)
    ensures
        res == click_wants_hit_test(mission_control_active),
{
    !mission_control_active
}

/// Handles a mouse-down (`mouse_down_plan`). `clicked` is the window the
/// window server reports under the pointer, `workspaces` the active
/// workspaces, `held` the held markers that exist, and `defer_reshuffle`
/// whether windows are allowed to stay partly hidden (the hidden ratio is
/// below one), in which case the reshuffle waits for the mouse-up.
pub fn on_mouse_down(
    mission_control_active: bool,
    clicked: Option<WinId>,
    windows: &Vec<WindowEntry>,
    workspaces: &Vec<Workspace>,
    held: &Vec<HeldMarker>,
    defer_reshuffle: bool,
) -> (res: Option<MouseDownPlan>)
    ensures
        match res {
            Some(plan) => mouse_down_plan(
                mission_control_active,
                clicked,
                windows@,
                workspaces@,
                held@,
                defer_reshuffle,
            ) == Some(plan@),
            None => mouse_down_plan(
                mission_control_active,
                clicked,
                windows@,
                workspaces@,
                held@,
                defer_reshuffle,
            ) is None,
        },
{
    if !click_needs_hit_test(mission_control_active) {
        return None;
    }
    let id = match clicked {
        None => return None,
        Some(id) => id,
    };
    let e = match find_window(windows, id) {
        None => return None,
        Some(e) => e,
    };
    let stop_scrolling = scrolling_workspaces(workspaces);
    let despawn = held_marker_entities(held);
    let hold = if defer_reshuffle {
        Some(e)
    } else {
        None
    };
    Some(MouseDownPlan { stop_scrolling, despawn, hold })
}

/// Handles a mouse-up (`mouse_up_plan`): every held window gets its
/// reshuffle, and every held marker goes.
pub fn on_mouse_up(held: &Vec<HeldMarker>) -> (res: Vec<MouseRelease>)
    ensures
        res@ == mouse_up_plan(held@),
{
    let mut res: Vec<MouseRelease> = Vec::new();
    let n = held.len();
    let mut i: usize = 0;
    while i < n
        invariant
            n == held@.len(),
            i <= n,
            res@ =~= mouse_up_plan(held@.take(i as int)),
        decreases n - i,
    {
        res.push(MouseRelease { reshuffle_around: held[i].target, despawn: held[i].marker });
        i += 1;
    }
    assert(held@.take(n as int) =~= held@);
    res
}

/// The held markers that remain once the markers in `despawned` are gone.
pub open spec fn held_without(held: Seq<HeldMarker>, despawned: Seq<EntityId>) -> Seq<HeldMarker>
    decreases held.len(),
{
    if held.len() == 0 {
        Seq::empty()
    } else {
        let rest = held_without(held.drop_last(), despawned);
        if despawned.contains(held.last().marker) {
            rest
        } else {
            rest.push(held.last())
        }
    }
}

/// The held markers once a mouse-down plan is carried out; the new marker,
/// if any, is the entity `fresh`.
pub open spec fn held_after_down(held: Seq<HeldMarker>, plan: MouseDownPlanView, fresh: EntityId) -> Seq<
    HeldMarker,
> {
    let rest = held_without(held, plan.despawn);
    match plan.hold {
        Some(t) => rest.push(HeldMarker { marker: fresh, target: t }),
        None => rest,
    }
}

/// The held markers once the releases of a mouse-up are carried out.
pub open spec fn held_after_up(held: Seq<HeldMarker>, releases: Seq<MouseRelease>) -> Seq<HeldMarker> {
    held_without(held, releases.map_values(|r: MouseRelease| r.despawn))
}

proof fn lemma_held_without_all(held: Seq<HeldMarker>, despawned: Seq<EntityId>)
    requires
        forall|i: int| 0 <= i < held.len() ==> despawned.contains(#[trigger] held[i].marker),
    ensures
        held_without(held, despawned) == Seq::<HeldMarker>::empty(),
    decreases held.len(),
{
    if held.len() > 0 {
        let init = held.drop_last();
        assert forall|i: int| 0 <= i < init.len() implies despawned.contains(#[trigger] init[i].marker) by {
            assert(init[i] == held[i]);
        }
        lemma_held_without_all(init, despawned);
        assert(despawned.contains(held[held.len() - 1].marker));
    }
}

/// A mouse-up releases every held marker: none is left afterwards.
pub proof fn lemma_release_clears_held(held: Seq<HeldMarker>)
    ensures
        held_after_up(held, mouse_up_plan(held)) == Seq::<HeldMarker>::empty(),
{
    let despawned = mouse_up_plan(held).map_values(|r: MouseRelease| r.despawn);
    assert forall|i: int| 0 <= i < held.len() implies despawned.contains(#[trigger] held[i].marker) by {
        assert(despawned[i] == held[i].marker);
    }
    lemma_held_without_all(held, despawned);
}

/// A click on a tracked window followed by the release: the mouse-down
/// clears every marker left from earlier clicks; when the reshuffle is
/// deferred, exactly the clicked window is held and the mouse-up reshuffles
/// around it alone, otherwise nothing is held and the mouse-up does nothing.
/// Either way no marker remains after the release.
pub proof fn lemma_click_then_release(
    clicked: WinId,
    windows: Seq<WindowEntry>,
    workspaces: Seq<Workspace>,
    held: Seq<HeldMarker>,
    defer_reshuffle: bool,
    fresh: EntityId,
)
    requires
        entity_of(windows, clicked) is Some,
    ensures
        ({
            let e = entity_of(windows, clicked)->0;
            let plan = mouse_down_plan(false, Some(clicked), windows, workspaces, held, defer_reshuffle)->0;
            let after_down = held_after_down(held, plan, fresh);
            &&& mouse_down_plan(false, Some(clicked), windows, workspaces, held, defer_reshuffle) is Some
            &&& plan.stop_scrolling == scrolling_entities(workspaces)
            &&& after_down == (if defer_reshuffle {
                seq![HeldMarker { marker: fresh, target: e }]
            } else {
                Seq::<HeldMarker>::empty()
            })
            &&& mouse_up_plan(after_down) == (if defer_reshuffle {
                seq![MouseRelease { reshuffle_around: e, despawn: fresh }]
            } else {
                Seq::<MouseRelease>::empty()
            })
            &&& held_after_up(after_down, mouse_up_plan(after_down)) == Seq::<HeldMarker>::empty()
        }),
{
    let e = entity_of(windows, clicked)->0;
    let plan = mouse_down_plan(false, Some(clicked), windows, workspaces, held, defer_reshuffle)->0;
    assert forall|i: int| 0 <= i < held.len() implies plan.despawn.contains(#[trigger] held[i].marker) by {
        assert(plan.despawn[i] == held[i].marker);
    }
    lemma_held_without_all(held, plan.despawn);
    let after_down = held_after_down(held, plan, fresh);
    assert(mouse_up_plan(after_down) =~= (if defer_reshuffle {
        seq![MouseRelease { reshuffle_around: e, despawn: fresh }]
    } else {
        Seq::<MouseRelease>::empty()
    }));
    lemma_release_clears_held(after_down);
}

/// While Mission Control is shown, or when no tracked window is under the
/// pointer, a mouse-down asks for nothing.
pub proof fn lemma_mouse_down_ignored(
    mission_control_active: bool,
    clicked: Option<WinId>,
    windows: Seq<WindowEntry>,
    workspaces: Seq<Workspace>,
    held: Seq<HeldMarker>,
    defer_reshuffle: bool,
)
    requires
        mission_control_active || clicked is None || entity_of(windows, clicked->0) is None,
    ensures
        mouse_down_plan(mission_control_active, clicked, windows, workspaces, held, defer_reshuffle) is None,
{
}

/// A mouse-down stops exactly the scrolling workspaces among the active
/// ones: an entity is in the list if and only if it is a scrolling
/// workspace, and the list is no longer than the workspaces.
pub proof fn lemma_stops_exactly_scrolling_workspaces(workspaces: Seq<Workspace>)
    ensures
        scrolling_entities(workspaces).len() <= workspaces.len(),
        forall|e: EntityId|
            #![trigger scrolling_entities(workspaces).contains(e)]
            scrolling_entities(workspaces).contains(e) <==> exists|i: int|
                0 <= i < workspaces.len() && (#[trigger] workspaces[i]).scrolling
                    && workspaces[i].entity == e,
    decreases workspaces.len(),
{
    if workspaces.len() > 0 {
        let init = workspaces.drop_last();
        let n = workspaces.len() - 1;
        lemma_stops_exactly_scrolling_workspaces(init);
        let rest = scrolling_entities(init);
        assert forall|e: EntityId|
            #![trigger scrolling_entities(workspaces).contains(e)]
            scrolling_entities(workspaces).contains(e) <==> exists|i: int|
                0 <= i < workspaces.len() && (#[trigger] workspaces[i]).scrolling
                    && workspaces[i].entity == e by {
            if scrolling_entities(workspaces).contains(e) {
                if workspaces[n].scrolling && workspaces[n].entity == e {
                    assert(workspaces[n].scrolling && workspaces[n].entity == e);
                } else {
                    if workspaces.last().scrolling {
                        let k = choose|k: int| 0 <= k < rest.push(workspaces.last().entity).len()
                            && rest.push(workspaces.last().entity)[k] == e;
                        assert(k < rest.len());
                        assert(rest[k] == e);
                        assert(rest.contains(e));
                    }
                    assert(rest.contains(e));
                    let i = choose|i: int| 0 <= i < init.len() && (#[trigger] init[i]).scrolling
                        && init[i].entity == e;
                    assert(workspaces[i] == init[i]);
                }
            }
            if exists|i: int|
                0 <= i < workspaces.len() && (#[trigger] workspaces[i]).scrolling
                    && workspaces[i].entity == e {
                let i = choose|i: int|
                    0 <= i < workspaces.len() && (#[trigger] workspaces[i]).scrolling
                        && workspaces[i].entity == e;
                if i == n {
                    assert(scrolling_entities(workspaces) == rest.push(e));
                    assert(rest.push(e)[rest.len() as int] == e);
                } else {
                    assert(init[i] == workspaces[i]);
                    assert(rest.contains(e));
                    let k = choose|k: int| 0 <= k < rest.len() && rest[k] == e;
                    if workspaces.last().scrolling {
                        assert(rest.push(workspaces.last().entity)[k] == e);
                    }
                }
            }
        }
    }
}

proof fn lemma_scrolling_entities_is_filter(
    workspaces: Seq<Workspace>,
    pred: spec_fn(Workspace) -> bool,
    f: spec_fn(Workspace) -> EntityId,
)
    requires
        forall|w: Workspace| #[trigger] pred(w) == w.scrolling,
        forall|w: Workspace| #[trigger] f(w) == w.entity,
    ensures
        scrolling_entities(workspaces) == workspaces.filter(pred).map_values(f),
    decreases workspaces.len(),
{
    reveal(Seq::filter);
    if workspaces.len() > 0 {
        lemma_scrolling_entities_is_filter(workspaces.drop_last(), pred, f);
        let sub = workspaces.drop_last().filter(pred);
        if pred(workspaces.last()) {
            assert(sub.push(workspaces.last()).map_values(f) =~= sub.map_values(f).push(
                workspaces.last().entity,
            ));
        }
    } else {
        assert(workspaces.filter(pred).map_values(f) =~= Seq::<EntityId>::empty());
    }
}

/// What a mouse-down asks for, stated over the inputs alone: a plan exists
/// exactly when Mission Control is not shown and a tracked window has the
/// clicked identifier; the plan stops the scrolling workspaces among the
/// active ones, in order, despawns exactly the held markers' own entities, in
/// order, and holds the first tracked window with the clicked identifier when
/// the reshuffle is deferred, and nothing otherwise.
pub proof fn lemma_mouse_down_meaning(
    mission_control_active: bool,
    clicked: Option<WinId>,
    windows: Seq<WindowEntry>,
    workspaces: Seq<Workspace>,
    held: Seq<HeldMarker>,
    defer_reshuffle: bool,
)
    ensures
        ({
            let plan = mouse_down_plan(
                mission_control_active,
                clicked,
                windows,
                workspaces,
                held,
                defer_reshuffle,
            );
            &&& plan is Some <==> (!mission_control_active && clicked is Some && exists|k: int|
                0 <= k < windows.len() && (#[trigger] windows[k]).id == clicked->0)
            &&& plan matches Some(p) ==> {
                &&& p.despawn.len() == held.len()
                &&& forall|i: int| 0 <= i < held.len() ==> p.despawn[i] == (#[trigger] held[i]).marker
                &&& p.stop_scrolling == workspaces.filter(|w: Workspace| w.scrolling).map_values(
                    |w: Workspace| w.entity,
                )
                &&& forall|k: int|
                    0 <= k < windows.len() && (#[trigger] windows[k]).id == clicked->0 && (forall|
                        j: int,
                    |
                        0 <= j < k ==> (#[trigger] windows[j]).id != clicked->0) ==> p.hold == (
                    if defer_reshuffle {
                        Some(windows[k].entity)
                    } else {
                        None
                    })
            }
        }),
{
    if let Some(id) = clicked {
        lemma_entity_of_is_first_with_id(windows, id);
    }
    lemma_scrolling_entities_is_filter(
        workspaces,
        |w: Workspace| w.scrolling,
        |w: Workspace| w.entity,
    );
}

/// What a mouse-up asks for, stated over the held markers alone: one release
/// per held marker, in order, reshuffling around the marker's window and
/// despawning the marker itself.
pub proof fn lemma_mouse_up_meaning(held: Seq<HeldMarker>)
    ensures
        mouse_up_plan(held).len() == held.len(),
        forall|i: int|
            0 <= i < held.len() ==> (#[trigger] mouse_up_plan(held)[i]).reshuffle_around
                == held[i].target && mouse_up_plan(held)[i].despawn == held[i].marker,
{
}

} // verus!
