//! The windows the manager tracks, and lookup of a window by its identifier.

use vstd::prelude::*;
use crate::search::{
    first_where, is_first_where, lemma_first_where_exists, lemma_first_where_is,
    lemma_first_where_none,
};

verus! {

/// A window identifier as the window server assigns it.
pub type WinId = i32;

/// An entity of the window manager's world (a window, a workspace, a marker).
pub type EntityId = u64;

/// A display identifier as the window server assigns it.
pub type DisplayId = u32;

/// A tracked window: its window-server identifier and the entity standing for it.
#[derive(Clone, Copy, Debug, PartialEq, Eq, Structural)]
pub struct WindowEntry {
    pub id: WinId,
    pub entity: EntityId,
}

/// The predicate "has identifier `id`" on windows.
pub open spec fn has_id(id: WinId) -> spec_fn(WindowEntry) -> bool {
    |w: WindowEntry| w.id == id
}

/// The entity of the first tracked window with identifier `id`, if any.
pub open spec fn entity_of(windows: Seq<WindowEntry>, id: WinId) -> Option<EntityId> {
    match first_where(windows, has_id(id)) {
        Some(k) => Some(windows[k].entity),
        None => None,
    }
}

/// The entity of the first tracked window with identifier `id`, if any.
pub fn find_window(windows: &Vec<WindowEntry>, id: WinId) -> (res: Option<EntityId>)
    ensures
        res == entity_of(windows@, id),
        res matches Some(e) ==> exists|k: int|
            0 <= k < windows@.len() && (#[trigger] windows@[k]).id == id && windows@[k].entity == e
                && forall|j: int| 0 <= j < k ==> (#[trigger] windows@[j]).id != id,
        res is None ==> forall|k: int| 0 <= k < windows@.len() ==> (#[trigger] windows@[k]).id != id,
{
    let n = windows.len();
    let mut i: usize = 0;
    while i < n
        invariant
            n == windows@.len(),
            i <= n,
            forall|j: int| 0 <= j < i ==> !has_id(id)(#[trigger] windows@[j]),
        decreases n - i,
    {
        if windows[i].id == id {
            proof {
                assert(is_first_where(windows@, has_id(id), i as int));
                lemma_first_where_is(windows@, has_id(id), i as int);
                assert forall|j: int| 0 <= j < i implies (#[trigger] windows@[j]).id != id by {
                    assert(!has_id(id)(windows@[j]));
                }
            }
            return Some(windows[i].entity);
        }
        i += 1;
    }
    proof {
        lemma_first_where_none(windows@, has_id(id));
        assert forall|k: int| 0 <= k < windows@.len() implies (#[trigger] windows@[k]).id != id by {
            assert(!has_id(id)(windows@[k]));
        }
    }
    None
}

/// Looking a window up by identifier gives the entity of the first tracked
/// window whose identifier is `id`, and nothing when no tracked window has it.
pub proof fn lemma_entity_of_is_first_with_id(windows: Seq<WindowEntry>, id: WinId)
    ensures
        entity_of(windows, id) matches Some(e) ==> exists|k: int|
            0 <= k < windows.len() && (#[trigger] windows[k]).id == id && windows[k].entity == e
                && forall|j: int| 0 <= j < k ==> (#[trigger] windows[j]).id != id,
        entity_of(windows, id) is None <==> forall|k: int|
            0 <= k < windows.len() ==> (#[trigger] windows[k]).id != id,
        forall|k: int|
            0 <= k < windows.len() && (#[trigger] windows[k]).id == id && (forall|j: int|
                0 <= j < k ==> (#[trigger] windows[j]).id != id) ==> entity_of(windows, id) == Some(
                windows[k].entity,
            ),
{
    assert forall|k: int|
        0 <= k < windows.len() && (#[trigger] windows[k]).id == id && (forall|j: int|
            0 <= j < k ==> (#[trigger] windows[j]).id != id) implies entity_of(windows, id) == Some(
        windows[k].entity,
    ) by {
        assert forall|j: int| 0 <= j < k implies !has_id(id)(#[trigger] windows[j]) by {
            assert(windows[j].id != id);
        }
        lemma_first_where_is(windows, has_id(id), k);
    }
    if entity_of(windows, id) is Some {
        let k = first_where(windows, has_id(id))->0;
        assert(is_first_where(windows, has_id(id), k));
        assert forall|j: int| 0 <= j < k implies (#[trigger] windows[j]).id != id by {
            assert(!has_id(id)(windows[j]));
        }
        assert(windows[k].id == id);
    }
    assert forall|k: int| 0 <= k < windows.len() && (#[trigger] windows[k]).id == id
        implies entity_of(windows, id) is Some by {
        lemma_first_where_exists(windows, has_id(id), k);
    }
    if forall|k: int| 0 <= k < windows.len() ==> (#[trigger] windows[k]).id != id {
        assert forall|j: int| 0 <= j < windows.len() implies !has_id(id)(#[trigger] windows[j]) by {
            assert(windows[j].id != id);
        }
        lemma_first_where_none(windows, has_id(id));
    }
}
} // verus!
