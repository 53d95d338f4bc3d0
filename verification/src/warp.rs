//! Warping the pointer between displays stacked on top of each other.
//!
//! When the pointer reaches the left or right edge of a display, it is moved
//! to the centre of the vertically nearest display above or below, as the
//! configured warp direction says.

use vstd::prelude::*;
use crate::geometry::{Point, Rect};
use crate::search::{first_where, is_first_where, lemma_first_where_is, lemma_first_where_none};

verus! {

/// How close (exclusive) the pointer must come to a display's left or right
/// edge for a warp to happen.
pub const EDGE_THRESHOLD: i32 = 3;

pub open spec fn abs(v: int) -> int {
    if v < 0 {
        -v
    } else {
        v
    }
}

/// The predicate "contains `p`" on displays.
pub open spec fn containing(p: Point) -> spec_fn(Rect) -> bool {
    |r: Rect| r.spec_contains(p)
}

/// Which edge of `cur` the point is at: `Some(true)` for the left edge,
/// `Some(false)` for the right one, `None` for neither. The left edge wins
/// when the point is near both.
pub open spec fn edge_of(cur: Rect, p: Point) -> Option<bool> {
    if abs(p.x - cur.min.x) < EDGE_THRESHOLD {
        Some(true)
    } else if abs(cur.max.x - p.x) < EDGE_THRESHOLD {
        Some(false)
    } else {
        None
    }
}

/// Display `d` lies in the warp direction seen from `cur`: with a positive
/// direction, the left edge leads to displays whose top lies lower on the
/// desktop (greater `min.y`) and the right edge to those whose top lies
/// higher; any other direction swaps the two.
pub open spec fn heads_toward(cur: Rect, d: Rect, left_edge: bool, direction: i32) -> bool {
    if left_edge == (direction > 0) {
        d.min.y > cur.min.y
    } else {
        d.min.y < cur.min.y
    }
}

/// The vertical distance between the tops of two displays.
pub open spec fn vertical_gap(cur: Rect, d: Rect) -> int {
    abs(d.min.y - cur.min.y)
}

/// `k` is, among the first `n` displays, a display in the warp direction at
/// the least vertical distance from `cur`, and the first such one.
pub open spec fn is_nearest_within(
    ds: Seq<Rect>,
    n: int,
    cur: Rect,
    left_edge: bool,
    direction: i32,
    k: int,
) -> bool {
    &&& 0 <= k < n <= ds.len()
    &&& heads_toward(cur, ds[k], left_edge, direction)
    &&& forall|j: int|
        0 <= j < n && heads_toward(cur, #[trigger] ds[j], left_edge, direction) ==> vertical_gap(
            cur,
            ds[k],
        ) <= vertical_gap(cur, ds[j])
    &&& forall|j: int|
        0 <= j < k && heads_toward(cur, #[trigger] ds[j], left_edge, direction) ==> vertical_gap(
            cur,
            ds[k],
        ) < vertical_gap(cur, ds[j])
}

pub open spec fn is_nearest(ds: Seq<Rect>, cur: Rect, left_edge: bool, direction: i32, k: int) -> bool {
    is_nearest_within(ds, ds.len() as int, cur, left_edge, direction, k)
}

/// The nearest display in the warp direction, if any lies in that direction.
pub open spec fn nearest_toward(ds: Seq<Rect>, cur: Rect, left_edge: bool, direction: i32) -> Option<int> {
    if exists|k: int| is_nearest(ds, cur, left_edge, direction, k) {
        Some(choose|k: int| is_nearest(ds, cur, left_edge, direction, k))
    } else {
        None
    }
}

/// The index of the display that the pointer at `p` is warped to: none
/// without a warp direction, with fewer than two displays, when no display
/// contains `p`, when `p` is at neither horizontal edge of the first display
/// that contains it, or when no display lies in the warp direction;
/// otherwise the nearest display in that direction (see `is_nearest`).
pub open spec fn warp_target(ds: Seq<Rect>, p: Point, direction: Option<i32>) -> Option<int> {
    match direction {
        None => None,
        Some(dir) => {
            if ds.len() < 2 {
                None
            } else {
                match first_where(ds, containing(p)) {
                    None => None,
                    Some(c) => match edge_of(ds[c], p) {
                        None => None,
                        Some(left) => nearest_toward(ds, ds[c], left, dir),
                    },
                }
            }
        },
    }
}

/// The point the pointer is warped to: the centre of the target display.
pub open spec fn warp_point(ds: Seq<Rect>, p: Point, direction: Option<i32>) -> Option<Point> {
    match warp_target(ds, p, direction) {
        Some(k) => Some(ds[k].spec_center()),
        None => None,
    }
}

/// At most one display is the nearest in the warp direction.
pub proof fn lemma_nearest_unique(
    ds: Seq<Rect>,
    n: int,
    cur: Rect,
    left_edge: bool,
    direction: i32,
    a: int,
    b: int,
)
    requires
        is_nearest_within(ds, n, cur, left_edge, direction, a),
        is_nearest_within(ds, n, cur, left_edge, direction, b),
    ensures
        a == b,
{
    assert(heads_toward(cur, ds[a], left_edge, direction));
    assert(heads_toward(cur, ds[b], left_edge, direction));
}

fn abs_i64(v: i64) -> (r: i64)
    requires
        v > i64::MIN,
    ensures
        r == abs(v as int),
{
    if v < 0 {
        -v
    } else {
        v
    }
}

fn first_containing(displays: &Vec<Rect>, p: Point) -> (res: Option<usize>)
    ensures
        match res {
            Some(c) => is_first_where(displays@, containing(p), c as int),
            None => first_where(displays@, containing(p)) is None,
        },
{
    let n = displays.len();
    let mut i: usize = 0;
    while i < n
        invariant
            n == displays@.len(),
            i <= n,
            forall|j: int| 0 <= j < i ==> !containing(p)(#[trigger] displays@[j]),
        decreases n - i,
    {
        if displays[i].contains(p) {
            return Some(i);
        }
        i += 1;
    }
    proof {
        lemma_first_where_none(displays@, containing(p));
    }
    None
}

/// The index of the display the pointer at `point` is warped to, if any
/// (`warp_target`). `displays` is in the order the window manager lists them.
/// Distances are computed in 64-bit arithmetic, so they are exact for every
/// pair of 32-bit coordinates.
pub fn warp_target_index(displays: &Vec<Rect>, point: Point, direction: Option<i32>) -> (res: Option<usize>)
    ensures
        match res {
            Some(k) => warp_target(displays@, point, direction) == Some(k as int),
            None => warp_target(displays@, point, direction) is None,
        },
{
    let dir = match direction {
        None => return None,
        Some(d) => d,
    };
    if displays.len() < 2 {
        return None;
    }
    let c = match first_containing(displays, point) {
        None => return None,
        Some(c) => c,
    };
    proof {
        lemma_first_where_is(displays@, containing(point), c as int);
    }
    let cur = displays[c];
    let left: bool = if abs_i64(point.x as i64 - cur.min.x as i64) < EDGE_THRESHOLD as i64 {
        true
    } else if abs_i64(cur.max.x as i64 - point.x as i64) < EDGE_THRESHOLD as i64 {
        false
    } else {
        return None;
    };
    assert(edge_of(cur, point) == Some(left));
    let n = displays.len();
    let mut best: Option<usize> = None;
    let mut best_gap: i64 = 0;
    let mut i: usize = 0;
    while i < n
        invariant
            n == displays@.len(),
            i <= n,
            n >= 2,
            c < n,
            direction == Some(dir),
            first_where(displays@, containing(point)) == Some(c as int),
            cur == displays@[c as int],
            edge_of(cur, point) == Some(left),
            match best {
                Some(k) => is_nearest_within(displays@, i as int, cur, left, dir, k as int)
                    && best_gap == vertical_gap(cur, displays@[k as int]),
                None => forall|j: int|
                    0 <= j < i ==> !heads_toward(cur, #[trigger] displays@[j], left, dir),
            },
        decreases n - i,
    {
        let d = displays[i];
        let toward: bool = if left == (dir > 0) {
            d.min.y > cur.min.y
        } else {
            d.min.y < cur.min.y
        };
        if toward {
            let gap = abs_i64(d.min.y as i64 - cur.min.y as i64);
            match best {
                None => {
                    best = Some(i);
                    best_gap = gap;
                },
                Some(k) => {
                    if gap < best_gap {
                        best = Some(i);
                        best_gap = gap;
                    }
                },
            }
        }
        i += 1;
    }
    match best {
        None => {
            assert forall|k: int| !is_nearest(displays@, cur, left, dir, k) by {
                if is_nearest(displays@, cur, left, dir, k) {
                    assert(heads_toward(cur, displays@[k], left, dir));
                }
            }
            None
        },
        Some(k) => {
            proof {
                assert(is_nearest(displays@, cur, left, dir, k as int));
                let w = choose|w: int| is_nearest(displays@, cur, left, dir, w);
                lemma_nearest_unique(displays@, n as int, cur, left, dir, w, k as int);
            }
            Some(k)
        },
    }
}

/// The point the pointer at `point` is warped to, if any: the centre of the
/// display that `warp_target_index` picks.
pub fn horizontal_warp_point(displays: &Vec<Rect>, point: Point, direction: Option<i32>) -> (res: Option<Point>)
    ensures
        res == warp_point(displays@, point, direction),
{
    match warp_target_index(displays, point, direction) {
        Some(k) => Some(displays[k].center()),
        None => None,
    }
}

/// The display the pointer is warped to is the one at the least vertical
/// distance among the displays in the warp direction; of several at that
/// distance, the first listed.
pub proof fn lemma_warp_target_is_nearest(ds: Seq<Rect>, p: Point, direction: Option<i32>)
    ensures
        warp_target(ds, p, direction) matches Some(k) ==> {
            &&& direction matches Some(dir)
            &&& first_where(ds, containing(p)) matches Some(c)
            &&& edge_of(ds[c], p) matches Some(left)
            &&& heads_toward(ds[c], ds[k], left, dir)
            &&& forall|j: int|
                0 <= j < ds.len() && heads_toward(ds[c], #[trigger] ds[j], left, dir)
                    ==> vertical_gap(ds[c], ds[k]) <= vertical_gap(ds[c], ds[j])
            &&& forall|j: int|
                0 <= j < k && heads_toward(ds[c], #[trigger] ds[j], left, dir)
                    ==> vertical_gap(ds[c], ds[k]) < vertical_gap(ds[c], ds[j])
        },
{
    if let Some(k) = warp_target(ds, p, direction) {
        let dir = direction->0;
        let c = first_where(ds, containing(p))->0;
        let left = edge_of(ds[c], p)->0;
        assert(is_nearest(ds, ds[c], left, dir, k));
    }
}

/// The pointer is never warped within the display it is on: the target is
/// another display, whose top lies higher or lower on the desktop.
pub proof fn lemma_warp_leaves_current_display(ds: Seq<Rect>, p: Point, direction: Option<i32>)
    ensures
        warp_target(ds, p, direction) matches Some(k) ==> {
            &&& first_where(ds, containing(p)) matches Some(c)
            &&& k != c
            &&& ds[k].min.y != ds[c].min.y
        },
{
    lemma_warp_target_is_nearest(ds, p, direction);
}

/// Without a warp direction, with a single display, or away from the left and
/// right edges of the display under the pointer, the pointer is not warped.
pub proof fn lemma_warp_only_at_edges(ds: Seq<Rect>, p: Point, direction: Option<i32>)
    ensures
        direction is None ==> warp_target(ds, p, direction) is None,
        ds.len() < 2 ==> warp_target(ds, p, direction) is None,
        (first_where(ds, containing(p)) matches Some(c) && abs(p.x - ds[c].min.x) >= EDGE_THRESHOLD
            && abs(ds[c].max.x - p.x) >= EDGE_THRESHOLD) ==> warp_target(ds, p, direction) is None,
{
}

/// When every display's corners are ordered, the pointer lands inside the
/// display it is warped to.
pub proof fn lemma_warp_point_inside_target(ds: Seq<Rect>, p: Point, direction: Option<i32>)
    requires
        forall|i: int| 0 <= i < ds.len() ==> (#[trigger] ds[i]).is_normalized(),
    ensures
        warp_target(ds, p, direction) matches Some(k) ==> ds[k].spec_contains(
            warp_point(ds, p, direction)->0,
        ),
{
    if let Some(k) = warp_target(ds, p, direction) {
        lemma_warp_target_is_nearest(ds, p, direction);
        crate::geometry::lemma_center_inside(ds[k]);
    }
}

/// Among the first `n` displays, one in the warp direction is the nearest,
/// as soon as any display there lies in the warp direction.
proof fn lemma_nearest_exists(
    ds: Seq<Rect>,
    n: int,
    cur: Rect,
    left_edge: bool,
    direction: i32,
    j: int,
) -> (k: int)
    requires
        0 <= j < n <= ds.len(),
        heads_toward(cur, ds[j], left_edge, direction),
    ensures
        is_nearest_within(ds, n, cur, left_edge, direction, k),
    decreases n,
{
    let last = n - 1;
    if exists|i: int| 0 <= i < last && heads_toward(cur, #[trigger] ds[i], left_edge, direction) {
        let i = choose|i: int| 0 <= i < last && heads_toward(cur, #[trigger] ds[i], left_edge, direction);
        let k0 = lemma_nearest_exists(ds, last, cur, left_edge, direction, i);
        if heads_toward(cur, ds[last], left_edge, direction) && vertical_gap(cur, ds[last])
            < vertical_gap(cur, ds[k0]) {
            last
        } else {
            k0
        }
    } else {
        last
    }
}

/// Whenever the pointer is at the left or right edge of the display it is on
/// and some display lies in the warp direction, the pointer is warped.
pub proof fn lemma_warp_when_display_in_direction(
    ds: Seq<Rect>,
    p: Point,
    direction: i32,
    j: int,
)
    requires
        ds.len() >= 2,
        first_where(ds, containing(p)) is Some,
        edge_of(ds[first_where(ds, containing(p))->0], p) is Some,
        0 <= j < ds.len(),
        heads_toward(
            ds[first_where(ds, containing(p))->0],
            ds[j],
            edge_of(ds[first_where(ds, containing(p))->0], p)->0,
            direction,
        ),
    ensures
        warp_target(ds, p, Some(direction)) is Some,
{
    let c = first_where(ds, containing(p))->0;
    let left = edge_of(ds[c], p)->0;
    let k = lemma_nearest_exists(ds, ds.len() as int, ds[c], left, direction, j);
    assert(is_nearest(ds, ds[c], left, direction, k));
}

/// The display under the pointer, stated over coordinates: `c` is the first
/// display whose rectangle, edges included, holds `p`.
pub open spec fn is_first_under(ds: Seq<Rect>, p: Point, c: int) -> bool {
    &&& 0 <= c < ds.len()
    &&& ds[c].min.x <= p.x <= ds[c].max.x && ds[c].min.y <= p.y <= ds[c].max.y
    &&& forall|j: int|
        0 <= j < c ==> !((#[trigger] ds[j]).min.x <= p.x <= ds[j].max.x && ds[j].min.y <= p.y
            <= ds[j].max.y)
}

proof fn lemma_first_under_is_current(ds: Seq<Rect>, p: Point, c: int)
    requires
        is_first_under(ds, p, c),
    ensures
        first_where(ds, containing(p)) == Some(c),
{
    assert forall|j: int| 0 <= j < c implies !containing(p)(#[trigger] ds[j]) by {
        assert(!(ds[j].min.x <= p.x <= ds[j].max.x && ds[j].min.y <= p.y <= ds[j].max.y));
    }
    lemma_first_where_is(ds, containing(p), c);
}

/// What the warp does, stated over coordinates. Let `c` be the display under
/// the pointer, with at least two displays and a direction `dir`, and let the
/// pointer be within 3 units of its left edge (`left`), or else of its right
/// edge. A display `j` lies in the warp direction exactly when its top
/// `min.y` is greater than that of `c` (left edge with `dir > 0`, or right
/// edge with `dir <= 0`) or smaller (the other two cases), whatever its `x`
/// position. Then the pointer is warped if and only if some display lies in
/// the warp direction, and the display `k` it goes to lies in that direction,
/// is at the least `|ds[k].min.y - ds[c].min.y|` among them, and every display
/// listed before `k` in that direction is strictly farther.
pub proof fn lemma_warp_target_meaning(ds: Seq<Rect>, p: Point, dir: i32, c: int, left: bool)
    requires
        ds.len() >= 2,
        is_first_under(ds, p, c),
        left <==> (-3 < p.x - ds[c].min.x < 3),
        left || (-3 < ds[c].max.x - p.x < 3),
    ensures
        (exists|j: int|
            0 <= j < ds.len() && (if left == (dir > 0) {
                (#[trigger] ds[j]).min.y > ds[c].min.y
            } else {
                ds[j].min.y < ds[c].min.y
            })) <==> warp_target(ds, p, Some(dir)) is Some,
        warp_target(ds, p, Some(dir)) matches Some(k) ==> {
            &&& 0 <= k < ds.len()
            &&& if left == (dir > 0) {
                ds[k].min.y > ds[c].min.y
            } else {
                ds[k].min.y < ds[c].min.y
            }
            &&& forall|j: int|
                0 <= j < ds.len() && (if left == (dir > 0) {
                    (#[trigger] ds[j]).min.y > ds[c].min.y
                } else {
                    ds[j].min.y < ds[c].min.y
                }) ==> {
                    let dk = ds[k].min.y - ds[c].min.y;
                    let dj = ds[j].min.y - ds[c].min.y;
                    (if dk < 0 {
                        -dk
                    } else {
                        dk
                    }) <= (if dj < 0 {
                        -dj
                    } else {
                        dj
                    })
                }
            &&& forall|j: int|
                0 <= j < k && (if left == (dir > 0) {
                    (#[trigger] ds[j]).min.y > ds[c].min.y
                } else {
                    ds[j].min.y < ds[c].min.y
                }) ==> {
                    let dk = ds[k].min.y - ds[c].min.y;
                    let dj = ds[j].min.y - ds[c].min.y;
                    (if dk < 0 {
                        -dk
                    } else {
                        dk
                    }) < (if dj < 0 {
                        -dj
                    } else {
                        dj
                    })
                }
        },
{
    lemma_first_under_is_current(ds, p, c);
    assert(edge_of(ds[c], p) == Some(left));
    if exists|j: int|
        0 <= j < ds.len() && (if left == (dir > 0) {
            (#[trigger] ds[j]).min.y > ds[c].min.y
        } else {
            ds[j].min.y < ds[c].min.y
        }) {
        let j = choose|j: int|
            0 <= j < ds.len() && (if left == (dir > 0) {
                (#[trigger] ds[j]).min.y > ds[c].min.y
            } else {
                ds[j].min.y < ds[c].min.y
            });
        assert(heads_toward(ds[c], ds[j], left, dir));
        lemma_warp_when_display_in_direction(ds, p, dir, j);
    }
    lemma_warp_target_is_nearest(ds, p, Some(dir));
    if let Some(k) = warp_target(ds, p, Some(dir)) {
        assert(heads_toward(ds[c], ds[k], left, dir));
        assert forall|j: int|
            0 <= j < ds.len() && (if left == (dir > 0) {
                (#[trigger] ds[j]).min.y > ds[c].min.y
            } else {
                ds[j].min.y < ds[c].min.y
            }) implies {
            let dk = ds[k].min.y - ds[c].min.y;
            let dj = ds[j].min.y - ds[c].min.y;
            (if dk < 0 {
                -dk
            } else {
                dk
            }) <= (if dj < 0 {
                -dj
            } else {
                dj
            })
        } by {
            assert(heads_toward(ds[c], ds[j], left, dir));
        }
        assert forall|j: int|
            0 <= j < k && (if left == (dir > 0) {
                (#[trigger] ds[j]).min.y > ds[c].min.y
            } else {
                ds[j].min.y < ds[c].min.y
            }) implies {
            let dk = ds[k].min.y - ds[c].min.y;
            let dj = ds[j].min.y - ds[c].min.y;
            (if dk < 0 {
                -dk
            } else {
                dk
            }) < (if dj < 0 {
                -dj
            } else {
                dj
            })
        } by {
            assert(heads_toward(ds[c], ds[j], left, dir));
        }
    }
}

/// When the pointer is not warped, stated over coordinates: without a
/// direction, with fewer than two displays, when no display holds the
/// pointer, or when the pointer is 3 units or more from both horizontal
/// edges of the display under it.
pub proof fn lemma_warp_absent_meaning(ds: Seq<Rect>, p: Point, direction: Option<i32>, c: int)
    ensures
        direction is None ==> warp_target(ds, p, direction) is None,
        ds.len() < 2 ==> warp_target(ds, p, direction) is None,
        (forall|j: int|
            0 <= j < ds.len() ==> !((#[trigger] ds[j]).min.x <= p.x <= ds[j].max.x && ds[j].min.y
                <= p.y <= ds[j].max.y)) ==> warp_target(ds, p, direction) is None,
        (is_first_under(ds, p, c) && !(-3 < p.x - ds[c].min.x < 3) && !(-3 < ds[c].max.x - p.x
            < 3)) ==> warp_target(ds, p, direction) is None,
{
    if forall|j: int|
        0 <= j < ds.len() ==> !((#[trigger] ds[j]).min.x <= p.x <= ds[j].max.x && ds[j].min.y
            <= p.y <= ds[j].max.y) {
        assert forall|j: int| 0 <= j < ds.len() implies !containing(p)(#[trigger] ds[j]) by {
            assert(!(ds[j].min.x <= p.x <= ds[j].max.x && ds[j].min.y <= p.y <= ds[j].max.y));
        }
        lemma_first_where_none(ds, containing(p));
    }
    if is_first_under(ds, p, c) {
        lemma_first_under_is_current(ds, p, c);
    }
}

/// The warp point, stated over coordinates: it is the target display's
/// centre, each coordinate the sum of the two corners' coordinates halved
/// and rounded toward zero.
pub proof fn lemma_warp_point_meaning(ds: Seq<Rect>, p: Point, direction: Option<i32>)
    ensures
        warp_point(ds, p, direction) is Some <==> warp_target(ds, p, direction) is Some,
        warp_point(ds, p, direction) matches Some(q) ==> {
            let k = warp_target(ds, p, direction)->0;
            let sx = ds[k].min.x + ds[k].max.x;
            let sy = ds[k].min.y + ds[k].max.y;
            &&& sx >= 0 ==> 2 * q.x <= sx <= 2 * q.x + 1
            &&& sx < 0 ==> 2 * q.x - 1 <= sx <= 2 * q.x
            &&& sy >= 0 ==> 2 * q.y <= sy <= 2 * q.y + 1
            &&& sy < 0 ==> 2 * q.y - 1 <= sy <= 2 * q.y
        },
{
    if let Some(k) = warp_target(ds, p, direction) {
        crate::geometry::lemma_center_halves_corners(ds[k]);
    }
}

} // verus!
