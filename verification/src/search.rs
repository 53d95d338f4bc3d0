//! The first element of a sequence that satisfies a predicate.

use vstd::prelude::*;

verus! {

/// `k` is the index of the first element of `s` that satisfies `pred`.
pub open spec fn is_first_where<T>(s: Seq<T>, pred: spec_fn(T) -> bool, k: int) -> bool {
    &&& 0 <= k < s.len()
    &&& pred(s[k])
    &&& forall|j: int| 0 <= j < k ==> !pred(#[trigger] s[j])
}

/// The index of the first element of `s` that satisfies `pred`, if any does.
pub open spec fn first_where<T>(s: Seq<T>, pred: spec_fn(T) -> bool) -> Option<int> {
    if exists|k: int| is_first_where(s, pred, k) {
        Some(choose|k: int| is_first_where(s, pred, k))
    } else {
        None
    }
}

/// At most one index is the first that satisfies a predicate.
pub proof fn lemma_first_where_unique<T>(s: Seq<T>, pred: spec_fn(T) -> bool, a: int, b: int)
    requires
        is_first_where(s, pred, a),
        is_first_where(s, pred, b),
    ensures
        a == b,
{
    if a < b {
        assert(!pred(s[a]));
    } else if b < a {
        assert(!pred(s[b]));
    }
}

/// The first satisfying index found by a scan is the one `first_where` names.
pub proof fn lemma_first_where_is<T>(s: Seq<T>, pred: spec_fn(T) -> bool, k: int)
    requires
        is_first_where(s, pred, k),
    ensures
        first_where(s, pred) == Some(k),
{
    let c = choose|c: int| is_first_where(s, pred, c);
    lemma_first_where_unique(s, pred, c, k);
}

/// When no element satisfies the predicate there is no first one.
pub proof fn lemma_first_where_none<T>(s: Seq<T>, pred: spec_fn(T) -> bool)
    requires
        forall|j: int| 0 <= j < s.len() ==> !pred(#[trigger] s[j]),
    ensures
        first_where(s, pred) is None,
{
}

/// When some element satisfies the predicate, a first one exists, no later
/// than that element.
pub proof fn lemma_first_where_exists<T>(s: Seq<T>, pred: spec_fn(T) -> bool, k: int)
    requires
        0 <= k < s.len(),
        pred(s[k]),
    ensures
        first_where(s, pred) matches Some(f) && is_first_where(s, pred, f) && f <= k,
    decreases k,
{
    if exists|j: int| 0 <= j < k && pred(#[trigger] s[j]) {
        let j = choose|j: int| 0 <= j < k && pred(#[trigger] s[j]);
        lemma_first_where_exists(s, pred, j);
    } else {
        lemma_first_where_is(s, pred, k);
    }
}

} // verus!
