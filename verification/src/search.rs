//! The first item of a sequence that something holds of.

use vstd::prelude::*;

verus! {

/// The place of the first item at or after `from` that `pred` holds of, or
/// the length of the sequence when there is none.
pub open spec fn place_from<T>(s: Seq<T>, pred: spec_fn(T) -> bool, from: int) -> int
    decreases s.len() - from,
{
    if from >= s.len() {
        s.len() as int
    } else if pred(s[from]) {
        from
    } else {
        place_from(s, pred, from + 1)
    }
}

/// The place of the first item that `pred` holds of, if there is one.
pub open spec fn place<T>(s: Seq<T>, pred: spec_fn(T) -> bool) -> Option<int> {
    let k = place_from(s, pred, 0);
    if k < s.len() {
        Some(k)
    } else {
        None
    }
}

/// What [`place_from`] finds: an item that `pred` holds of, with no other
/// before it.
pub proof fn lemma_place_from<T>(s: Seq<T>, pred: spec_fn(T) -> bool, from: int)
    requires
        0 <= from <= s.len(),
    ensures
        from <= place_from(s, pred, from) <= s.len(),
        place_from(s, pred, from) < s.len() ==> pred(s[place_from(s, pred, from)]),
        forall|i: int| from <= i < place_from(s, pred, from) ==> !pred(#[trigger] s[i]),
    decreases s.len() - from,
{
    if from < s.len() && !pred(s[from]) {
        lemma_place_from(s, pred, from + 1);
    }
}

/// The place `k` is the first that `pred` holds of when it holds there, or
/// `k` is the end, and it holds nowhere between `from` and it.
pub proof fn lemma_place_from_is<T>(s: Seq<T>, pred: spec_fn(T) -> bool, from: int, k: int)
    requires
        0 <= from <= k <= s.len(),
        k < s.len() ==> pred(s[k]),
        forall|i: int| from <= i < k ==> !pred(#[trigger] s[i]),
    ensures
        place_from(s, pred, from) == k,
    decreases k - from,
{
    if from < k {
        lemma_place_from_is(s, pred, from + 1, k);
    }
}

} // verus!
