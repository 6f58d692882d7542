//! Generic sequence search used by the session and device registries.

use vstd::prelude::*;

verus! {

/// Index of the first element satisfying `p`, or `-1`.
pub open spec fn find_first<T>(ss: Seq<T>, p: spec_fn(T) -> bool) -> int
    decreases ss.len(),
{
    if ss.len() == 0 {
        -1
    } else if p(ss[0]) {
        0
    } else {
        let r = find_first(ss.drop_first(), p);
        if r < 0 {
            -1
        } else {
            r + 1
        }
    }
}

/// `find_first` returns either `-1` with no match anywhere, or the position
/// of the first match.
pub proof fn lemma_find_first<T>(ss: Seq<T>, p: spec_fn(T) -> bool)
    ensures
        find_first(ss, p) == -1 ==> (forall|j: int| 0 <= j < ss.len() ==> !p(#[trigger] ss[j])),
        find_first(ss, p) >= 0 ==> find_first(ss, p) < ss.len() && p(ss[find_first(ss, p)]) && (
        forall|j: int| 0 <= j < find_first(ss, p) ==> !p(#[trigger] ss[j])),
        find_first(ss, p) >= -1,
    decreases ss.len(),
{
    if ss.len() > 0 && !p(ss[0]) {
        lemma_find_first(ss.drop_first(), p);
        assert(forall|j: int| 1 <= j < ss.len() ==> #[trigger] ss[j] == ss.drop_first()[j - 1]);
    }
}

} // verus!
