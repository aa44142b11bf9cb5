//! The first position in a sequence where a condition holds.
use vstd::prelude::*;

verus! {

/// The index of the first element of `s` that satisfies `p`.
pub open spec fn first_index<A>(s: Seq<A>, p: spec_fn(A) -> bool) -> Option<int> {
    if exists|i: int| 0 <= i < s.len() && p(#[trigger] s[i]) {
        Some(choose|i: int|
            0 <= i < s.len() && p(#[trigger] s[i]) && forall|j: int| 0 <= j < i ==> !p(#[trigger] s[j]))
    } else {
        None
    }
}

/// An element satisfying `p` with none before it is the first one.
pub proof fn lemma_first_index_is<A>(s: Seq<A>, p: spec_fn(A) -> bool, i: int)
    requires
        0 <= i < s.len(),
        p(s[i]),
        forall|j: int| 0 <= j < i ==> !p(#[trigger] s[j]),
    ensures
        first_index(s, p) == Some(i),
{
    let c = choose|k: int|
        0 <= k < s.len() && p(#[trigger] s[k]) && forall|j: int| 0 <= j < k ==> !p(#[trigger] s[j]);
    assert(0 <= c < s.len() && p(s[c]) && forall|j: int| 0 <= j < c ==> !p(#[trigger] s[j]));
    if c < i {
        assert(!p(s[c]));
    }
    if c > i {
        assert(!p(s[i]));
    }
}

} // verus!
