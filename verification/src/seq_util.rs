//! Small sequence facts shared by the sorting routines.

use vstd::prelude::*;

verus! {

/// Swapping two positions of a sequence leaves its multiset of elements
/// unchanged.
pub proof fn lemma_swap_multiset<A>(s: Seq<A>, i: int, j: int)
    requires
        0 <= i < j < s.len(),
    ensures
        s.update(i, s[j]).update(j, s[i]).to_multiset() == s.to_multiset(),
{
    broadcast use vstd::seq_lib::group_to_multiset_ensures;
    broadcast use vstd::multiset::group_multiset_axioms;

    let s1 = s.update(i, s[j]);
    let s2 = s1.update(j, s[i]);
    assert(s.contains(s[i]));
    assert(s1[j] == s[j]);
    assert(s1.contains(s1[j]));
    assert(s1.to_multiset() =~= s.to_multiset().remove(s[i]).insert(s[j]));
    assert(s2.to_multiset() =~= s1.to_multiset().remove(s[j]).insert(s[i]));
    assert(s2.to_multiset() =~= s.to_multiset());
}

/// Every element of a sequence with the same multiset as `s` is an element
/// of `s`.
pub proof fn lemma_multiset_eq_contains<A>(s: Seq<A>, t: Seq<A>)
    requires
        s.to_multiset() == t.to_multiset(),
    ensures
        forall|k: int| 0 <= k < t.len() ==> s.contains(#[trigger] t[k]),
{
    assert forall|k: int| 0 <= k < t.len() implies s.contains(#[trigger] t[k]) by {
        vstd::seq_lib::to_multiset_contains(t, t[k]);
        vstd::seq_lib::to_multiset_contains(s, t[k]);
        assert(t.contains(t[k]));
    }
}

} // verus!
