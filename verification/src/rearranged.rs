use vstd::prelude::*;
use vstd::seq_lib::lemma_multiset_commutative;

verus! {

/// A rearrangement inside a part of a range is a rearrangement of the range.
pub proof fn lemma_rearranged_within<A>(s1: Seq<A>, s2: Seq<A>, l: int, a: int, b: int, r: int)
    requires
        0 <= l <= a <= b <= r <= s1.len(),
        s1.len() == s2.len(),
        forall|k: int| 0 <= k < a || b <= k < s1.len() ==> s1[k] == s2[k],
        s1.subrange(a, b).to_multiset() == s2.subrange(a, b).to_multiset(),
    ensures
        s1.subrange(l, r).to_multiset() == s2.subrange(l, r).to_multiset(),
{
    assert(s1.subrange(l, r) =~= s1.subrange(l, a) + s1.subrange(a, b) + s1.subrange(b, r));
    assert(s2.subrange(l, r) =~= s2.subrange(l, a) + s2.subrange(a, b) + s2.subrange(b, r));
    assert(s1.subrange(l, a) =~= s2.subrange(l, a));
    assert(s1.subrange(b, r) =~= s2.subrange(b, r));
    lemma_multiset_commutative(s1.subrange(l, a), s1.subrange(a, b));
    lemma_multiset_commutative(s1.subrange(l, a) + s1.subrange(a, b), s1.subrange(b, r));
    lemma_multiset_commutative(s2.subrange(l, a), s2.subrange(a, b));
    lemma_multiset_commutative(s2.subrange(l, a) + s2.subrange(a, b), s2.subrange(b, r));
}

/// Two sequences with the same elements have the same elements after the
/// same function is applied to each.
pub proof fn lemma_map_rearranged<A, B>(s1: Seq<A>, s2: Seq<A>, f: spec_fn(A) -> B)
    requires
        s1.to_multiset() == s2.to_multiset(),
    ensures
        s1.map_values(f).to_multiset() == s2.map_values(f).to_multiset(),
    decreases s1.len(),
{
    broadcast use vstd::seq_lib::group_to_multiset_ensures;

    s1.to_multiset_ensures();
    s2.to_multiset_ensures();
    if s1.len() == 0 {
        assert(s1.map_values(f) =~= s2.map_values(f));
    } else {
        let x = s1.last();
        let n = s1.len() - 1;
        assert(s1.contains(x));
        assert(s1.to_multiset().count(x) > 0);
        assert(s2.to_multiset().count(x) > 0);
        assert(s2.contains(x));
        let j = choose|j: int| 0 <= j < s2.len() && s2[j] == x;
        assert(s1.remove(n) =~= s1.drop_last());
        lemma_map_rearranged(s1.drop_last(), s2.remove(j), f);
        assert(s1.map_values(f) =~= s1.drop_last().map_values(f).push(f(x)));
        assert(s2.map_values(f) =~= s2.remove(j).map_values(f).insert(j, f(x)));
    }
}

/// What is rearranged holds only what was there before: the element at `k`
/// of `s2` stands at the returned place of `s1`.
pub proof fn lemma_rearranged_from<A>(s1: Seq<A>, s2: Seq<A>, k: int) -> (j: int)
    requires
        s1.to_multiset() == s2.to_multiset(),
        0 <= k < s2.len(),
    ensures
        0 <= j < s1.len(),
        s1[j] == s2[k],
{
    s1.to_multiset_ensures();
    s2.to_multiset_ensures();
    assert(s2.contains(s2[k]));
    assert(s2.to_multiset().count(s2[k]) > 0);
    assert(s1.to_multiset().count(s2[k]) > 0);
    assert(s1.contains(s2[k]));
    choose|j: int| 0 <= j < s1.len() && s1[j] == s2[k]
}

} // verus!
