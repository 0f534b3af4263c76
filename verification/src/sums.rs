//! Sums of per-item weights over a sequence, and their independence of the
//! order of the items.

use vstd::prelude::*;

verus! {

/// The sum of `w` over the items of `s`.
pub open spec fn weight_sum<A>(s: Seq<A>, w: spec_fn(A) -> nat) -> nat
    decreases s.len(),
{
    if s.len() == 0 {
        0
    } else {
        weight_sum(s.drop_last(), w) + w(s.last())
    }
}

/// Taking one item out of a sequence takes its weight out of the sum.
pub proof fn lemma_weight_sum_remove<A>(s: Seq<A>, w: spec_fn(A) -> nat, k: int)
    requires
        0 <= k < s.len(),
    ensures
        weight_sum(s, w) == weight_sum(s.remove(k), w) + w(s[k]),
    decreases s.len(),
{
    if k == s.len() - 1 {
        assert(s.remove(k) =~= s.drop_last());
    } else {
        let r = s.remove(k);
        assert(r.drop_last() =~= s.drop_last().remove(k));
        assert(r.last() == s.last());
        lemma_weight_sum_remove(s.drop_last(), w, k);
    }
}

/// Sequences with the same items, in whatever order, have the same sum.
pub proof fn lemma_weight_sum_reorder<A>(s1: Seq<A>, s2: Seq<A>, w: spec_fn(A) -> nat)
    requires
        s1.to_multiset() == s2.to_multiset(),
    ensures
        weight_sum(s1, w) == weight_sum(s2, w),
    decreases s1.len(),
{
    broadcast use vstd::seq_lib::group_to_multiset_ensures;
    broadcast use vstd::multiset::group_multiset_axioms;

    if s1.len() == 0 {
        assert(s2.len() == s2.to_multiset().len());
    } else {
        let x = s1.last();
        let rest = s1.drop_last();
        assert(rest.push(x) =~= s1);
        assert(s1.to_multiset() =~= rest.to_multiset().insert(x));
        assert(s1.to_multiset().count(x) > 0);
        assert(s2.contains(x));
        let k = choose|k: int| 0 <= k < s2.len() && s2[k] == x;
        assert(s2.remove(k).to_multiset() =~= s2.to_multiset().remove(x));
        assert(rest.to_multiset().insert(x).remove(x) =~= rest.to_multiset());
        lemma_weight_sum_reorder(rest, s2.remove(k), w);
        lemma_weight_sum_remove(s2, w, k);
    }
}

/// Sequences with the same items have the same items present.
pub proof fn lemma_reorder_contains<A>(s1: Seq<A>, s2: Seq<A>, a: A)
    requires
        s1.to_multiset() == s2.to_multiset(),
    ensures
        s1.contains(a) <==> s2.contains(a),
{
    broadcast use vstd::seq_lib::group_to_multiset_ensures;

    assert(s1.contains(a) <==> s1.to_multiset().count(a) > 0);
    assert(s2.contains(a) <==> s2.to_multiset().count(a) > 0);
}

} // verus!
