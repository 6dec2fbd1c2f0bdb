use vstd::prelude::*;
use vstd::relations::{sorted_by, total_ordering};
use vstd::seq_lib::lemma_sorted_unique;

verus! {

broadcast use vstd::seq_lib::group_to_multiset_ensures, vstd::multiset::group_multiset_axioms;

/// The ascending order on fixed-point values.
pub open spec fn ascending(a: i64, b: i64) -> bool {
    a <= b
}

/// The values of `s` in ascending order.
pub open spec fn sorted_seq(s: Seq<i64>) -> Seq<i64> {
    s.sort_by(|a: i64, b: i64| ascending(a, b))
}

/// The ascending sequence with the same values as `s` is `sorted_seq(s)`.
pub proof fn lemma_sorted_seq_unique(s: Seq<i64>, t: Seq<i64>)
    requires
        sorted_by(t, |a: i64, b: i64| ascending(a, b)),
        t.to_multiset() == s.to_multiset(),
    ensures
        t == sorted_seq(s),
{
    let leq = |a: i64, b: i64| ascending(a, b);
    s.lemma_sort_by_ensures(leq);
    assert(total_ordering(leq));
    lemma_sorted_unique(t, sorted_seq(s), leq);
}

/// `sorted_seq(s)` is ascending and holds the values of `s`.
pub proof fn lemma_sorted_seq(s: Seq<i64>)
    ensures
        sorted_seq(s).len() == s.len(),
        sorted_seq(s).to_multiset() == s.to_multiset(),
        forall|i: int, j: int|
            0 <= i <= j < s.len() ==> #[trigger] sorted_seq(s)[i] <= #[trigger] sorted_seq(s)[j],
{
    let leq = |a: i64, b: i64| ascending(a, b);
    s.lemma_sort_by_ensures(leq);
    s.to_multiset_ensures();
    sorted_seq(s).to_multiset_ensures();
    assert forall|i: int, j: int| 0 <= i <= j < s.len() implies #[trigger] sorted_seq(s)[i]
        <= #[trigger] sorted_seq(s)[j] by {
        if i < j {
            assert(leq(sorted_seq(s)[i], sorted_seq(s)[j]));
        }
    }
}

/// Every value of `sorted_seq(s)` is a value of `s`.
pub proof fn lemma_sorted_seq_members(s: Seq<i64>)
    ensures
        sorted_seq(s).len() == s.len(),
        forall|i: int| 0 <= i < s.len() ==> s.contains(#[trigger] sorted_seq(s)[i]),
{
    lemma_sorted_seq(s);
    assert forall|i: int| 0 <= i < s.len() implies s.contains(#[trigger] sorted_seq(s)[i]) by {
        let x = sorted_seq(s)[i];
        assert(sorted_seq(s).contains(x));
        assert(sorted_seq(s).to_multiset().count(x) > 0);
        assert(s.to_multiset().count(x) > 0);
    }
}

/// Sorts `v` ascending in place (insertion sort; equal values are never swapped).
pub fn sort_ascending(v: &mut Vec<i64>)
    ensures
        final(v)@ == sorted_seq(old(v)@),
{
    let n = v.len();
    let mut i: usize = 0;
    while i < n
        invariant
            n == v.len(),
            i <= n,
            v@.to_multiset() == old(v)@.to_multiset(),
            forall|a: int, b: int| 0 <= a < b < i ==> v[a] <= v[b],
        decreases n - i,
    {
        let mut j: usize = i;
        while j > 0 && v[j - 1] > v[j]
            invariant
                n == v.len(),
                j <= i < n,
                v@.to_multiset() == old(v)@.to_multiset(),
                forall|a: int, b: int| 0 <= a < b <= i && a != j && b != j ==> v[a] <= v[b],
                forall|b: int| j < b <= i ==> v[j as int] < v[b],
            decreases j,
        {
            let lo = v[j - 1];
            let hi = v[j];
            let ghost before = v@;
            v.set(j - 1, hi);
            proof {
                assert(before.update(j - 1, hi).to_multiset() == before.to_multiset().insert(
                    hi,
                ).remove(lo));
            }
            let ghost mid = v@;
            v.set(j, lo);
            proof {
                assert(mid.update(j as int, lo).to_multiset() == mid.to_multiset().insert(
                    lo,
                ).remove(hi));
                assert(v@.to_multiset() =~= before.to_multiset());
            }
            j = j - 1;
        }
        i = i + 1;
    }
    proof {
        assert(sorted_by(v@, |a: i64, b: i64| ascending(a, b)));
        lemma_sorted_seq_unique(old(v)@, v@);
    }
}

} // verus!
