//! Sorting of raw identifiers, as `Vec::sort` does for `u64`.

use vstd::prelude::*;
use vstd::relations::sorted_by;

verus! {

broadcast use vstd::seq_lib::group_to_multiset_ensures;

/// The natural order on `u64`.
pub open spec fn le_u64(a: u64, b: u64) -> bool {
    a <= b
}

/// `s` in ascending order (the unique sorted permutation of `s`).
pub open spec fn sorted_u64(s: Seq<u64>) -> Seq<u64> {
    s.sort_by(|a: u64, b: u64| le_u64(a, b))
}

/// `le_u64` is a total order.
pub proof fn lemma_le_total()
    ensures
        vstd::relations::total_ordering(|a: u64, b: u64| le_u64(a, b)),
{
}

/// Whether `s` is in ascending order.
pub open spec fn ascending(s: Seq<u64>) -> bool {
    forall|i: int, j: int| 0 <= i < j < s.len() ==> s[i] <= s[j]
}

/// Any ascending permutation of `s` is `sorted_u64(s)`.
pub proof fn lemma_sorted_is_sorted_u64(s: Seq<u64>, r: Seq<u64>)
    requires
        ascending(r),
        r.to_multiset() == s.to_multiset(),
    ensures
        r == sorted_u64(s),
{
    lemma_le_total();
    assert(sorted_by(r, |a: u64, b: u64| le_u64(a, b)));
    s.lemma_sort_by_ensures(|a: u64, b: u64| le_u64(a, b));
    vstd::seq_lib::lemma_sorted_unique(r, sorted_u64(s), |a: u64, b: u64| le_u64(a, b));
}

/// Properties of `sorted_u64`.
pub proof fn lemma_sorted_u64_props(s: Seq<u64>)
    ensures
        sorted_by(sorted_u64(s), |a: u64, b: u64| le_u64(a, b)),
        sorted_u64(s).to_multiset() == s.to_multiset(),
        ascending(sorted_u64(s)),
        sorted_u64(s).len() == s.len(),
        forall|x: u64| s.contains(x) <==> sorted_u64(s).contains(x),
{
    lemma_le_total();
    s.lemma_sort_by_ensures(|a: u64, b: u64| le_u64(a, b));
    assert(sorted_u64(s).len() == sorted_u64(s).to_multiset().len());
    assert(s.len() == s.to_multiset().len());
    assert forall|i: int, j: int| 0 <= i < j < sorted_u64(s).len() implies sorted_u64(s)[i] <= sorted_u64(s)[j] by {
        assert((|a: u64, b: u64| le_u64(a, b))(sorted_u64(s)[i], sorted_u64(s)[j]));
    }
    assert forall|x: u64| s.contains(x) <==> sorted_u64(s).contains(x) by {
        assert(s.to_multiset().count(x) == sorted_u64(s).to_multiset().count(x));
    }
}

/// Returns `v` in ascending order.
pub fn sort_ids(v: &Vec<u64>) -> (r: Vec<u64>)
    ensures
        r@ == sorted_u64(v@),
{
    let mut r: Vec<u64> = Vec::new();
    let mut i: usize = 0;
    while i < v.len()
        invariant
            i <= v.len(),
            ascending(r@),
            r@.to_multiset() == v@.take(i as int).to_multiset(),
        decreases v.len() - i,
    {
        let x = v[i];
        let mut j: usize = 0;
        while j < r.len() && r[j] <= x
            invariant
                j <= r.len(),
                forall|k: int| 0 <= k < j ==> r@[k] <= x,
            decreases r.len() - j,
        {
            j = j + 1;
        }
        let ghost old_r = r@;
        r.insert(j, x);
        proof {
            old_r.insert_ensures(j as int, x);
            assert(r@.remove(j as int) =~= old_r);
            assert(r@[j as int] == x);
            assert(r@.to_multiset().remove(x) =~= old_r.to_multiset());
            assert(r@.to_multiset().count(x) > 0);
            assert(r@.to_multiset() =~= old_r.to_multiset().insert(x));
            assert(v@.take(i + 1) =~= v@.take(i as int).push(x));
            assert forall|a: int, b: int| 0 <= a < b < r@.len() implies r@[a] <= r@[b] by {
                if b < j {
                } else if b == j {
                } else if a < j {
                    assert(r@[b] == old_r[b - 1]);
                    assert(old_r[a] <= old_r[b - 1]);
                } else if a == j {
                    assert(r@[b] == old_r[b - 1]);
                    assert(!(old_r[j as int] <= x));
                    assert(old_r[j as int] <= old_r[b - 1]);
                } else {
                    assert(old_r[a - 1] <= old_r[b - 1]);
                }
            }
        }
        i = i + 1;
    }
    proof {
        assert(v@.take(v.len() as int) =~= v@);
        lemma_sorted_is_sorted_u64(v@, r@);
    }
    r
}

/// Whether `s` is in strictly ascending order (ascending, no repeats).
pub open spec fn strictly_ascending(s: Seq<u64>) -> bool {
    forall|i: int, j: int| 0 <= i < j < s.len() ==> s[i] < s[j]
}

/// Adds `x` to the strictly ascending `v` at its place, unless `v`
/// already holds it.
pub fn insert_unique(v: &mut Vec<u64>, x: u64)
    requires
        strictly_ascending(old(v)@),
    ensures
        strictly_ascending(final(v)@),
        forall|y: u64| final(v)@.contains(y) <==> (old(v)@.contains(y) || y == x),
{
    let mut j: usize = 0;
    while j < v.len() && v[j] < x
        invariant
            j <= v.len(),
            forall|k: int| 0 <= k < j ==> v@[k] < x,
        decreases v.len() - j,
    {
        j = j + 1;
    }
    if j < v.len() && v[j] == x {
        return;
    }
    let ghost old_v = v@;
    v.insert(j, x);
    proof {
        old_v.insert_ensures(j as int, x);
        assert forall|a: int, b: int| 0 <= a < b < v@.len() implies v@[a] < v@[b] by {
            if b < j {
            } else if b == j {
            } else if a < j {
                assert(v@[b] == old_v[b - 1]);
                assert(old_v[a] < x);
                assert(x < old_v[j as int] || j as int == b - 1 || old_v[j as int] <= old_v[b - 1]);
            } else if a == j {
                assert(v@[b] == old_v[b - 1]);
                assert(x < old_v[j as int]);
                assert(old_v[j as int] <= old_v[b - 1]);
            } else {
                assert(old_v[a - 1] < old_v[b - 1]);
            }
        }
        assert forall|y: u64| v@.contains(y) <==> (old_v.contains(y) || y == x) by {
            if v@.contains(y) {
                let p = choose|p: int| 0 <= p < v@.len() && v@[p] == y;
                if p < j {
                    assert(old_v[p] == y);
                } else if p > j {
                    assert(old_v[p - 1] == y);
                }
            }
            if old_v.contains(y) {
                let p = choose|p: int| 0 <= p < old_v.len() && old_v[p] == y;
                if p < j {
                    assert(v@[p] == y);
                } else {
                    assert(v@[p + 1] == y);
                }
            }
            if y == x {
                assert(v@[j as int] == x);
            }
        }
    }
}

} // verus!
