//! Stable ordering of keyed items, as `sort_by_key` orders them.
use vstd::prelude::*;

verus! {

broadcast use vstd::seq_lib::group_to_multiset_ensures;

/// `x` placed into `s` after every item whose key is not larger.
pub open spec fn insert_sorted<T>(s: Seq<(u64, T)>, x: (u64, T)) -> Seq<(u64, T)>
    decreases s.len(),
{
    if s.len() == 0 {
        seq![x]
    } else if s.last().0 <= x.0 {
        s.push(x)
    } else {
        insert_sorted(s.drop_last(), x).push(s.last())
    }
}

/// `s` ordered by key, items with equal keys keeping their order: the
/// order that a stable sort by key gives.
pub open spec fn stable_sort<T>(s: Seq<(u64, T)>) -> Seq<(u64, T)>
    decreases s.len(),
{
    if s.len() == 0 {
        s
    } else {
        insert_sorted(stable_sort(s.drop_last()), s.last())
    }
}

/// Whether the keys of `s` never decrease.
pub open spec fn keys_sorted<T>(s: Seq<(u64, T)>) -> bool {
    forall|i: int, j: int| 0 <= i <= j < s.len() ==> (#[trigger] s[i]).0 <= (#[trigger] s[j]).0
}

proof fn lemma_insert_sorted_at<T>(s: Seq<(u64, T)>, x: (u64, T), j: int)
    requires
        0 <= j <= s.len(),
        forall|k: int| j <= k < s.len() ==> (#[trigger] s[k]).0 > x.0,
        j > 0 ==> s[j - 1].0 <= x.0,
    ensures
        insert_sorted(s, x) == s.insert(j, x),
    decreases s.len(),
{
    if s.len() == 0 {
        assert(s.insert(j, x) =~= seq![x]);
    } else if j == s.len() {
        assert(s.insert(j, x) =~= s.push(x));
    } else {
        assert(s.last().0 > x.0);
        let t = s.drop_last();
        assert forall|k: int| j <= k < t.len() implies (#[trigger] t[k]).0 > x.0 by {
            assert(t[k] == s[k]);
        }
        if j > 0 {
            assert(t[j - 1] == s[j - 1]);
        }
        lemma_insert_sorted_at(t, x, j);
        assert(t.insert(j, x).push(s.last()) =~= s.insert(j, x));
    }
}

proof fn lemma_insert_sorted_props<T>(s: Seq<(u64, T)>, x: (u64, T))
    requires
        keys_sorted(s),
    ensures
        keys_sorted(insert_sorted(s, x)),
        insert_sorted(s, x).to_multiset() == s.to_multiset().insert(x),
    decreases s.len(),
{
    if s.len() == 0 {
        assert(seq![x] =~= Seq::<(u64, T)>::empty().push(x));
    } else if s.last().0 <= x.0 {
    } else {
        let t = s.drop_last();
        assert forall|i: int, j: int| 0 <= i <= j < t.len() implies (#[trigger] t[i]).0 <= (
        #[trigger] t[j]).0 by {
            assert(t[i] == s[i] && t[j] == s[j]);
        }
        lemma_insert_sorted_props(t, x);
        let u = insert_sorted(t, x);
        let r = u.push(s.last());
        assert(u.to_multiset().contains(x));
        assert forall|i: int| 0 <= i < u.len() implies (#[trigger] u[i]).0 <= s.last().0 by {
            assert(u.to_multiset().contains(u[i]));
            assert(t.to_multiset().insert(x).contains(u[i]));
            if u[i] != x {
                assert(t.to_multiset().contains(u[i]));
                assert(t.contains(u[i]));
                let k = choose|k: int| 0 <= k < t.len() && t[k] == u[i];
                assert(s[k] == t[k]);
            }
        }
        assert forall|i: int, j: int| 0 <= i <= j < r.len() implies (#[trigger] r[i]).0 <= (
        #[trigger] r[j]).0 by {
            if j == r.len() - 1 {
                if i < r.len() - 1 {
                    assert(r[i] == u[i]);
                }
            } else {
                assert(r[i] == u[i] && r[j] == u[j]);
            }
        }
        assert(s =~= t.push(s.last()));
        assert(r.to_multiset() =~= s.to_multiset().insert(x));
    }
}

/// A stable sort by key keeps exactly the items it was given.
pub proof fn lemma_stable_sort_permutes<T>(s: Seq<(u64, T)>)
    ensures
        stable_sort(s).to_multiset() == s.to_multiset(),
        keys_sorted(stable_sort(s)),
    decreases s.len(),
{
    if s.len() > 0 {
        lemma_stable_sort_permutes(s.drop_last());
        lemma_insert_sorted_props(stable_sort(s.drop_last()), s.last());
        assert(s =~= s.drop_last().push(s.last()));
    }
}

/// Places `x` into the key-ordered `r` after every item whose key is not
/// larger.
fn insert_in_order<T>(r: &mut Vec<(u64, T)>, x: (u64, T))
    ensures
        final(r)@ == insert_sorted(old(r)@, x),
{
    let mut j: usize = r.len();
    while j > 0 && r[j - 1].0 > x.0
        invariant
            j <= r.len(),
            r@ == old(r)@,
            forall|k: int| j <= k < r.len() ==> (#[trigger] r@[k]).0 > x.0,
        decreases j,
    {
        j = j - 1;
    }
    proof {
        lemma_insert_sorted_at(r@, x, j as int);
    }
    r.insert(j, x);
}

/// Orders keyed items by key, keeping the order of items with equal keys.
pub fn sort_by_key<T>(items: Vec<(u64, T)>) -> (r: Vec<(u64, T)>)
    ensures
        r@ == stable_sort(items@),
{
    let ghost all = items@;
    let n = items.len();
    let mut rest = items;
    let mut r: Vec<(u64, T)> = Vec::new();
    let mut k: usize = 0;
    assert(all.subrange(0, 0) =~= Seq::<(u64, T)>::empty());
    assert(all.subrange(0, all.len() as int) =~= all);
    while rest.len() > 0
        invariant
            n == all.len(),
            k <= all.len(),
            rest@ == all.subrange(k as int, all.len() as int),
            r@ == stable_sort(all.subrange(0, k as int)),
        decreases rest.len(),
    {
        let x = rest.remove(0);
        proof {
            assert(all.subrange(0, k + 1).drop_last() =~= all.subrange(0, k as int));
            assert(all.subrange(0, k + 1).last() == x);
        }
        insert_in_order(&mut r, x);
        k = k + 1;
        assert(rest@ =~= all.subrange(k as int, all.len() as int));
    }
    assert(all.subrange(0, k as int) =~= all);
    r
}

} // verus!
