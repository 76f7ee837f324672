//! The stable size-descending sort used by the size-sorted output mode.
//!
//! Candidates are `(path, size)` pairs.  The sort orders them by size,
//! largest first, and keeps the resolution order among candidates of equal
//! size.

use vstd::prelude::*;

verus! {

/// Insertion of one candidate into a size-descending list: it goes after
/// every candidate at least as large, before the first strictly smaller.
pub open spec fn insert_desc(sorted: Seq<(Seq<char>, u64)>, x: (Seq<char>, u64)) -> Seq<
    (Seq<char>, u64),
>
    decreases sorted.len(),
{
    if sorted.len() == 0 {
        seq![x]
    } else if sorted[0].1 >= x.1 {
        seq![sorted[0]] + insert_desc(sorted.drop_first(), x)
    } else {
        seq![x] + sorted
    }
}

/// The stable size-descending sort: candidates are inserted in resolution
/// order, each after all candidates of the same size.
pub open spec fn sort_by_size_spec(s: Seq<(Seq<char>, u64)>) -> Seq<(Seq<char>, u64)>
    decreases s.len(),
{
    if s.len() == 0 {
        Seq::empty()
    } else {
        insert_desc(sort_by_size_spec(s.drop_last()), s.last())
    }
}

/// Size-descending order.
pub open spec fn sorted_desc(s: Seq<(Seq<char>, u64)>) -> bool {
    forall|i: int, j: int| 0 <= i <= j < s.len() ==> s[i].1 >= s[j].1
}

/// The subsequence of candidates of one given size, in their given order.
pub open spec fn keep_size(s: Seq<(Seq<char>, u64)>, v: u64) -> Seq<(Seq<char>, u64)>
    decreases s.len(),
{
    if s.len() == 0 {
        Seq::empty()
    } else if s[0].1 == v {
        seq![s[0]] + keep_size(s.drop_first(), v)
    } else {
        keep_size(s.drop_first(), v)
    }
}

proof fn lemma_insert_desc_sorted(s: Seq<(Seq<char>, u64)>, x: (Seq<char>, u64))
    requires
        sorted_desc(s),
    ensures
        sorted_desc(insert_desc(s, x)),
    decreases s.len(),
{
    if s.len() == 0 {
    } else if s[0].1 >= x.1 {
        assert(sorted_desc(s.drop_first()));
        lemma_insert_desc_sorted(s.drop_first(), x);
        let r = insert_desc(s, x);
        let r1 = insert_desc(s.drop_first(), x);
        assert forall|i: int, j: int| 0 <= i <= j < r.len() implies r[i].1 >= r[j].1 by {
            if i > 0 {
                assert(r[i] == r1[i - 1] && r[j] == r1[j - 1]);
            } else if j > 0 {
                assert(r[j] == r1[j - 1]);
                lemma_insert_desc_members(s.drop_first(), x, j - 1);
            }
        }
    } else {
    }
}

/// Every element of the inserted list is the new element or one of the old.
proof fn lemma_insert_desc_members(s: Seq<(Seq<char>, u64)>, x: (Seq<char>, u64), i: int)
    requires
        0 <= i < insert_desc(s, x).len(),
    ensures
        insert_desc(s, x)[i] == x || exists|j: int| 0 <= j < s.len() && s[j] == insert_desc(s, x)[i],
    decreases s.len(),
{
    if s.len() == 0 {
    } else if s[0].1 >= x.1 {
        if i > 0 {
            lemma_insert_desc_members(s.drop_first(), x, i - 1);
            if insert_desc(s, x)[i] != x {
                let j = choose|j: int|
                    0 <= j < s.drop_first().len() && s.drop_first()[j] == insert_desc(
                        s.drop_first(),
                        x,
                    )[i - 1];
                assert(s[j + 1] == insert_desc(s, x)[i]);
            }
        } else {
            assert(s[0] == insert_desc(s, x)[0]);
        }
    } else {
        if i > 0 {
            assert(s[i - 1] == insert_desc(s, x)[i]);
        }
    }
}

/// The sort output is in size-descending order.
pub proof fn lemma_sort_by_size_sorted(s: Seq<(Seq<char>, u64)>)
    ensures
        sorted_desc(sort_by_size_spec(s)),
    decreases s.len(),
{
    if s.len() > 0 {
        lemma_sort_by_size_sorted(s.drop_last());
        lemma_insert_desc_sorted(sort_by_size_spec(s.drop_last()), s.last());
    }
}

proof fn lemma_keep_size_insert(s: Seq<(Seq<char>, u64)>, x: (Seq<char>, u64), v: u64)
    requires
        sorted_desc(s),
    ensures
        keep_size(insert_desc(s, x), v) == if x.1 == v {
            keep_size(s, v).push(x)
        } else {
            keep_size(s, v)
        },
    decreases s.len(),
{
    if s.len() == 0 {
        assert(insert_desc(s, x) =~= seq![x]);
        assert(seq![x].drop_first() =~= Seq::<(Seq<char>, u64)>::empty());
        assert(keep_size(seq![x].drop_first(), v) =~= Seq::<(Seq<char>, u64)>::empty());
        if x.1 == v {
            assert(keep_size(seq![x], v) =~= Seq::<(Seq<char>, u64)>::empty().push(x));
        } else {
            assert(keep_size(seq![x], v) =~= Seq::<(Seq<char>, u64)>::empty());
        }
    } else if s[0].1 >= x.1 {
        assert(sorted_desc(s.drop_first()));
        lemma_keep_size_insert(s.drop_first(), x, v);
        let r = insert_desc(s, x);
        assert(r[0] == s[0]);
        assert(r.drop_first() =~= insert_desc(s.drop_first(), x));
        if s[0].1 == v {
            if x.1 == v {
                assert(keep_size(r, v) =~= seq![s[0]] + (keep_size(s.drop_first(), v).push(x)));
                assert(seq![s[0]] + (keep_size(s.drop_first(), v).push(x)) =~= (seq![s[0]]
                    + keep_size(s.drop_first(), v)).push(x));
            }
        }
    } else {
        // x goes in front; everything in s is strictly smaller than x
        let r = insert_desc(s, x);
        assert(r =~= seq![x] + s);
        assert(r[0] == x);
        assert(r.drop_first() =~= s);
        if x.1 == v {
            // no element of s has size v or larger than x.1 == v ... s may
            // still contain size v?  s[0].1 < x.1, and s is sorted, so every
            // element is strictly smaller than v: keep_size(s, v) is empty.
            assert forall|j: int| 0 <= j < s.len() implies s[j].1 < v by {
                assert(s[0].1 >= s[j].1);
            }
            lemma_keep_size_none(s, v);
            assert(keep_size(r, v) =~= seq![x] + keep_size(s, v));
            assert(seq![x] + keep_size(s, v) =~= keep_size(s, v).push(x));
        }
    }
}

/// A list with no element of size `v` keeps nothing of size `v`.
proof fn lemma_keep_size_none(s: Seq<(Seq<char>, u64)>, v: u64)
    requires
        forall|j: int| 0 <= j < s.len() ==> s[j].1 != v,
    ensures
        keep_size(s, v) == Seq::<(Seq<char>, u64)>::empty(),
    decreases s.len(),
{
    if s.len() > 0 {
        assert(forall|j: int| 0 <= j < s.drop_first().len() ==> s.drop_first()[j].1 != v);
        lemma_keep_size_none(s.drop_first(), v);
    }
}

proof fn lemma_keep_size_push(s: Seq<(Seq<char>, u64)>, x: (Seq<char>, u64), v: u64)
    ensures
        keep_size(s.push(x), v) == if x.1 == v {
            keep_size(s, v).push(x)
        } else {
            keep_size(s, v)
        },
    decreases s.len(),
{
    if s.len() == 0 {
        assert(s.push(x)[0] == x);
        assert(s.push(x).drop_first() =~= Seq::<(Seq<char>, u64)>::empty());
        assert(keep_size(s.push(x).drop_first(), v) =~= Seq::<(Seq<char>, u64)>::empty());
        if x.1 == v {
            assert(keep_size(s.push(x), v) =~= keep_size(s, v).push(x));
        } else {
            assert(keep_size(s.push(x), v) =~= keep_size(s, v));
        }
    } else {
        assert(s.push(x)[0] == s[0]);
        assert(s.push(x).drop_first() =~= s.drop_first().push(x));
        lemma_keep_size_push(s.drop_first(), x, v);
        if x.1 == v {
            if s[0].1 == v {
                assert(keep_size(s.push(x), v) =~= seq![s[0]] + keep_size(s.drop_first(), v).push(
                    x,
                ));
                assert(seq![s[0]] + keep_size(s.drop_first(), v).push(x) =~= (seq![s[0]]
                    + keep_size(s.drop_first(), v)).push(x));
            }
        }
    }
}

/// Stability: for every size, the sort keeps the candidates of that size
/// in their resolution order.
pub proof fn lemma_sort_by_size_stable(s: Seq<(Seq<char>, u64)>, v: u64)
    ensures
        keep_size(sort_by_size_spec(s), v) == keep_size(s, v),
    decreases s.len(),
{
    if s.len() > 0 {
        lemma_sort_by_size_stable(s.drop_last(), v);
        lemma_sort_by_size_sorted(s.drop_last());
        lemma_keep_size_insert(sort_by_size_spec(s.drop_last()), s.last(), v);
        lemma_keep_size_push(s.drop_last(), s.last(), v);
        assert(s.drop_last().push(s.last()) =~= s);
    }
}

proof fn lemma_insert_desc_len(s: Seq<(Seq<char>, u64)>, x: (Seq<char>, u64))
    ensures
        insert_desc(s, x).len() == s.len() + 1,
    decreases s.len(),
{
    if s.len() > 0 && s[0].1 >= x.1 {
        lemma_insert_desc_len(s.drop_first(), x);
    }
}

/// The sort neither drops nor invents candidates: the output has exactly
/// as many entries as the input.
pub proof fn lemma_sort_by_size_len(s: Seq<(Seq<char>, u64)>)
    ensures
        sort_by_size_spec(s).len() == s.len(),
    decreases s.len(),
{
    if s.len() > 0 {
        lemma_sort_by_size_len(s.drop_last());
        lemma_insert_desc_len(sort_by_size_spec(s.drop_last()), s.last());
    }
}

/// Where the scan stopped is where the insertion spec puts the element.
proof fn lemma_insert_desc_at(s: Seq<(Seq<char>, u64)>, x: (Seq<char>, u64), k: int)
    requires
        0 <= k <= s.len(),
        forall|j: int| 0 <= j < k ==> s[j].1 >= x.1,
        k < s.len() ==> s[k].1 < x.1,
    ensures
        insert_desc(s, x) == s.insert(k, x),
    decreases s.len(),
{
    if s.len() == 0 {
        assert(insert_desc(s, x) =~= s.insert(0, x));
    } else if k == 0 {
        assert(s[0].1 < x.1);
        assert(seq![x] + s =~= s.insert(0, x));
    } else {
        assert(s[0].1 >= x.1);
        lemma_insert_desc_at(s.drop_first(), x, k - 1);
        assert(seq![s[0]] + s.drop_first().insert(k - 1, x) =~= s.insert(k, x));
    }
}

/// Sorts candidates by size, largest first, stably.
pub fn sort_by_size(v: &Vec<(String, u64)>) -> (r: Vec<(String, u64)>)
    ensures
        r.deep_view() == sort_by_size_spec(v.deep_view()),
{
    let dv = Ghost(v.deep_view());
    let mut out: Vec<(String, u64)> = Vec::new();
    let mut i: usize = 0;
    proof {
        assert(out.deep_view() =~= sort_by_size_spec(dv@.take(0)));
    }
    while i < v.len()
        invariant
            dv@ == v.deep_view(),
            dv@.len() == v@.len(),
            0 <= i <= v@.len(),
            out.deep_view() == sort_by_size_spec(dv@.take(i as int)),
        decreases v.len() - i,
    {
        let x: (String, u64) = (v[i].0.clone(), v[i].1);
        proof {
            assert(x.deep_view() == dv@[i as int]);
        }
        let ghost before = out.deep_view();
        let mut k: usize = 0;
        while k < out.len() && out[k].1 >= x.1
            invariant
                out.deep_view() == before,
                out.deep_view().len() == out@.len(),
                0 <= k <= out@.len(),
                forall|j: int| 0 <= j < k ==> before[j].1 >= x.deep_view().1,
            decreases out.len() - k,
        {
            proof {
                assert(before[k as int] == out@[k as int].deep_view());
            }
            k += 1;
        }
        proof {
            if k < out.len() {
                assert(before[k as int] == out@[k as int].deep_view());
            }
            lemma_insert_desc_at(before, x.deep_view(), k as int);
        }
        out.insert(k, x);
        proof {
            assert(out.deep_view() =~= before.insert(k as int, x.deep_view()));
            assert(dv@.take(i + 1).drop_last() =~= dv@.take(i as int));
            assert(dv@.take(i + 1).last() == dv@[i as int]);
        }
        i += 1;
    }
    proof {
        assert(dv@.take(v@.len() as int) =~= dv@);
    }
    out
}

} // verus!
