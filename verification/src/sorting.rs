//! Sorting of integer sequences and order statistics over them.

use vstd::prelude::*;
use vstd::relations::*;

verus! {

/// The usual order on `u64`, as a relation.
pub open spec fn le_u64() -> spec_fn(u64, u64) -> bool {
    |a: u64, b: u64| a <= b
}

/// `s` in ascending order.
pub open spec fn sorted_u64(s: Seq<u64>) -> Seq<u64> {
    s.sort_by(le_u64())
}

/// The element at index `(n - 1) / 2` of the ascending order of `s` (the
/// lower median); 0 for an empty sequence.
pub open spec fn lower_median(s: Seq<u64>) -> u64 {
    if s.len() == 0 {
        0
    } else {
        sorted_u64(s)[(s.len() - 1) / 2]
    }
}

/// The element at index `n / 2` of the ascending order of `s` (the upper
/// median); 0 for an empty sequence.
pub open spec fn upper_median(s: Seq<u64>) -> u64 {
    if s.len() == 0 {
        0
    } else {
        sorted_u64(s)[(s.len() / 2) as int]
    }
}

pub proof fn lemma_le_u64_total()
    ensures
        total_ordering(le_u64()),
{
    let r = le_u64();
    assert(reflexive(r));
    assert(antisymmetric(r));
    assert(transitive(r));
    assert(strongly_connected(r));
}

/// Facts about the ascending order of a sequence: same length, a
/// permutation, sorted, and made of the sequence's own elements.
pub proof fn lemma_sorted_u64(s: Seq<u64>)
    ensures
        sorted_u64(s).len() == s.len(),
        sorted_u64(s).to_multiset() == s.to_multiset(),
        sorted_by(sorted_u64(s), le_u64()),
        forall|i: int| 0 <= i < s.len() ==> s.contains(#[trigger] sorted_u64(s)[i]),
{
    broadcast use vstd::seq_lib::group_to_multiset_ensures;

    lemma_le_u64_total();
    s.lemma_sort_by_ensures(le_u64());
    let t = sorted_u64(s);
    assert(t.len() == t.to_multiset().len());
    assert(s.len() == s.to_multiset().len());
    assert forall|i: int| 0 <= i < s.len() implies s.contains(#[trigger] sorted_u64(s)[i]) by {
        assert(t.contains(t[i]));
    }
}

/// Returns `v` in ascending order.
pub fn sort_u64(v: &Vec<u64>) -> (r: Vec<u64>)
    ensures
        r@ == sorted_u64(v@),
{
    broadcast use vstd::seq_lib::group_to_multiset_ensures;

    let mut out: Vec<u64> = Vec::new();
    let mut i: usize = 0;
    while i < v.len()
        invariant
            i <= v@.len(),
            sorted_by(out@, le_u64()),
            out@.to_multiset() == v@.take(i as int).to_multiset(),
        decreases v@.len() - i,
    {
        let x = v[i];
        let mut p: usize = 0;
        while p < out.len() && out[p] <= x
            invariant
                p <= out@.len(),
                forall|j: int| 0 <= j < p ==> out@[j] <= x,
            decreases out@.len() - p,
        {
            p += 1;
        }
        let ghost before = out@;
        out.insert(p, x);
        proof {
            before.insert_ensures(p as int, x);
            assert forall|a: int, b: int| 0 <= a < b < out@.len() implies #[trigger] le_u64()(
                out@[a],
                out@[b],
            ) by {
                assert(sorted_by(before, le_u64()));
                if b < p {
                    assert(le_u64()(before[a], before[b]));
                } else if b == p {
                    assert(out@[a] == before[a]);
                } else if a < p {
                    assert(out@[b] == before[b - 1]);
                    if a < b - 1 {
                        assert(le_u64()(before[a], before[b - 1]));
                    }
                } else if a == p {
                    assert(out@[b] == before[b - 1]);
                    if p < before.len() {
                        assert(!(before[p as int] <= x));
                        if p < b - 1 {
                            assert(le_u64()(before[p as int], before[b - 1]));
                        }
                    }
                } else {
                    assert(le_u64()(before[a - 1], before[b - 1]));
                }
            }
            assert(v@.take(i + 1) =~= v@.take(i as int).push(x));
            assert(out@ == before.insert(p as int, x));
            vstd::seq_lib::to_multiset_insert(before, p as int, x);
            vstd::seq_lib::to_multiset_build(v@.take(i as int), x);
        }
        i += 1;
    }
    proof {
        assert(v@.take(v@.len() as int) =~= v@);
        lemma_le_u64_total();
        v@.lemma_sort_by_ensures(le_u64());
        vstd::seq_lib::lemma_sorted_unique(out@, sorted_u64(v@), le_u64());
    }
    out
}

/// The lower median of `v`.
pub fn lower_median_of(v: &Vec<u64>) -> (m: u64)
    ensures
        m == lower_median(v@),
        v@.len() > 0 ==> v@.contains(m),
{
    if v.len() == 0 {
        return 0;
    }
    let s = sort_u64(v);
    proof {
        lemma_sorted_u64(v@);
    }
    s[(v.len() - 1) / 2]
}

/// The upper median of `v`.
pub fn upper_median_of(v: &Vec<u64>) -> (m: u64)
    ensures
        m == upper_median(v@),
        v@.len() > 0 ==> v@.contains(m),
{
    if v.len() == 0 {
        return 0;
    }
    let s = sort_u64(v);
    proof {
        lemma_sorted_u64(v@);
    }
    s[v.len() / 2]
}


/// How many elements of `s` are below `m`.
pub open spec fn count_below(s: Seq<u64>, m: u64) -> nat
    decreases s.len(),
{
    if s.len() == 0 {
        0
    } else {
        count_below(s.drop_last(), m) + if s.last() < m { 1nat } else { 0nat }
    }
}

/// How many elements of `s` are above `m`.
pub open spec fn count_above(s: Seq<u64>, m: u64) -> nat
    decreases s.len(),
{
    if s.len() == 0 {
        0
    } else {
        count_above(s.drop_last(), m) + if s.last() > m { 1nat } else { 0nat }
    }
}

proof fn lemma_counts_split(s: Seq<u64>, j: int, m: u64)
    requires
        0 <= j < s.len(),
    ensures
        count_below(s, m) == count_below(s.remove(j), m) + if s[j] < m { 1nat } else { 0nat },
        count_above(s, m) == count_above(s.remove(j), m) + if s[j] > m { 1nat } else { 0nat },
    decreases s.len(),
{
    if j < s.len() - 1 {
        lemma_counts_split(s.drop_last(), j, m);
        assert(s.remove(j).drop_last() =~= s.drop_last().remove(j));
        assert(s.remove(j).last() == s.last());
    } else {
        assert(s.remove(j) =~= s.drop_last());
    }
}

/// The counts depend only on which elements occur, not on their order.
proof fn lemma_counts_permutation(s: Seq<u64>, t: Seq<u64>, m: u64)
    requires
        s.to_multiset() == t.to_multiset(),
    ensures
        count_below(s, m) == count_below(t, m),
        count_above(s, m) == count_above(t, m),
    decreases s.len(),
{
    broadcast use vstd::seq_lib::group_to_multiset_ensures;

    if s.len() == 0 {
        assert(t.to_multiset().len() == 0);
        assert(t.len() == 0);
    } else {
        let x = s.last();
        assert(s.to_multiset().count(x) > 0) by {
            assert(s =~= s.drop_last().push(x));
        }
        assert(t.contains(x));
        let j = choose|j: int| 0 <= j < t.len() && t[j] == x;
        assert(s =~= s.drop_last().push(x));
        vstd::seq_lib::to_multiset_remove(t, j);
        vstd::seq_lib::to_multiset_remove(s, s.len() - 1);
        assert(s.remove(s.len() - 1) =~= s.drop_last());
        assert(s.drop_last().to_multiset() =~= t.remove(j).to_multiset());
        lemma_counts_permutation(s.drop_last(), t.remove(j), m);
        lemma_counts_split(t, j, m);
    }
}

/// In an ascending sequence, only elements before index `k` are below
/// `t[k]` and only elements after it are above.
proof fn lemma_sorted_counts(t: Seq<u64>, k: int, n: int)
    requires
        sorted_by(t, le_u64()),
        0 <= k < t.len(),
        0 <= n <= t.len(),
    ensures
        count_below(t.take(n), t[k]) <= if n < k { n } else { k },
        count_above(t.take(n), t[k]) <= if n <= k + 1 { 0 } else { n - k - 1 },
    decreases n,
{
    if n > 0 {
        lemma_sorted_counts(t, k, n - 1);
        assert(t.take(n).drop_last() =~= t.take(n - 1));
        assert(t.take(n).last() == t[n - 1]);
        if n - 1 >= k {
            assert(le_u64()(t[k], t[n - 1]));
        }
        if n - 1 <= k {
            assert(le_u64()(t[n - 1], t[k]));
        }
    }
}

/// Law: the lower median of a non-empty sequence is one of its elements,
/// with at most `(n - 1) / 2` elements below it and at most `n / 2` above.
pub proof fn lemma_lower_median_splits(s: Seq<u64>)
    requires
        s.len() > 0,
    ensures
        s.contains(lower_median(s)),
        count_below(s, lower_median(s)) <= (s.len() - 1) / 2,
        count_above(s, lower_median(s)) <= s.len() / 2,
{
    lemma_sorted_u64(s);
    let t = sorted_u64(s);
    let k = (s.len() - 1) / 2;
    lemma_sorted_counts(t, k, t.len() as int);
    assert(t.take(t.len() as int) =~= t);
    lemma_counts_permutation(s, t, t[k]);
}

/// Law: the upper median of a non-empty sequence is one of its elements,
/// with at most `n / 2` elements below it and at most `(n - 1) / 2` above.
pub proof fn lemma_upper_median_splits(s: Seq<u64>)
    requires
        s.len() > 0,
    ensures
        s.contains(upper_median(s)),
        count_below(s, upper_median(s)) <= s.len() / 2,
        count_above(s, upper_median(s)) <= (s.len() - 1) / 2,
{
    lemma_sorted_u64(s);
    let t = sorted_u64(s);
    let k = (s.len() / 2) as int;
    lemma_sorted_counts(t, k, t.len() as int);
    assert(t.take(t.len() as int) =~= t);
    lemma_counts_permutation(s, t, t[k]);
}

} // verus!
