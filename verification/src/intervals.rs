//! Closed integer intervals and placements of points in them.

use vstd::prelude::*;

verus! {

/// A closed integer interval: its first and its last position.
pub type Interval = (usize, usize);

/// The number of positions of an interval.
pub open spec fn length(iv: Interval) -> int {
    iv.1 - iv.0 + 1
}

/// `x` is a position of the interval.
pub open spec fn covers(iv: Interval, x: int) -> bool {
    iv.0 <= x <= iv.1
}

/// No interval ends before it starts.
pub open spec fn well_formed(s: Seq<Interval>) -> bool {
    forall|i: int| 0 <= i < s.len() ==> (#[trigger] s[i]).0 <= s[i].1
}

/// `a` does not come after `b` in the order of pairs: by first position,
/// then by last.
pub open spec fn pair_at_most(a: Interval, b: Interval) -> bool {
    a.0 < b.0 || (a.0 == b.0 && a.1 <= b.1)
}

/// The intervals are in ascending order, by first position and then by last.
pub open spec fn ascending(s: Seq<Interval>) -> bool {
    forall|i: int, j: int| 0 <= i < j < s.len() ==> pair_at_most(#[trigger] s[i], #[trigger] s[j])
}

/// The two intervals share no position.
pub open spec fn apart(a: Interval, b: Interval) -> bool {
    a.1 < b.0 || b.1 < a.0
}

/// No two of the intervals share a position.
pub open spec fn pairwise_disjoint(s: Seq<Interval>) -> bool {
    forall|i: int, j: int| 0 <= i < j < s.len() ==> apart(#[trigger] s[i], #[trigger] s[j])
}

/// Every interval ends before the next one starts.
pub open spec fn strictly_ascending(s: Seq<Interval>) -> bool {
    forall|i: int, j: int| 0 <= i < j < s.len() ==> (#[trigger] s[i]).1 < (#[trigger] s[j]).0
}

/// The total number of positions of the intervals, each counted as often as
/// intervals hold it.
pub open spec fn capacity(s: Seq<Interval>) -> int
    decreases s.len(),
{
    if s.len() == 0 {
        0
    } else {
        capacity(s.drop_last()) + length(s.last())
    }
}

/// `x` is a position of one of the intervals.
pub open spec fn covered(s: Seq<Interval>, x: int) -> bool {
    exists|i: int| 0 <= i < s.len() && covers(#[trigger] s[i], x)
}

/// The points rise, and any two of them are at least `d` apart.
pub open spec fn spaced(pts: Seq<int>, d: int) -> bool {
    forall|k: int, m: int| 0 <= k < m < pts.len() ==> #[trigger] pts[k] + d <= #[trigger] pts[m]
}

/// A placement: points in rising order, each on a position of some interval,
/// any two at least `d` apart.
pub open spec fn valid_placement(s: Seq<Interval>, pts: Seq<int>, d: int) -> bool {
    &&& spaced(pts, d)
    &&& forall|k: int| 0 <= k < pts.len() ==> covered(s, #[trigger] pts[k])
}

/// `c` points can be placed in the intervals at least `d` apart.
pub open spec fn can_place(s: Seq<Interval>, c: int, d: int) -> bool {
    exists|pts: Seq<int>| pts.len() == c && #[trigger] valid_placement(s, pts, d)
}

/// `d` is the widest spacing at which `c` points can be placed in the
/// intervals.
pub open spec fn widest_spacing(s: Seq<Interval>, c: int, d: int) -> bool {
    &&& 1 <= d
    &&& can_place(s, c, d)
    &&& forall|e: int| d < e ==> !can_place(s, c, e)
}

/// At no spacing can `c` points be placed in the intervals.
pub open spec fn no_spacing(s: Seq<Interval>, c: int) -> bool {
    forall|e: int| 1 <= e ==> !can_place(s, c, e)
}

/// The last position that any of the intervals has: the largest of their
/// ends, and 0 for no intervals.
pub open spec fn max_end(s: Seq<Interval>) -> int
    decreases s.len(),
{
    if s.len() == 0 {
        0
    } else if s.last().1 >= max_end(s.drop_last()) {
        s.last().1 as int
    } else {
        max_end(s.drop_last())
    }
}

/// The distance from the start of the first interval to the last position
/// of all.
pub open spec fn span(s: Seq<Interval>) -> int {
    if s.len() == 0 {
        0
    } else {
        max_end(s) - s[0].0
    }
}

/// No interval ends after the last position of all.
pub proof fn lemma_max_end_bounds(s: Seq<Interval>, i: int)
    requires
        0 <= i < s.len(),
    ensures
        s[i].1 <= max_end(s),
    decreases s.len(),
{
    if i < s.len() - 1 {
        lemma_max_end_bounds(s.drop_last(), i);
    }
}

/// Taking one more interval moves the last position to its end, where that
/// is further.
pub proof fn lemma_max_end_take_next(s: Seq<Interval>, i: int)
    requires
        0 <= i < s.len(),
    ensures
        max_end(s.take(i + 1)) == if s[i].1 >= max_end(s.take(i)) {
            s[i].1 as int
        } else {
            max_end(s.take(i))
        },
{
    assert(s.take(i + 1).drop_last() == s.take(i));
}

/// Two points or more can only be placed as far apart as the intervals in
/// ascending order span.
pub proof fn lemma_spacing_within_span(s: Seq<Interval>, c: int, d: int)
    requires
        ascending(s),
        2 <= c,
        can_place(s, c, d),
    ensures
        s.len() > 0,
        d <= span(s),
{
    let pts = choose|pts: Seq<int>| pts.len() == c && #[trigger] valid_placement(s, pts, d);
    assert(covered(s, pts[0]));
    assert(covered(s, pts[c - 1]));
    let i = choose|i: int| 0 <= i < s.len() && covers(#[trigger] s[i], pts[0]);
    let j = choose|j: int| 0 <= j < s.len() && covers(#[trigger] s[j], pts[c - 1]);
    assert(0 < i ==> pair_at_most(s[0], s[i]));
    lemma_max_end_bounds(s, j);
    assert(pts[0] + d <= pts[c - 1]);
}

/// The capacity of well-formed intervals counts at least one position for
/// each of them.
pub proof fn lemma_capacity_at_least_len(s: Seq<Interval>)
    requires
        well_formed(s),
    ensures
        capacity(s) >= s.len(),
    decreases s.len(),
{
    if s.len() > 0 {
        assert(s.last() == s[s.len() - 1]);
        lemma_capacity_at_least_len(s.drop_last());
    }
}

/// Taking one more interval adds its length to the capacity.
pub proof fn lemma_capacity_take_next(s: Seq<Interval>, i: int)
    requires
        0 <= i < s.len(),
    ensures
        capacity(s.take(i + 1)) == capacity(s.take(i)) + length(s[i]),
{
    assert(s.take(i + 1).drop_last() == s.take(i));
}

/// The capacity grows with the number of intervals taken.
pub proof fn lemma_capacity_take_grows(s: Seq<Interval>, i: int)
    requires
        well_formed(s),
        0 <= i <= s.len(),
    ensures
        0 <= capacity(s.take(i)) <= capacity(s),
    decreases s.len() - i,
{
    lemma_capacity_at_least_len(s.take(i));
    if i < s.len() {
        lemma_capacity_take_next(s, i);
        lemma_capacity_take_grows(s, i + 1);
    } else {
        assert(s.take(i) == s);
    }
}

/// Taking an interval out lowers the capacity by its length.
pub proof fn lemma_capacity_remove(s: Seq<Interval>, k: int)
    requires
        0 <= k < s.len(),
    ensures
        capacity(s.remove(k)) == capacity(s) - length(s[k]),
    decreases s.len(),
{
    if k == s.len() - 1 {
        assert(s.remove(k) == s.drop_last());
    } else {
        assert(s.remove(k).drop_last() == s.drop_last().remove(k));
        assert(s.remove(k).last() == s.last());
        lemma_capacity_remove(s.drop_last(), k);
    }
}

/// Two sequences with the same elements, whatever their order, hold the same
/// intervals.
pub proof fn lemma_permutation_contains(s: Seq<Interval>, t: Seq<Interval>, iv: Interval)
    requires
        s.to_multiset() == t.to_multiset(),
        s.contains(iv),
    ensures
        t.contains(iv),
{
    vstd::seq_lib::to_multiset_contains(s, iv);
    vstd::seq_lib::to_multiset_contains(t, iv);
}

/// The capacity does not depend on the order of the intervals.
pub proof fn lemma_capacity_of_permutation(s: Seq<Interval>, t: Seq<Interval>)
    requires
        s.to_multiset() == t.to_multiset(),
    ensures
        capacity(s) == capacity(t),
    decreases s.len(),
{
    s.to_multiset_ensures();
    t.to_multiset_ensures();
    if s.len() > 0 {
        let last = s.last();
        assert(s.contains(last));
        lemma_permutation_contains(s, t, last);
        let k = choose|k: int| 0 <= k < t.len() && t[k] == last;
        assert(s.drop_last() == s.remove(s.len() - 1));
        assert(s.drop_last().to_multiset() == t.remove(k).to_multiset());
        lemma_capacity_of_permutation(s.drop_last(), t.remove(k));
        lemma_capacity_remove(t, k);
    }
}

/// Whether the intervals are well formed does not depend on their order.
pub proof fn lemma_well_formed_of_permutation(s: Seq<Interval>, t: Seq<Interval>)
    requires
        s.to_multiset() == t.to_multiset(),
        well_formed(s),
    ensures
        well_formed(t),
{
    assert forall|i: int| 0 <= i < t.len() implies (#[trigger] t[i]).0 <= t[i].1 by {
        assert(t.contains(t[i]));
        lemma_permutation_contains(t, s, t[i]);
    }
}

/// Whether the intervals are pairwise disjoint does not depend on their
/// order.
pub proof fn lemma_disjoint_of_permutation(s: Seq<Interval>, t: Seq<Interval>)
    requires
        s.to_multiset() == t.to_multiset(),
        pairwise_disjoint(s),
    ensures
        pairwise_disjoint(t),
    decreases s.len(),
{
    s.to_multiset_ensures();
    t.to_multiset_ensures();
    if s.len() > 0 {
        let last = s.last();
        assert(s.contains(last));
        lemma_permutation_contains(s, t, last);
        let k = choose|k: int| 0 <= k < t.len() && t[k] == last;
        let shorter = s.drop_last();
        let others = t.remove(k);
        assert(shorter == s.remove(s.len() - 1));
        assert(shorter.to_multiset() == others.to_multiset());
        assert(pairwise_disjoint(shorter)) by {
            assert forall|i: int, j: int| 0 <= i < j < shorter.len() implies apart(
                #[trigger] shorter[i],
                #[trigger] shorter[j],
            ) by {
                assert(apart(s[i], s[j]));
            }
        }
        lemma_disjoint_of_permutation(shorter, others);
        assert forall|i: int, j: int| 0 <= i < j < t.len() implies apart(
            #[trigger] t[i],
            #[trigger] t[j],
        ) by {
            if i == k || j == k {
                let other = if i == k {
                    j
                } else {
                    i
                };
                let moved = if other < k {
                    other
                } else {
                    other - 1
                };
                assert(others[moved] == t[other]);
                assert(others.contains(t[other]));
                lemma_permutation_contains(others, shorter, t[other]);
                let m = choose|m: int| 0 <= m < shorter.len() && shorter[m] == t[other];
                assert(apart(s[m], s[s.len() - 1]));
            } else {
                let i2 = if i < k {
                    i
                } else {
                    i - 1
                };
                let j2 = if j < k {
                    j
                } else {
                    j - 1
                };
                assert(apart(others[i2], others[j2]));
            }
        }
    }
}

/// Well-formed intervals in ascending order that are pairwise disjoint
/// each end before the next one starts.
pub proof fn lemma_disjoint_ascending(s: Seq<Interval>)
    requires
        well_formed(s),
        ascending(s),
        pairwise_disjoint(s),
    ensures
        strictly_ascending(s),
{
    assert forall|i: int, j: int| 0 <= i < j < s.len() implies (#[trigger] s[i]).1 < (
    #[trigger] s[j]).0 by {
        assert(pair_at_most(s[i], s[j]));
        assert(apart(s[i], s[j]));
    }
}

/// Which positions the intervals cover does not depend on their order.
pub proof fn lemma_covered_of_permutation(s: Seq<Interval>, t: Seq<Interval>, x: int)
    requires
        s.to_multiset() == t.to_multiset(),
        covered(s, x),
    ensures
        covered(t, x),
{
    let i = choose|i: int| 0 <= i < s.len() && covers(#[trigger] s[i], x);
    assert(s.contains(s[i]));
    lemma_permutation_contains(s, t, s[i]);
    let j = choose|j: int| 0 <= j < t.len() && t[j] == s[i];
    assert(covers(t[j], x));
}

/// Which placements are valid does not depend on the order of the
/// intervals.
pub proof fn lemma_can_place_of_permutation(s: Seq<Interval>, t: Seq<Interval>, c: int, d: int)
    requires
        s.to_multiset() == t.to_multiset(),
        can_place(s, c, d),
    ensures
        can_place(t, c, d),
{
    let pts = choose|pts: Seq<int>| pts.len() == c && #[trigger] valid_placement(s, pts, d);
    assert forall|k: int| 0 <= k < pts.len() implies covered(t, #[trigger] pts[k]) by {
        lemma_covered_of_permutation(s, t, pts[k]);
    }
    assert(valid_placement(t, pts, d));
}

} // verus!
