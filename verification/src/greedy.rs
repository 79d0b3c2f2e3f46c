//! The greedy placement of points in ascending intervals, and what it
//! proves about the spacings at which a number of points can be placed.

use crate::intervals::{
    ascending, can_place, capacity, covered, covers, lemma_capacity_take_next,
    lemma_spacing_within_span, length, pair_at_most, spaced, span, strictly_ascending,
    valid_placement, well_formed, Interval,
};
use vstd::prelude::*;

verus! {

/// The first position of the interval that is at least `d` after `last`.
pub open spec fn next_point(iv: Interval, last: int, d: int) -> int {
    if iv.0 >= last + d {
        iv.0 as int
    } else {
        last + d
    }
}

/// The points that the greedy placement adds after the point `last`, from
/// the interval at index `i` on: in each interval in turn, as long as the
/// next point at least `d` after the last one is a position of it, that
/// point.
pub open spec fn greedy_tail(s: Seq<Interval>, i: int, last: int, d: int) -> Seq<int>
    decreases
        s.len() - i,
        (if 0 <= i < s.len() && last <= s[i].1 {
            s[i].1 - last + 1
        } else {
            0
        }),
{
    if i < 0 || i >= s.len() || d < 1 {
        Seq::empty()
    } else {
        let p = next_point(s[i], last, d);
        if p <= s[i].1 {
            seq![p] + greedy_tail(s, i, p, d)
        } else {
            greedy_tail(s, i + 1, last, d)
        }
    }
}

/// The greedy placement at spacing `d`: the first position of the first
/// interval, and after it, each time, the next position of the intervals
/// that is at least `d` away.
pub open spec fn greedy_placement(s: Seq<Interval>, d: int) -> Seq<int> {
    if s.len() == 0 {
        Seq::empty()
    } else {
        seq![s[0].0 as int] + greedy_tail(s, 0, s[0].0 as int, d)
    }
}

/// The greedy placement at spacing `d` has at least `c` points.
pub open spec fn feasible(s: Seq<Interval>, d: int, c: int) -> bool {
    s.len() > 0 && greedy_placement(s, d).len() >= c
}

/// `d` is the widest spacing at which the greedy placement has at least
/// `c` points.
pub open spec fn widest_feasible(s: Seq<Interval>, c: int, d: int) -> bool {
    &&& 1 <= d
    &&& feasible(s, d, c)
    &&& forall|e: int| d < e ==> !feasible(s, e, c)
}

/// At no spacing does the greedy placement have `c` points.
pub open spec fn none_feasible(s: Seq<Interval>, c: int) -> bool {
    forall|e: int| 1 <= e ==> !feasible(s, e, c)
}

/// The positions of the interval that come after `last`: how many points
/// it can still take.
pub open spec fn room(iv: Interval, last: int) -> int {
    if last < iv.0 {
        length(iv)
    } else if last <= iv.1 {
        iv.1 - last
    } else {
        0
    }
}

/// The greedy placement adds no more points than the intervals have
/// positions left.
pub proof fn lemma_tail_within_capacity(s: Seq<Interval>, i: int, last: int, d: int)
    requires
        well_formed(s),
        0 <= i < s.len(),
        1 <= d,
    ensures
        greedy_tail(s, i, last, d).len() <= capacity(s) - capacity(s.take(i + 1)) + room(
            s[i],
            last,
        ),
    decreases
        s.len() - i,
        (if last <= s[i].1 {
            s[i].1 - last + 1
        } else {
            0
        }),
{
    let p = next_point(s[i], last, d);
    if p <= s[i].1 {
        lemma_tail_within_capacity(s, i, p, d);
        assert(room(s[i], p) < room(s[i], last));
        assert(greedy_tail(s, i, last, d).len() == 1 + greedy_tail(s, i, p, d).len());
    } else if i + 1 < s.len() {
        lemma_tail_within_capacity(s, i + 1, last, d);
        lemma_capacity_take_next(s, i + 1);
        assert(room(s[i + 1], last) <= length(s[i + 1]));
        assert(room(s[i], last) >= 0);
    } else {
        assert(s.take(i + 1) == s);
        assert(greedy_tail(s, i + 1, last, d).len() == 0);
    }
}

/// The greedy placement has no more points than the intervals have
/// positions.
pub proof fn lemma_placement_within_capacity(s: Seq<Interval>, d: int)
    requires
        well_formed(s),
        1 <= d,
    ensures
        greedy_placement(s, d).len() <= capacity(s),
{
    if s.len() > 0 {
        lemma_tail_within_capacity(s, 0, s[0].0 as int, d);
        lemma_capacity_take_next(s, 0);
        assert(capacity(s.take(0)) == 0);
    }
}

/// Starting further left, in an earlier interval and with a narrower
/// spacing never gives the greedy placement fewer points.
pub proof fn lemma_tail_monotonic(
    s: Seq<Interval>,
    i: int,
    j: int,
    last: int,
    later: int,
    d: int,
    wider: int,
)
    requires
        ascending(s),
        0 <= i <= j,
        last <= later,
        1 <= d <= wider,
    ensures
        greedy_tail(s, i, last, d).len() >= greedy_tail(s, j, later, wider).len(),
    decreases
        s.len() - j,
        (if j < s.len() && later <= s[j].1 {
            s[j].1 - later + 1
        } else {
            0
        }),
        j - i,
{
    if j < s.len() {
        let q = next_point(s[j], later, wider);
        if q > s[j].1 {
            lemma_tail_monotonic(s, i, j + 1, last, later, d, wider);
        } else {
            let p = next_point(s[i], last, d);
            assert(i < j ==> s[i].0 <= s[j].0);
            if p <= s[i].1 {
                lemma_tail_monotonic(s, i, j, p, q, d, wider);
            } else {
                lemma_tail_monotonic(s, i + 1, j, last, later, d, wider);
            }
        }
    }
}

/// A spacing that is feasible stays feasible when it is narrowed.
pub proof fn lemma_feasible_monotonic(s: Seq<Interval>, c: int, d: int, wider: int)
    requires
        ascending(s),
        1 <= d <= wider,
        feasible(s, wider, c),
    ensures
        feasible(s, d, c),
{
    lemma_tail_monotonic(s, 0, 0, s[0].0 as int, s[0].0 as int, d, wider);
}

/// A spacing that is not feasible rules out every wider one.
pub proof fn lemma_infeasible_from(s: Seq<Interval>, c: int, d: int)
    requires
        ascending(s),
        1 <= d,
        !feasible(s, d, c),
    ensures
        forall|e: int| d <= e ==> !feasible(s, e, c),
{
    assert forall|e: int| d <= e implies !feasible(s, e, c) by {
        if feasible(s, e, c) {
            lemma_feasible_monotonic(s, c, d, e);
        }
    }
}

/// The first point alone is placed at every spacing: for one point or none
/// every spacing is feasible.
pub proof fn lemma_one_point_feasible(s: Seq<Interval>, c: int, d: int)
    requires
        s.len() > 0,
        c <= 1,
    ensures
        feasible(s, d, c),
{
}

/// The points that the greedy placement adds are a valid placement, and
/// the first of them is at least `d` after the last point before them.
pub proof fn lemma_tail_valid(s: Seq<Interval>, i: int, last: int, d: int)
    requires
        1 <= d,
        0 <= i,
    ensures
        valid_placement(s, greedy_tail(s, i, last, d), d),
        forall|k: int|
            0 <= k < greedy_tail(s, i, last, d).len() ==> last + d <= #[trigger] greedy_tail(
                s,
                i,
                last,
                d,
            )[k],
    decreases
        s.len() - i,
        (if i < s.len() && last <= s[i].1 {
            s[i].1 - last + 1
        } else {
            0
        }),
{
    if i < s.len() {
        let p = next_point(s[i], last, d);
        if p <= s[i].1 {
            lemma_tail_valid(s, i, p, d);
            let rest = greedy_tail(s, i, p, d);
            let tail = greedy_tail(s, i, last, d);
            assert(tail == seq![p] + rest);
            assert(covers(s[i], p));
            assert forall|k: int| 0 <= k < tail.len() implies covered(s, #[trigger] tail[k]) by {
                if k > 0 {
                    assert(tail[k] == rest[k - 1]);
                }
            }
            assert forall|k: int, m: int| 0 <= k < m < tail.len() implies #[trigger] tail[k] + d
                <= #[trigger] tail[m] by {
                assert(tail[m] == rest[m - 1]);
                if k > 0 {
                    assert(tail[k] == rest[k - 1]);
                }
            }
            assert forall|k: int| 0 <= k < tail.len() implies last + d <= #[trigger] tail[k] by {
                if k > 0 {
                    assert(tail[k] == rest[k - 1]);
                }
            }
        } else {
            lemma_tail_valid(s, i + 1, last, d);
        }
    }
}

/// The greedy placement is a valid placement.
pub proof fn lemma_placement_valid(s: Seq<Interval>, d: int)
    requires
        well_formed(s),
        1 <= d,
    ensures
        valid_placement(s, greedy_placement(s, d), d),
{
    if s.len() > 0 {
        let first = s[0].0 as int;
        let rest = greedy_tail(s, 0, first, d);
        let all = greedy_placement(s, d);
        lemma_tail_valid(s, 0, first, d);
        assert(covers(s[0], first));
        assert forall|k: int| 0 <= k < all.len() implies covered(s, #[trigger] all[k]) by {
            if k > 0 {
                assert(all[k] == rest[k - 1]);
            }
        }
        assert forall|k: int, m: int| 0 <= k < m < all.len() implies #[trigger] all[k] + d
            <= #[trigger] all[m] by {
            assert(all[m] == rest[m - 1]);
            if k > 0 {
                assert(all[k] == rest[k - 1]);
            }
        }
    }
}

/// A feasible spacing is achievable: as many points as asked for can be
/// placed that far apart.
pub proof fn lemma_feasible_achievable(s: Seq<Interval>, c: int, d: int)
    requires
        well_formed(s),
        1 <= d,
        0 <= c,
        feasible(s, d, c),
    ensures
        can_place(s, c, d),
{
    let all = greedy_placement(s, d);
    lemma_placement_valid(s, d);
    let pts = all.take(c);
    assert forall|k: int| 0 <= k < pts.len() implies covered(s, #[trigger] pts[k]) by {
        assert(pts[k] == all[k]);
    }
    assert forall|k: int, m: int| 0 <= k < m < pts.len() implies #[trigger] pts[k] + d
        <= #[trigger] pts[m] by {
        assert(pts[k] == all[k]);
        assert(pts[m] == all[m]);
    }
    assert(valid_placement(s, pts, d));
}

/// For two points or more no spacing wider than the intervals span is
/// feasible.
pub proof fn lemma_beyond_span(s: Seq<Interval>, c: int)
    requires
        well_formed(s),
        ascending(s),
        2 <= c,
    ensures
        forall|e: int| span(s) < e && 1 <= e ==> !feasible(s, e, c),
{
    assert forall|e: int| span(s) < e && 1 <= e implies !feasible(s, e, c) by {
        if feasible(s, e, c) {
            lemma_feasible_achievable(s, c, e);
            lemma_spacing_within_span(s, c, e);
        }
    }
}

/// `x` is a position of one of the intervals from index `i` on.
pub open spec fn covered_from(s: Seq<Interval>, i: int, x: int) -> bool {
    exists|j: int| i <= j < s.len() && covers(#[trigger] s[j], x)
}

/// After the point `last`, from the interval at index `i` on, the greedy
/// placement adds at least as many points as any placement has that keeps
/// the spacing `d`, to `last` too, and uses those intervals only.
pub proof fn lemma_tail_dominates(s: Seq<Interval>, i: int, last: int, d: int, pts: Seq<int>)
    requires
        ascending(s),
        0 <= i,
        1 <= d,
        spaced(pts, d),
        forall|k: int|
            0 <= k < pts.len() ==> last + d <= #[trigger] pts[k] && covered_from(s, i, pts[k]),
    ensures
        greedy_tail(s, i, last, d).len() >= pts.len(),
    decreases
        s.len() - i,
        (if i < s.len() && last <= s[i].1 {
            s[i].1 - last + 1
        } else {
            0
        }),
{
    if pts.len() > 0 {
        assert(covered_from(s, i, pts[0]));
        let p = next_point(s[i], last, d);
        if p <= s[i].1 {
            let j = choose|j: int| i <= j < s.len() && covers(#[trigger] s[j], pts[0]);
            assert(i < j ==> pair_at_most(s[i], s[j]));
            let rest = pts.drop_first();
            assert forall|k: int| 0 <= k < rest.len() implies p + d <= #[trigger] rest[k]
                && covered_from(s, i, rest[k]) by {
                assert(rest[k] == pts[k + 1]);
                assert(pts[0] + d <= pts[k + 1]);
            }
            assert forall|k: int, m: int| 0 <= k < m < rest.len() implies #[trigger] rest[k] + d
                <= #[trigger] rest[m] by {
                assert(rest[k] == pts[k + 1]);
                assert(rest[m] == pts[m + 1]);
            }
            lemma_tail_dominates(s, i, p, d, rest);
        } else {
            assert forall|k: int| 0 <= k < pts.len() implies covered_from(
                s,
                i + 1,
                #[trigger] pts[k],
            ) by {
                assert(covered_from(s, i, pts[k]));
                let j = choose|j: int| i <= j < s.len() && covers(#[trigger] s[j], pts[k]);
                assert(j != i);
            }
            lemma_tail_dominates(s, i + 1, last, d, pts);
        }
    }
}

/// The greedy placement is optimal: a spacing at which `c` points can be
/// placed at all is one at which the greedy placement has `c` points.
pub proof fn lemma_greedy_is_optimal(s: Seq<Interval>, c: int, d: int)
    requires
        ascending(s),
        s.len() > 0,
        1 <= d,
        can_place(s, c, d),
    ensures
        feasible(s, d, c),
{
    let pts = choose|pts: Seq<int>| pts.len() == c && #[trigger] valid_placement(s, pts, d);
    if c > 0 {
        let first = s[0].0 as int;
        assert(covered(s, pts[0]));
        let j = choose|j: int| 0 <= j < s.len() && covers(#[trigger] s[j], pts[0]);
        assert(0 < j ==> pair_at_most(s[0], s[j]));
        let rest = pts.drop_first();
        assert forall|k: int| 0 <= k < rest.len() implies first + d <= #[trigger] rest[k]
            && covered_from(s, 0, rest[k]) by {
            assert(rest[k] == pts[k + 1]);
            assert(pts[0] + d <= pts[k + 1]);
            assert(covered(s, pts[k + 1]));
        }
        assert forall|k: int, m: int| 0 <= k < m < rest.len() implies #[trigger] rest[k] + d
            <= #[trigger] rest[m] by {
            assert(rest[k] == pts[k + 1]);
            assert(rest[m] == pts[m + 1]);
        }
        lemma_tail_dominates(s, 0, first, d, rest);
    }
}

/// The greedy placement decides what can be placed: it has `c` points at a
/// spacing exactly where `c` points can be placed that far apart.
pub proof fn lemma_feasible_iff_placeable(s: Seq<Interval>, c: int, d: int)
    requires
        well_formed(s),
        ascending(s),
        s.len() > 0,
        0 <= c,
        1 <= d,
    ensures
        feasible(s, d, c) <==> can_place(s, c, d),
{
    if feasible(s, d, c) {
        lemma_feasible_achievable(s, c, d);
    }
    if can_place(s, c, d) {
        lemma_greedy_is_optimal(s, c, d);
    }
}

/// At spacing 1, in intervals of which each ends before the next starts,
/// the greedy placement takes every position after `last`.
pub proof fn lemma_tail_fills(s: Seq<Interval>, i: int, last: int)
    requires
        well_formed(s),
        strictly_ascending(s),
        0 <= i < s.len(),
        s[i].0 <= last <= s[i].1,
    ensures
        greedy_tail(s, i, last, 1).len() == capacity(s) - capacity(s.take(i + 1)) + (s[i].1
            - last),
    decreases s.len() - i, s[i].1 - last,
{
    if last < s[i].1 {
        lemma_tail_fills(s, i, last + 1);
        assert(greedy_tail(s, i, last, 1) == seq![last + 1] + greedy_tail(s, i, last + 1, 1));
    } else if i + 1 < s.len() {
        let start = s[i + 1].0 as int;
        assert(s[i].1 < s[i + 1].0);
        lemma_tail_fills(s, i + 1, start);
        lemma_capacity_take_next(s, i + 1);
        assert(greedy_tail(s, i, last, 1) == greedy_tail(s, i + 1, last, 1));
        assert(greedy_tail(s, i + 1, last, 1) == seq![start] + greedy_tail(s, i + 1, start, 1));
    } else {
        assert(s.take(i + 1) == s);
        assert(greedy_tail(s, i, last, 1) == greedy_tail(s, i + 1, last, 1));
    }
}

/// At spacing 1 the greedy placement takes every position of intervals of
/// which each ends before the next starts.
pub proof fn lemma_spacing_one_fills(s: Seq<Interval>)
    requires
        well_formed(s),
        strictly_ascending(s),
    ensures
        greedy_placement(s, 1).len() == capacity(s),
{
    if s.len() > 0 {
        lemma_tail_fills(s, 0, s[0].0 as int);
        lemma_capacity_take_next(s, 0);
        assert(capacity(s.take(0)) == 0);
    }
}

} // verus!
