//! The widest spacing at which a number of points can be chosen from closed
//! integer intervals.

use crate::greedy::{
    feasible, greedy_placement, greedy_tail, lemma_beyond_span, lemma_feasible_iff_placeable,
    lemma_infeasible_from, lemma_one_point_feasible, lemma_placement_within_capacity,
    lemma_spacing_one_fills, next_point, none_feasible, widest_feasible,
};
use crate::intervals::{
    ascending, can_place, capacity, lemma_can_place_of_permutation, lemma_capacity_at_least_len,
    lemma_capacity_of_permutation, lemma_capacity_take_grows, lemma_capacity_take_next,
    lemma_disjoint_ascending, lemma_disjoint_of_permutation, lemma_max_end_bounds,
    lemma_max_end_take_next, lemma_well_formed_of_permutation, max_end, no_spacing,
    pairwise_disjoint, well_formed, widest_spacing, Interval,
};
use crate::range_search::{binary_search_range, rejects};
use vstd::prelude::*;

verus! {

/// `<[T]>::sort_unstable` on a vector of intervals: afterwards the vector
/// holds the intervals that it held before, in ascending order by first
/// position and then by last.
#[verifier::external_body]
fn sort_intervals(v: &mut Vec<Interval>)
    ensures
        ascending(final(v)@),
        final(v)@.to_multiset() == old(v)@.to_multiset(),
{
    v.sort_unstable();
}

/// The total number of positions of the intervals.
pub fn total_capacity(intervals: &Vec<Interval>) -> (total: usize)
    requires
        well_formed(intervals@),
        capacity(intervals@) <= usize::MAX,
    ensures
        total == capacity(intervals@),
{
    let mut total: usize = 0;
    let mut i: usize = 0;
    while i < intervals.len()
        invariant
            well_formed(intervals@),
            capacity(intervals@) <= usize::MAX,
            i <= intervals@.len(),
            total == capacity(intervals@.take(i as int)),
        decreases intervals@.len() - i,
    {
        proof {
            lemma_capacity_take_next(intervals@, i as int);
            lemma_capacity_take_grows(intervals@, i + 1);
        }
        let interval = intervals[i];
        total = total + (interval.1 - interval.0) + 1;
        i += 1;
    }
    proof {
        assert(intervals@.take(i as int) == intervals@);
    }
    total
}

/// The first position of the interval that is at least `d` after `last`,
/// or `None` where the interval has no such position.
pub fn next_in_interval(interval: Interval, last: usize, d: usize) -> (r: Option<usize>)
    ensures
        match r {
            Some(p) => p == next_point(interval, last as int, d as int) && p <= interval.1,
            None => next_point(interval, last as int, d as int) > interval.1,
        },
{
    if last > interval.1 || d > interval.1 - last {
        None
    } else {
        let reach: usize = last + d;
        let p: usize = if interval.0 >= reach {
            interval.0
        } else {
            reach
        };
        if p <= interval.1 {
            Some(p)
        } else {
            None
        }
    }
}

/// Whether the greedy placement at spacing `d` has at least `c` points.
pub fn spacing_is_feasible(intervals: &Vec<Interval>, c: usize, d: usize) -> (ok: bool)
    requires
        intervals@.len() > 0,
        well_formed(intervals@),
        capacity(intervals@) <= usize::MAX,
        1 <= d,
    ensures
        ok == feasible(intervals@, d as int, c as int),
{
    let mut last_selected: usize = intervals[0].0;
    let mut cnt: usize = 1;
    let mut i: usize = 0;
    proof {
        lemma_placement_within_capacity(intervals@, d as int);
    }
    while i < intervals.len()
        invariant
            1 <= d,
            i <= intervals@.len(),
            greedy_placement(intervals@, d as int).len() <= usize::MAX,
            cnt + greedy_tail(intervals@, i as int, last_selected as int, d as int).len()
                == greedy_placement(intervals@, d as int).len(),
        decreases intervals@.len() - i,
    {
        let interval = intervals[i];
        loop
            invariant
                1 <= d,
                i < intervals@.len(),
                interval == intervals@[i as int],
                greedy_placement(intervals@, d as int).len() <= usize::MAX,
                cnt + greedy_tail(intervals@, i as int, last_selected as int, d as int).len()
                    == greedy_placement(intervals@, d as int).len(),
            ensures
                cnt + greedy_tail(intervals@, i + 1, last_selected as int, d as int).len()
                    == greedy_placement(intervals@, d as int).len(),
            decreases
                    if last_selected <= interval.1 {
                        interval.1 - last_selected + 1
                    } else {
                        0
                    },
        {
            match next_in_interval(interval, last_selected, d) {
                Some(p) => {
                    last_selected = p;
                    cnt += 1;
                },
                None => {
                    break ;
                },
            }
        }
        i += 1;
    }
    cnt >= c
}

/// The last position that any of the intervals has, and 0 for no
/// intervals.
pub fn last_end(intervals: &Vec<Interval>) -> (end: usize)
    ensures
        end == max_end(intervals@),
{
    let mut end: usize = 0;
    let mut i: usize = 0;
    while i < intervals.len()
        invariant
            i <= intervals@.len(),
            end == max_end(intervals@.take(i as int)),
        decreases intervals@.len() - i,
    {
        proof {
            lemma_max_end_take_next(intervals@, i as int);
        }
        if intervals[i].1 >= end {
            end = intervals[i].1;
        }
        i += 1;
    }
    proof {
        assert(intervals@.take(i as int) == intervals@);
    }
    end
}

/// The widest spacing at which `c` points can be chosen from the
/// intervals, any two of them at least that far apart, or `None` where
/// they cannot be chosen at any spacing. The intervals are left in
/// ascending order, by first position and then by last.
///
/// One point, or none, can be chosen at every spacing: the answer is then
/// the intervals' capacity, and `None` for no intervals. The spacing is
/// found with the greedy placement on the sorted intervals, which has `c`
/// points exactly where `c` points can be placed. Of intervals that are
/// pairwise disjoint, `None` says that they have fewer than `c` positions.
pub fn select_intervals(intervals: &mut Vec<Interval>, c: usize) -> (r: Option<usize>)
    requires
        well_formed(old(intervals)@),
        capacity(old(intervals)@) <= usize::MAX,
    ensures
        ascending(final(intervals)@),
        final(intervals)@.to_multiset() == old(intervals)@.to_multiset(),
        r.is_none() <==> old(intervals)@.len() == 0 || no_spacing(old(intervals)@, c as int),
        r.is_none() ==> none_feasible(final(intervals)@, c as int),
        r matches Some(d) ==> {
            &&& 1 <= d
            &&& can_place(old(intervals)@, c as int, d as int)
            &&& feasible(final(intervals)@, d as int, c as int)
            &&& c >= 2 ==> widest_spacing(old(intervals)@, c as int, d as int)
            &&& c >= 2 ==> widest_feasible(final(intervals)@, c as int, d as int)
            &&& c <= 1 ==> d == capacity(old(intervals)@)
        },
        capacity(old(intervals)@) < c ==> r.is_none(),
        pairwise_disjoint(old(intervals)@) && (old(intervals)@.len() > 0 || c > 0) ==> (r.is_none()
            <==> capacity(old(intervals)@) < c),
{
    sort_intervals(intervals);
    proof {
        lemma_capacity_of_permutation(old(intervals)@, intervals@);
        lemma_well_formed_of_permutation(old(intervals)@, intervals@);
        lemma_capacity_at_least_len(intervals@);
        lemma_over_placements(old(intervals)@, intervals@, c as int);
        if pairwise_disjoint(old(intervals)@) && (intervals@.len() > 0 || c > 0) {
            lemma_disjoint_of_permutation(old(intervals)@, intervals@);
            lemma_capacity_decides(intervals@, c as int);
        }
    }
    let l: usize = total_capacity(intervals);
    if l < c {
        proof {
            lemma_too_few_positions(intervals@, c as int);
        }
        return None;
    }
    // Two points are at most as far apart as the intervals span; a single
    // point is placed at every spacing, and the capacity is the answer.
    let widest: usize = if c >= 2 {
        proof {
            lemma_max_end_bounds(intervals@, 0);
        }
        last_end(intervals) - intervals[0].0
    } else {
        l
    };
    let pred = |x: usize| -> (ok: bool)
        requires
            x < widest,
        ensures
            ok == feasible(intervals@, x + 1, c as int),
        { spacing_is_feasible(intervals, c, x + 1) };
    let found = binary_search_range(0, widest, pred);
    proof {
        let s = intervals@;
        if c >= 2 {
            lemma_beyond_span(s, c as int);
        }
        match found {
            Some(x) => {
                if x + 1 < widest {
                    let z = choose|z: usize| z == x + 1 && rejects(pred, z);
                    assert(rejects(pred, z));
                    if c >= 2 {
                        lemma_infeasible_from(s, c as int, x + 2);
                    } else {
                        lemma_one_point_feasible(s, c as int, x + 2);
                    }
                }
            },
            None => {
                if 0 < widest {
                    let z = choose|z: usize| z == 0 && rejects(pred, z);
                    assert(rejects(pred, z));
                    if c >= 2 {
                        lemma_infeasible_from(s, c as int, 1);
                    } else {
                        lemma_one_point_feasible(s, c as int, 1);
                    }
                }
            },
        }
    }
    match found {
        Some(x) => Some(x + 1),
        None => None,
    }
}

/// Intervals with fewer than `c` positions have no feasible spacing.
pub proof fn lemma_too_few_positions(s: Seq<Interval>, c: int)
    requires
        well_formed(s),
        capacity(s) < c,
    ensures
        none_feasible(s, c),
{
    assert forall|e: int| 1 <= e implies !feasible(s, e, c) by {
        lemma_placement_within_capacity(s, e);
    }
}

/// What the greedy placement on the sorted intervals finds feasible is what
/// can be placed in the intervals in any order.
pub proof fn lemma_over_placements(before: Seq<Interval>, s: Seq<Interval>, c: int)
    requires
        before.to_multiset() == s.to_multiset(),
        well_formed(s),
        ascending(s),
        0 <= c,
    ensures
        before.len() == s.len(),
        capacity(before) == capacity(s),
        s.len() > 0 ==> forall|d: int|
            #![trigger feasible(s, d, c)]
            #![trigger can_place(before, c, d)]
            1 <= d ==> (feasible(s, d, c) <==> can_place(before, c, d)),
{
    before.to_multiset_ensures();
    s.to_multiset_ensures();
    lemma_capacity_of_permutation(before, s);
    if s.len() > 0 {
        assert forall|d: int| 1 <= d implies (#[trigger] feasible(s, d, c) <==> #[trigger] can_place(
            before,
            c,
            d,
        )) by {
            lemma_feasible_iff_placeable(s, c, d);
            if can_place(s, c, d) {
                lemma_can_place_of_permutation(s, before, c, d);
            }
            if can_place(before, c, d) {
                lemma_can_place_of_permutation(before, s, c, d);
            }
        }
    }
}

/// Of pairwise disjoint intervals in ascending order, and unless nothing is
/// asked of no intervals, there is a feasible spacing exactly where the
/// intervals have at least `c` positions.
pub proof fn lemma_capacity_decides(s: Seq<Interval>, c: int)
    requires
        well_formed(s),
        ascending(s),
        pairwise_disjoint(s),
        s.len() > 0 || c > 0,
    ensures
        none_feasible(s, c) <==> capacity(s) < c,
{
    lemma_disjoint_ascending(s);
    lemma_spacing_one_fills(s);
    lemma_capacity_at_least_len(s);
    if capacity(s) < c {
        lemma_too_few_positions(s, c);
    } else {
        assert(feasible(s, 1, c));
    }
}

} // verus!
