//! Binary and exponential search for a key in a sorted slice.

use crate::order::{
    equal, greater, lemma_greater_extends_down, lemma_less_extends_up, lemma_subrange_sorted,
    less, sorted, total_order,
};
use core::cmp::Ordering;
use vstd::prelude::*;

verus! {

/// The element at index `i` of `s` takes the key's place in the order.
pub open spec fn matches_at<T: Ord>(s: Seq<T>, key: T, i: int) -> bool {
    0 <= i < s.len() && equal(key, s[i])
}

/// `i` is the lowest index at which `s` holds the key.
pub open spec fn first_match<T: Ord>(s: Seq<T>, key: T, i: int) -> bool {
    matches_at(s, key, i) && forall|j: int| 0 <= j < i ==> !matches_at(s, key, j)
}

/// `s` holds the key nowhere.
pub open spec fn absent<T: Ord>(s: Seq<T>, key: T) -> bool {
    forall|j: int| 0 <= j < s.len() ==> !matches_at(s, key, j)
}

/// `r` is the lowest index at which `s` holds the key, or `None` where `s`
/// does not hold it.
pub open spec fn lowest_match<T: Ord>(s: Seq<T>, key: T, r: Option<usize>) -> bool {
    match r {
        Some(i) => first_match(s, key, i as int),
        None => absent(s, key),
    }
}

/// An index that a search answers is one of `s` and holds the key.
pub open spec fn holds_key<T: Ord>(s: Seq<T>, key: T, found: Option<usize>) -> bool {
    found matches Some(i) ==> matches_at(s, key, i as int)
}

/// What a search for the key answers: on any sequence an index that holds
/// the key, if it answers one; on a sorted sequence the lowest such index,
/// and `None` exactly where there is none.
pub open spec fn search_answer<T: Ord>(s: Seq<T>, key: T, r: Option<usize>) -> bool {
    &&& holds_key(s, key, r)
    &&& sorted(s) ==> lowest_match(s, key, r)
}

/// In a sorted sequence everything up to an element that the key comes
/// after is itself before the key.
pub proof fn lemma_all_below<T: Ord>(s: Seq<T>, key: T, mid: usize)
    requires
        total_order::<T>(),
        sorted(s),
        mid < s.len(),
        greater(key, s[mid as int]),
    ensures
        forall|j: int| 0 <= j <= mid ==> greater(key, #[trigger] s[j]),
{
    assert forall|j: int| 0 <= j <= mid implies greater(key, #[trigger] s[j]) by {
        if j < mid {
            lemma_greater_extends_down(key, s[j], s[mid as int]);
        }
    }
}

/// In a sorted sequence everything from an element that the key comes
/// before is itself after the key.
pub proof fn lemma_all_above<T: Ord>(s: Seq<T>, key: T, mid: usize)
    requires
        total_order::<T>(),
        sorted(s),
        mid < s.len(),
        less(key, s[mid as int]),
    ensures
        forall|j: int| mid <= j < s.len() ==> less(key, #[trigger] s[j]),
{
    assert forall|j: int| mid <= j < s.len() implies less(key, #[trigger] s[j]) by {
        if mid < j {
            lemma_less_extends_up(key, s[mid as int], s[j]);
        }
    }
}

/// The lowest index at which the sorted slice holds the key, or `None`
/// where the key does not occur. On a slice that is not sorted an index
/// that is answered still holds the key.
pub fn binary_search<T: Ord>(arr: &[T], key: T) -> (r: Option<usize>)
    requires
        total_order::<T>(),
    ensures
        search_answer(arr@, key, r),
{
    let mut low: usize = 0;
    let mut high: usize = arr.len();
    let mut ans: Option<usize> = None;

    while low < high
        invariant
            total_order::<T>(),
            low <= high <= arr@.len(),
            holds_key(arr@, key, ans),
            sorted(arr@) ==> forall|j: int| 0 <= j < low ==> greater(key, #[trigger] arr@[j]),
            sorted(arr@) && ans.is_none() ==> forall|j: int|
                high <= j < arr@.len() ==> less(key, #[trigger] arr@[j]),
            sorted(arr@) && ans.is_some() ==> ans == Some(high),
        decreases high - low,
    {
        let middle: usize = low + (high - low) / 2;
        match key.cmp(&arr[middle]) {
            Ordering::Equal => {
                ans = Some(middle);
                high = middle;
            },
            Ordering::Less => {
                proof {
                    if sorted(arr@) {
                        lemma_all_above(arr@, key, middle);
                    }
                }
                high = middle;
            },
            Ordering::Greater => {
                proof {
                    if sorted(arr@) {
                        lemma_all_below(arr@, key, middle);
                    }
                }
                low = middle + 1;
            },
        }
    }
    ans
}

/// On a sorted sequence the doubling search and the binary search give
/// the same answer: there is one lowest index that holds the key, or none.
pub proof fn lemma_searches_agree<T: Ord>(
    s: Seq<T>,
    key: T,
    doubling: Option<usize>,
    halving: Option<usize>,
)
    requires
        sorted(s),
        search_answer(s, key, doubling),
        search_answer(s, key, halving),
    ensures
        doubling == halving,
{
}

/// An answer found in the piece of a sequence that starts at `low`, as an
/// index of the whole.
pub open spec fn widened(inner: Option<usize>, low: usize) -> Option<usize> {
    match inner {
        Some(i) => Some((i + low) as usize),
        None => None,
    }
}

/// The lowest match within a bracket is the lowest match of the whole
/// sequence, where nothing before the bracket holds the key and either
/// nothing after it does or its last element does.
pub proof fn lemma_search_in_bracket<T: Ord>(
    s: Seq<T>,
    key: T,
    low: usize,
    high: usize,
    inner: Option<usize>,
)
    requires
        low <= high <= s.len() <= usize::MAX,
        forall|j: int| 0 <= j < low ==> !matches_at(s, key, j),
        (forall|j: int| high <= j < s.len() ==> !matches_at(s, key, j)) || (low < high
            && matches_at(s, key, high - 1)),
        lowest_match(s.subrange(low as int, high as int), key, inner),
    ensures
        lowest_match(s, key, widened(inner, low)),
{
    let piece = s.subrange(low as int, high as int);
    match inner {
        Some(i) => {
            assert(piece[i as int] == s[i + low]);
            assert forall|j: int| 0 <= j < i + low implies !matches_at(s, key, j) by {
                if low <= j {
                    assert(!matches_at(piece, key, j - low));
                    assert(piece[j - low] == s[j]);
                }
            }
        },
        None => {
            assert forall|j: int| 0 <= j < s.len() implies !matches_at(s, key, j) by {
                if low <= j < high {
                    assert(!matches_at(piece, key, j - low));
                    assert(piece[j - low] == s[j]);
                } else if high <= j {
                    if low < high && matches_at(s, key, high - 1) {
                        assert(!matches_at(piece, key, high - 1 - low));
                        assert(piece[high - 1 - low] == s[high - 1]);
                    }
                }
            }
        },
    }
}

/// An index that holds the key within a bracket holds it in the whole
/// sequence, moved by the bracket's start.
pub proof fn lemma_found_in_bracket<T: Ord>(
    s: Seq<T>,
    key: T,
    low: usize,
    high: usize,
    inner: Option<usize>,
)
    requires
        low <= high <= s.len() <= usize::MAX,
        holds_key(s.subrange(low as int, high as int), key, inner),
    ensures
        holds_key(s, key, widened(inner, low)),
{
    if let Some(i) = inner {
        assert(s.subrange(low as int, high as int)[i as int] == s[i + low]);
    }
}

/// The lowest index at which the sorted slice holds the key, or `None`
/// where the key does not occur, found by doubling. On a slice that is not
/// sorted an index that is answered still holds the key.
///
/// The search looks at the indices 1, 2, 4, 8 and so on until it meets the
/// key or an element after it, and then searches the bracket between the
/// last two of them with `binary_search`. Index 0 is never looked at on the
/// way, so a bracket that would start at index 1 starts at index 0.
pub fn exponential_search<T: Ord + core::fmt::Debug + Copy>(arr: &[T], key: T) -> (r: Option<
    usize,
>)
    requires
        total_order::<T>(),
    ensures
        search_answer(arr@, key, r),
{
    let mut high: usize = 1;
    while high < arr.len()
        invariant_except_break
            high == 1 || high % 2 == 0 || high >= arr@.len(),
            sorted(arr@) ==> forall|j: int| 0 <= j < high / 2 ==> greater(key, #[trigger] arr@[j]),
        invariant
            total_order::<T>(),
            1 <= high,
            high / 2 <= arr@.len(),
        ensures
            sorted(arr@) && high > 2 ==> forall|j: int|
                0 <= j < high / 2 ==> greater(key, #[trigger] arr@[j]),
            sorted(arr@) ==> (forall|j: int| high <= j < arr@.len() ==> !matches_at(arr@, key, j))
                || (high <= arr@.len() && matches_at(arr@, key, high - 1)),
        decreases
                if high < arr@.len() {
                    arr@.len() - high
                } else {
                    0
                },
    {
        match key.cmp(&arr[high]) {
            Ordering::Equal => {
                high += 1;
                break ;
            },
            Ordering::Less => {
                proof {
                    if sorted(arr@) {
                        lemma_all_above(arr@, key, high);
                    }
                }
                break ;
            },
            Ordering::Greater => {
                proof {
                    if sorted(arr@) {
                        lemma_all_below(arr@, key, high);
                    }
                }
                // Doubling saturates where it would overflow; the loop then
                // ends, with the bracket starting below the index just seen.
                high = if high <= usize::MAX / 2 {
                    high * 2
                } else {
                    usize::MAX
                };
            },
        }
    }

    let low: usize = if high <= 2 {
        0
    } else {
        high / 2
    };
    if high > arr.len() {
        high = arr.len();
    }
    let inner = binary_search(&arr[low..high], key);
    proof {
        lemma_found_in_bracket(arr@, key, low, high, inner);
        if sorted(arr@) {
            lemma_subrange_sorted(arr@, low, high);
            lemma_search_in_bracket(arr@, key, low, high, inner);
        }
    }
    match inner {
        Some(i) => Some(i + low),
        None => None,
    }
}

} // verus!
