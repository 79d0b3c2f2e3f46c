//! Boundary search of a monotonic predicate over a half-open numeric range.

use crate::domain::SearchDomain;
use vstd::prelude::*;

verus! {

/// `x` lies in the half-open range from `low` to `high`.
pub open spec fn in_range<T: SearchDomain>(low: T, high: T, x: T) -> bool {
    low.value() <= x.value() < high.value()
}

/// The predicate may answer `true` on `x`.
pub open spec fn accepts<T, F: Fn(T) -> bool>(pred: F, x: T) -> bool {
    call_ensures(pred, (x,), true)
}

/// The predicate may answer `false` on `x`.
pub open spec fn rejects<T, F: Fn(T) -> bool>(pred: F, x: T) -> bool {
    call_ensures(pred, (x,), false)
}

/// On the range the predicate's `true` answers come first: once it may
/// answer `false` on a value, it never answers `true` on that value or on a
/// larger one.
pub open spec fn monotonic<T: SearchDomain, F: Fn(T) -> bool>(low: T, high: T, pred: F) -> bool {
    forall|x: T, y: T|
        in_range(low, high, x) && in_range(low, high, y) && x.value() <= y.value()
            && #[trigger] rejects(pred, x) ==> !#[trigger] accepts(pred, y)
}

/// `x` is where the predicate's answers change on the range: it answered
/// `true` on `x`, and `false` on the next value unless that is `high`.
pub open spec fn boundary<T: SearchDomain, F: Fn(T) -> bool>(
    low: T,
    high: T,
    pred: F,
    x: T,
) -> bool {
    &&& in_range(low, high, x)
    &&& accepts(pred, x)
    &&& x.value() + 1 < high.value() ==> exists|z: T|
        z.value() == x.value() + 1 && #[trigger] rejects(pred, z)
}

/// The predicate answered `false` at the range's first value, or the range
/// is empty.
pub open spec fn rejected_at_start<T: SearchDomain, F: Fn(T) -> bool>(
    low: T,
    high: T,
    pred: F,
) -> bool {
    low.value() < high.value() ==> exists|z: T|
        z.value() == low.value() && #[trigger] rejects(pred, z)
}

/// The largest value of the range from `low` up to, not including, `high`
/// on which `pred` holds, or `None` where it holds on none.
///
/// Whatever the predicate, a value that is returned is one on which it
/// answered `true`, next to one on which it answered `false` or to the
/// range's end. For a monotonic predicate that value is the largest on
/// which it holds, and `None` says that it holds nowhere on the range.
pub fn binary_search_range<T: SearchDomain, F: Fn(T) -> bool>(low: T, high: T, pred: F) -> (r:
    Option<T>)
    requires
        low.value() < high.value() ==> T::representable(high.value() - low.value()),
        forall|x: T| in_range(low, high, x) ==> call_requires(pred, (x,)),
    ensures
        match r {
            Some(x) => {
                &&& boundary(low, high, pred, x)
                &&& monotonic(low, high, pred) ==> forall|y: T|
                    in_range(low, high, y) && x.value() < y.value() ==> !#[trigger] accepts(
                        pred,
                        y,
                    )
            },
            None => {
                &&& rejected_at_start(low, high, pred)
                &&& monotonic(low, high, pred) ==> forall|y: T|
                    in_range(low, high, y) ==> !#[trigger] accepts(pred, y)
            },
        },
{
    let mut lo = low;
    let mut hi = high;
    let mut ans: Option<T> = None;
    let ghost mut refused: Option<T> = None;

    while lo.less_than(hi)
        invariant
            low.value() < high.value() ==> T::representable(high.value() - low.value()),
            forall|x: T| in_range(low, high, x) ==> call_requires(pred, (x,)),
            low.value() >= high.value() ==> lo == low && hi == high,
            low.value() < high.value() ==> low.value() <= lo.value() <= hi.value() <= high.value(),
            match ans {
                Some(x) => in_range(low, high, x) && accepts(pred, x) && x.value() + 1
                    == lo.value(),
                None => lo.value() == low.value(),
            },
            hi.value() < high.value() ==> (refused matches Some(z) && z.value() == hi.value()
                && in_range(low, high, z) && rejects(pred, z)),
        decreases hi.value() - lo.value(),
    {
        proof {
            let mid = lo.value() + (hi.value() - lo.value()) / 2;
            T::lemma_small_representable();
            low.lemma_value_representable();
            high.lemma_value_representable();
            T::lemma_between(1, high.value() - low.value(), hi.value() - lo.value());
            T::lemma_between(low.value(), high.value(), mid);
            T::lemma_between(low.value(), high.value(), mid + 1);
        }
        let two = T::from_u64(2).unwrap();
        let middle = lo.plus(hi.minus(lo).divided_by(two));
        assert(in_range(low, high, middle));
        if pred(middle) {
            lo = middle.plus(T::one());
            ans = Some(middle);
        } else {
            hi = middle;
            proof {
                refused = Some(middle);
            }
        }
    }
    ans
}

} // verus!
