//! The order that the searches over sorted sequences rest on, read off a
//! type's `Ord` implementation.

use core::cmp::Ordering;
use vstd::prelude::*;
use vstd::std_specs::cmp::OrdSpec;

verus! {

/// `a` comes before `b`.
pub open spec fn less<T: Ord>(a: T, b: T) -> bool {
    a.cmp_spec(&b) == Ordering::Less
}

/// `a` and `b` take the same place in the order.
pub open spec fn equal<T: Ord>(a: T, b: T) -> bool {
    a.cmp_spec(&b) == Ordering::Equal
}

/// `a` comes after `b`.
pub open spec fn greater<T: Ord>(a: T, b: T) -> bool {
    a.cmp_spec(&b) == Ordering::Greater
}

/// `a` does not come after `b`.
pub open spec fn at_most<T: Ord>(a: T, b: T) -> bool {
    !greater(a, b)
}

/// The comparison of `T` is a total order: what `cmp` computes is what the
/// model says, turning a comparison round swaps before and after, and "not
/// after" is transitive.
pub open spec fn total_order<T: Ord>() -> bool {
    &&& T::obeys_cmp_spec()
    &&& forall|a: T, b: T| #[trigger] less(a, b) <==> greater(b, a)
    &&& forall|a: T, b: T, c: T|
        #[trigger] at_most(a, b) && #[trigger] at_most(b, c) ==> at_most(a, c)
}

/// The sequence is in ascending order; equal neighbours are allowed.
pub open spec fn sorted<T: Ord>(s: Seq<T>) -> bool {
    forall|i: int, j: int| 0 <= i < j < s.len() ==> at_most(#[trigger] s[i], #[trigger] s[j])
}

/// What comes after `b` comes after everything that is not after `b`.
pub proof fn lemma_greater_extends_down<T: Ord>(key: T, a: T, b: T)
    requires
        total_order::<T>(),
        at_most(a, b),
        greater(key, b),
    ensures
        greater(key, a),
{
    if !greater(key, a) {
        assert(at_most(key, a) && at_most(a, b));
    }
}

/// What comes before `b` comes before everything that `b` is not after.
pub proof fn lemma_less_extends_up<T: Ord>(key: T, b: T, c: T)
    requires
        total_order::<T>(),
        less(key, b),
        at_most(b, c),
    ensures
        less(key, c),
{
    if !less(key, c) {
        assert(less(key, c) <==> greater(c, key));
        assert(at_most(b, c) && at_most(c, key));
        assert(less(key, b) <==> greater(b, key));
    }
}

/// A piece of a sorted sequence is sorted.
pub proof fn lemma_subrange_sorted<T: Ord>(s: Seq<T>, from: usize, to: usize)
    requires
        sorted(s),
        from <= to <= s.len(),
    ensures
        sorted(s.subrange(from as int, to as int)),
{
    let sub = s.subrange(from as int, to as int);
    assert forall|i: int, j: int| 0 <= i < j < sub.len() implies at_most(
        #[trigger] sub[i],
        #[trigger] sub[j],
    ) by {
        assert(at_most(s[from + i], s[from + j]));
    }
}

} // verus!
