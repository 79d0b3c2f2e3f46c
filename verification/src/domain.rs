//! The numeric types that a range search can bisect.

use vstd::prelude::*;

verus! {

/// A numeric type whose values stand for integers, with the arithmetic that
/// bisecting a range needs: the value one, small constants, sum, difference,
/// quotient and the strict order.
pub trait SearchDomain: Copy + Sized {
    /// The integer that a value stands for.
    spec fn value(self) -> int;

    /// Whether some value of the type stands for `v`.
    spec fn representable(v: int) -> bool;

    /// Every value stands for a representable integer.
    proof fn lemma_value_representable(self)
        ensures
            Self::representable(self.value()),
    ;

    /// The representable integers have no gaps.
    proof fn lemma_between(lo: int, hi: int, v: int)
        requires
            Self::representable(lo),
            Self::representable(hi),
            lo <= v <= hi,
        ensures
            Self::representable(v),
    ;

    /// The step and the divisor of a bisection are representable.
    proof fn lemma_small_representable()
        ensures
            Self::representable(1),
            Self::representable(2),
    ;

    /// The multiplicative identity.
    fn one() -> (r: Self)
        ensures
            r.value() == 1,
    ;

    /// The value that stands for `n`, where there is one.
    fn from_u64(n: u64) -> (r: Option<Self>)
        ensures
            r.is_some() <==> Self::representable(n as int),
            r matches Some(x) ==> x.value() == n,
    ;

    /// The sum of two values.
    fn plus(self, rhs: Self) -> (r: Self)
        requires
            Self::representable(self.value() + rhs.value()),
        ensures
            r.value() == self.value() + rhs.value(),
    ;

    /// The difference of two values.
    fn minus(self, rhs: Self) -> (r: Self)
        requires
            Self::representable(self.value() - rhs.value()),
        ensures
            r.value() == self.value() - rhs.value(),
    ;

    /// The quotient of a value that is not negative by a positive one,
    /// rounded down.
    fn divided_by(self, rhs: Self) -> (r: Self)
        requires
            self.value() >= 0,
            rhs.value() > 0,
        ensures
            r.value() == self.value() / rhs.value(),
    ;

    /// Whether `self` stands for a smaller integer than `rhs`.
    fn less_than(self, rhs: Self) -> (r: bool)
        ensures
            r == (self.value() < rhs.value()),
    ;
}

/// `num::One::one` for `u64`: the constant 1.
#[verifier::external_body]
fn one_u64() -> (r: u64)
    ensures
        r == 1,
{
    num::One::one()
}

/// `num::FromPrimitive::from_u64` for `u64`: every `u64` converts to itself.
#[verifier::external_body]
fn u64_from_u64(n: u64) -> (r: Option<u64>)
    ensures
        r == Some(n),
{
    num::FromPrimitive::from_u64(n)
}

/// `num::One::one` for `usize`: the constant 1.
#[verifier::external_body]
fn one_usize() -> (r: usize)
    ensures
        r == 1,
{
    num::One::one()
}

/// `num::FromPrimitive::from_u64` for `usize`: the same number where it fits
/// in a `usize`, and nothing where it does not.
#[verifier::external_body]
fn usize_from_u64(n: u64) -> (r: Option<usize>)
    ensures
        r.is_some() <==> n <= usize::MAX,
        r matches Some(x) ==> x == n,
{
    num::FromPrimitive::from_u64(n)
}

impl SearchDomain for u64 {
    open spec fn value(self) -> int {
        self as int
    }

    open spec fn representable(v: int) -> bool {
        0 <= v <= u64::MAX
    }

    proof fn lemma_value_representable(self) {
    }

    proof fn lemma_between(lo: int, hi: int, v: int) {
    }

    proof fn lemma_small_representable() {
    }

    fn one() -> (r: Self) {
        one_u64()
    }

    fn from_u64(n: u64) -> (r: Option<Self>) {
        u64_from_u64(n)
    }

    fn plus(self, rhs: Self) -> (r: Self) {
        self + rhs
    }

    fn minus(self, rhs: Self) -> (r: Self) {
        self - rhs
    }

    fn divided_by(self, rhs: Self) -> (r: Self) {
        self / rhs
    }

    fn less_than(self, rhs: Self) -> (r: bool) {
        self < rhs
    }
}

impl SearchDomain for usize {
    open spec fn value(self) -> int {
        self as int
    }

    open spec fn representable(v: int) -> bool {
        0 <= v <= usize::MAX
    }

    proof fn lemma_value_representable(self) {
    }

    proof fn lemma_between(lo: int, hi: int, v: int) {
    }

    proof fn lemma_small_representable() {
    }

    fn one() -> (r: Self) {
        one_usize()
    }

    fn from_u64(n: u64) -> (r: Option<Self>) {
        usize_from_u64(n)
    }

    fn plus(self, rhs: Self) -> (r: Self) {
        self + rhs
    }

    fn minus(self, rhs: Self) -> (r: Self) {
        self - rhs
    }

    fn divided_by(self, rhs: Self) -> (r: Self) {
        self / rhs
    }

    fn less_than(self, rhs: Self) -> (r: bool) {
        self < rhs
    }
}

} // verus!
