//! The other unsigned integers as search domains.

use crate::domain::SearchDomain;
use vstd::prelude::*;

verus! {

/// `num::One::one` for `u8`: the constant 1.
#[verifier::external_body]
fn one_u8() -> (r: u8)
    ensures
        r == 1,
{
    num::One::one()
}

/// `num::FromPrimitive::from_u64` for `u8`: the same number where it fits
/// in a `u8`, and nothing where it does not.
#[verifier::external_body]
fn u8_from_u64(n: u64) -> (r: Option<u8>)
    ensures
        r.is_some() <==> n <= u8::MAX,
        r matches Some(x) ==> x == n,
{
    num::FromPrimitive::from_u64(n)
}

impl SearchDomain for u8 {
    open spec fn value(self) -> int {
        self as int
    }

    open spec fn representable(v: int) -> bool {
        0 <= v <= u8::MAX
    }

    proof fn lemma_value_representable(self) {
    }

    proof fn lemma_between(lo: int, hi: int, v: int) {
    }

    proof fn lemma_small_representable() {
    }

    fn one() -> (r: Self) {
        one_u8()
    }

    fn from_u64(n: u64) -> (r: Option<Self>) {
        u8_from_u64(n)
    }

    fn plus(self, rhs: Self) -> (r: Self) {
        self + rhs
    }

    fn minus(self, rhs: Self) -> (r: Self) {
        self - rhs
    }

    fn divided_by(self, rhs: Self) -> (r: Self) {
        self / rhs
    }

    fn less_than(self, rhs: Self) -> (r: bool) {
        self < rhs
    }
}

/// `num::One::one` for `u16`: the constant 1.
#[verifier::external_body]
fn one_u16() -> (r: u16)
    ensures
        r == 1,
{
    num::One::one()
}

/// `num::FromPrimitive::from_u64` for `u16`: the same number where it fits
/// in a `u16`, and nothing where it does not.
#[verifier::external_body]
fn u16_from_u64(n: u64) -> (r: Option<u16>)
    ensures
        r.is_some() <==> n <= u16::MAX,
        r matches Some(x) ==> x == n,
{
    num::FromPrimitive::from_u64(n)
}

impl SearchDomain for u16 {
    open spec fn value(self) -> int {
        self as int
    }

    open spec fn representable(v: int) -> bool {
        0 <= v <= u16::MAX
    }

    proof fn lemma_value_representable(self) {
    }

    proof fn lemma_between(lo: int, hi: int, v: int) {
    }

    proof fn lemma_small_representable() {
    }

    fn one() -> (r: Self) {
        one_u16()
    }

    fn from_u64(n: u64) -> (r: Option<Self>) {
        u16_from_u64(n)
    }

    fn plus(self, rhs: Self) -> (r: Self) {
        self + rhs
    }

    fn minus(self, rhs: Self) -> (r: Self) {
        self - rhs
    }

    fn divided_by(self, rhs: Self) -> (r: Self) {
        self / rhs
    }

    fn less_than(self, rhs: Self) -> (r: bool) {
        self < rhs
    }
}

/// `num::One::one` for `u32`: the constant 1.
#[verifier::external_body]
fn one_u32() -> (r: u32)
    ensures
        r == 1,
{
    num::One::one()
}

/// `num::FromPrimitive::from_u64` for `u32`: the same number where it fits
/// in a `u32`, and nothing where it does not.
#[verifier::external_body]
fn u32_from_u64(n: u64) -> (r: Option<u32>)
    ensures
        r.is_some() <==> n <= u32::MAX,
        r matches Some(x) ==> x == n,
{
    num::FromPrimitive::from_u64(n)
}

impl SearchDomain for u32 {
    open spec fn value(self) -> int {
        self as int
    }

    open spec fn representable(v: int) -> bool {
        0 <= v <= u32::MAX
    }

    proof fn lemma_value_representable(self) {
    }

    proof fn lemma_between(lo: int, hi: int, v: int) {
    }

    proof fn lemma_small_representable() {
    }

    fn one() -> (r: Self) {
        one_u32()
    }

    fn from_u64(n: u64) -> (r: Option<Self>) {
        u32_from_u64(n)
    }

    fn plus(self, rhs: Self) -> (r: Self) {
        self + rhs
    }

    fn minus(self, rhs: Self) -> (r: Self) {
        self - rhs
    }

    fn divided_by(self, rhs: Self) -> (r: Self) {
        self / rhs
    }

    fn less_than(self, rhs: Self) -> (r: bool) {
        self < rhs
    }
}

/// `num::One::one` for `u128`: the constant 1.
#[verifier::external_body]
fn one_u128() -> (r: u128)
    ensures
        r == 1,
{
    num::One::one()
}

/// `num::FromPrimitive::from_u64` for `u128`: every `u64` fits in a `u128` and
/// converts to the same number.
#[verifier::external_body]
fn u128_from_u64(n: u64) -> (r: Option<u128>)
    ensures
        r == Some(n as u128),
{
    num::FromPrimitive::from_u64(n)
}

impl SearchDomain for u128 {
    open spec fn value(self) -> int {
        self as int
    }

    open spec fn representable(v: int) -> bool {
        0 <= v <= u128::MAX
    }

    proof fn lemma_value_representable(self) {
    }

    proof fn lemma_between(lo: int, hi: int, v: int) {
    }

    proof fn lemma_small_representable() {
    }

    fn one() -> (r: Self) {
        one_u128()
    }

    fn from_u64(n: u64) -> (r: Option<Self>) {
        u128_from_u64(n)
    }

    fn plus(self, rhs: Self) -> (r: Self) {
        self + rhs
    }

    fn minus(self, rhs: Self) -> (r: Self) {
        self - rhs
    }

    fn divided_by(self, rhs: Self) -> (r: Self) {
        self / rhs
    }

    fn less_than(self, rhs: Self) -> (r: bool) {
        self < rhs
    }
}

} // verus!
