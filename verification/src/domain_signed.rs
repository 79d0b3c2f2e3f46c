//! The signed integers as search domains.

use crate::domain::SearchDomain;
use vstd::prelude::*;

verus! {

/// `num::One::one` for `i8`: the constant 1.
#[verifier::external_body]
fn one_i8() -> (r: i8)
    ensures
        r == 1,
{
    num::One::one()
}

/// `num::FromPrimitive::from_u64` for `i8`: the same number where it fits
/// in an `i8`, and nothing where it does not.
#[verifier::external_body]
fn i8_from_u64(n: u64) -> (r: Option<i8>)
    ensures
        r.is_some() <==> n <= i8::MAX,
        r matches Some(x) ==> x == n,
{
    num::FromPrimitive::from_u64(n)
}

impl SearchDomain for i8 {
    open spec fn value(self) -> int {
        self as int
    }

    open spec fn representable(v: int) -> bool {
        i8::MIN <= v <= i8::MAX
    }

    proof fn lemma_value_representable(self) {
    }

    proof fn lemma_between(lo: int, hi: int, v: int) {
    }

    proof fn lemma_small_representable() {
    }

    fn one() -> (r: Self) {
        one_i8()
    }

    fn from_u64(n: u64) -> (r: Option<Self>) {
        i8_from_u64(n)
    }

    fn plus(self, rhs: Self) -> (r: Self) {
        self + rhs
    }

    fn minus(self, rhs: Self) -> (r: Self) {
        self - rhs
    }

    fn divided_by(self, rhs: Self) -> (r: Self) {
        self / rhs
    }

    fn less_than(self, rhs: Self) -> (r: bool) {
        self < rhs
    }
}

/// `num::One::one` for `i16`: the constant 1.
#[verifier::external_body]
fn one_i16() -> (r: i16)
    ensures
        r == 1,
{
    num::One::one()
}

/// `num::FromPrimitive::from_u64` for `i16`: the same number where it fits
/// in an `i16`, and nothing where it does not.
#[verifier::external_body]
fn i16_from_u64(n: u64) -> (r: Option<i16>)
    ensures
        r.is_some() <==> n <= i16::MAX,
        r matches Some(x) ==> x == n,
{
    num::FromPrimitive::from_u64(n)
}

impl SearchDomain for i16 {
    open spec fn value(self) -> int {
        self as int
    }

    open spec fn representable(v: int) -> bool {
        i16::MIN <= v <= i16::MAX
    }

    proof fn lemma_value_representable(self) {
    }

    proof fn lemma_between(lo: int, hi: int, v: int) {
    }

    proof fn lemma_small_representable() {
    }

    fn one() -> (r: Self) {
        one_i16()
    }

    fn from_u64(n: u64) -> (r: Option<Self>) {
        i16_from_u64(n)
    }

    fn plus(self, rhs: Self) -> (r: Self) {
        self + rhs
    }

    fn minus(self, rhs: Self) -> (r: Self) {
        self - rhs
    }

    fn divided_by(self, rhs: Self) -> (r: Self) {
        self / rhs
    }

    fn less_than(self, rhs: Self) -> (r: bool) {
        self < rhs
    }
}

/// `num::One::one` for `i32`: the constant 1.
#[verifier::external_body]
fn one_i32() -> (r: i32)
    ensures
        r == 1,
{
    num::One::one()
}

/// `num::FromPrimitive::from_u64` for `i32`: the same number where it fits
/// in an `i32`, and nothing where it does not.
#[verifier::external_body]
fn i32_from_u64(n: u64) -> (r: Option<i32>)
    ensures
        r.is_some() <==> n <= i32::MAX,
        r matches Some(x) ==> x == n,
{
    num::FromPrimitive::from_u64(n)
}

impl SearchDomain for i32 {
    open spec fn value(self) -> int {
        self as int
    }

    open spec fn representable(v: int) -> bool {
        i32::MIN <= v <= i32::MAX
    }

    proof fn lemma_value_representable(self) {
    }

    proof fn lemma_between(lo: int, hi: int, v: int) {
    }

    proof fn lemma_small_representable() {
    }

    fn one() -> (r: Self) {
        one_i32()
    }

    fn from_u64(n: u64) -> (r: Option<Self>) {
        i32_from_u64(n)
    }

    fn plus(self, rhs: Self) -> (r: Self) {
        self + rhs
    }

    fn minus(self, rhs: Self) -> (r: Self) {
        self - rhs
    }

    fn divided_by(self, rhs: Self) -> (r: Self) {
        self / rhs
    }

    fn less_than(self, rhs: Self) -> (r: bool) {
        self < rhs
    }
}

/// `num::One::one` for `i64`: the constant 1.
#[verifier::external_body]
fn one_i64() -> (r: i64)
    ensures
        r == 1,
{
    num::One::one()
}

/// `num::FromPrimitive::from_u64` for `i64`: the same number where it fits
/// in an `i64`, and nothing where it does not.
#[verifier::external_body]
fn i64_from_u64(n: u64) -> (r: Option<i64>)
    ensures
        r.is_some() <==> n <= i64::MAX,
        r matches Some(x) ==> x == n,
{
    num::FromPrimitive::from_u64(n)
}

impl SearchDomain for i64 {
    open spec fn value(self) -> int {
        self as int
    }

    open spec fn representable(v: int) -> bool {
        i64::MIN <= v <= i64::MAX
    }

    proof fn lemma_value_representable(self) {
    }

    proof fn lemma_between(lo: int, hi: int, v: int) {
    }

    proof fn lemma_small_representable() {
    }

    fn one() -> (r: Self) {
        one_i64()
    }

    fn from_u64(n: u64) -> (r: Option<Self>) {
        i64_from_u64(n)
    }

    fn plus(self, rhs: Self) -> (r: Self) {
        self + rhs
    }

    fn minus(self, rhs: Self) -> (r: Self) {
        self - rhs
    }

    fn divided_by(self, rhs: Self) -> (r: Self) {
        self / rhs
    }

    fn less_than(self, rhs: Self) -> (r: bool) {
        self < rhs
    }
}

/// `num::One::one` for `i128`: the constant 1.
#[verifier::external_body]
fn one_i128() -> (r: i128)
    ensures
        r == 1,
{
    num::One::one()
}

/// `num::FromPrimitive::from_u64` for `i128`: every `u64` fits in an `i128` and
/// converts to the same number.
#[verifier::external_body]
fn i128_from_u64(n: u64) -> (r: Option<i128>)
    ensures
        r == Some(n as i128),
{
    num::FromPrimitive::from_u64(n)
}

impl SearchDomain for i128 {
    open spec fn value(self) -> int {
        self as int
    }

    open spec fn representable(v: int) -> bool {
        i128::MIN <= v <= i128::MAX
    }

    proof fn lemma_value_representable(self) {
    }

    proof fn lemma_between(lo: int, hi: int, v: int) {
    }

    proof fn lemma_small_representable() {
    }

    fn one() -> (r: Self) {
        one_i128()
    }

    fn from_u64(n: u64) -> (r: Option<Self>) {
        i128_from_u64(n)
    }

    fn plus(self, rhs: Self) -> (r: Self) {
        self + rhs
    }

    fn minus(self, rhs: Self) -> (r: Self) {
        self - rhs
    }

    fn divided_by(self, rhs: Self) -> (r: Self) {
        self / rhs
    }

    fn less_than(self, rhs: Self) -> (r: bool) {
        self < rhs
    }
}

/// `num::One::one` for `isize`: the constant 1.
#[verifier::external_body]
fn one_isize() -> (r: isize)
    ensures
        r == 1,
{
    num::One::one()
}

/// `num::FromPrimitive::from_u64` for `isize`: the same number where it fits
/// in an `isize`, and nothing where it does not.
#[verifier::external_body]
fn isize_from_u64(n: u64) -> (r: Option<isize>)
    ensures
        r.is_some() <==> n <= isize::MAX,
        r matches Some(x) ==> x == n,
{
    num::FromPrimitive::from_u64(n)
}

impl SearchDomain for isize {
    open spec fn value(self) -> int {
        self as int
    }

    open spec fn representable(v: int) -> bool {
        isize::MIN <= v <= isize::MAX
    }

    proof fn lemma_value_representable(self) {
    }

    proof fn lemma_between(lo: int, hi: int, v: int) {
    }

    proof fn lemma_small_representable() {
    }

    fn one() -> (r: Self) {
        one_isize()
    }

    fn from_u64(n: u64) -> (r: Option<Self>) {
        isize_from_u64(n)
    }

    fn plus(self, rhs: Self) -> (r: Self) {
        self + rhs
    }

    fn minus(self, rhs: Self) -> (r: Self) {
        self - rhs
    }

    fn divided_by(self, rhs: Self) -> (r: Self) {
        self / rhs
    }

    fn less_than(self, rhs: Self) -> (r: bool) {
        self < rhs
    }
}

} // verus!
