//! The integer square root, found by a range search.

use crate::range_search::{binary_search_range, rejects};
use vstd::prelude::*;

verus! {

/// `r` is the floor of the square root of `v`.
pub open spec fn is_floor_sqrt(v: int, r: int) -> bool {
    0 <= r && r * r <= v < (r + 1) * (r + 1)
}

/// No two numbers are the floor of the square root of one `v`.
pub proof fn lemma_floor_sqrt_unique(v: int, r1: int, r2: int)
    requires
        is_floor_sqrt(v, r1),
        is_floor_sqrt(v, r2),
    ensures
        r1 == r2,
{
    if r1 < r2 {
        assert((r1 + 1) * (r1 + 1) <= r2 * r2) by (nonlinear_arith)
            requires
                0 <= r1 + 1 <= r2,
        ;
    } else if r2 < r1 {
        assert((r2 + 1) * (r2 + 1) <= r1 * r1) by (nonlinear_arith)
            requires
                0 <= r2 + 1 <= r1,
        ;
    }
}

/// Whether the square of `x` is at most `v`, computed without overflow.
pub fn square_at_most(x: u64, v: u64) -> (b: bool)
    ensures
        b == (x * x <= v),
{
    assert(x * x <= u64::MAX * u64::MAX) by (nonlinear_arith)
        requires
            0 <= x <= u64::MAX,
    ;
    (x as u128) * (x as u128) <= (v as u128)
}

/// The floor of the square root of `v`: the largest `r` whose square is at
/// most `v`.
pub fn sqrt(v: u64) -> (r: u64)
    ensures
        is_floor_sqrt(v as int, r as int),
{
    let high: u64 = if v < u64::MAX {
        v + 1
    } else {
        v
    };
    let pred = |x: u64| -> (b: bool)
        ensures
            b == (x * x <= v),
        { square_at_most(x, v) };
    let found = binary_search_range(0, high, pred);
    proof {
        match found {
            Some(r) => {
                if r + 1 < high {
                    let z = choose|z: u64| z == r + 1 && rejects(pred, z);
                    assert(rejects(pred, z));
                } else if v < u64::MAX {
                    assert((r + 1) * (r + 1) > v) by (nonlinear_arith)
                        requires
                            r == v,
                            r >= 0,
                    ;
                } else {
                    assert(r * r > v) by (nonlinear_arith)
                        requires
                            r == 0xffff_ffff_ffff_fffe,
                            v == 0xffff_ffff_ffff_ffff,
                    ;
                }
            },
            None => {
                let z = choose|z: u64| z == 0 && rejects(pred, z);
                assert(rejects(pred, z));
            },
        }
    }
    found.unwrap()
}

} // verus!
