//! Shared arithmetic helpers: overflow-checked multiply-divide, the
//! truncating proportional fee, and an integer square root.
//!
//! All helpers are total: a value that cannot be represented exactly is an
//! explicit `Overflow` error, never a silent wraparound.

use vstd::prelude::*;
use vstd::arithmetic::div_mod::*;
use vstd::arithmetic::mul::*;

use crate::errors::Error;

verus! {

/// The proportional fee taken from `amount` at `percent` per cent,
/// truncating: `floor(amount * percent / 100)`.
pub open spec fn fee_amount(amount: int, percent: int) -> int {
    amount * percent / 100
}

/// `r` is the integer square root of `x`: the largest integer whose square
/// does not exceed `x`.
pub open spec fn is_isqrt(x: int, r: int) -> bool {
    0 <= r && r * r <= x && x < (r + 1) * (r + 1)
}

/// The integer square root of `x`, as a spec value.
pub open spec fn isqrt(x: int) -> int
    recommends
        x >= 0,
{
    choose|r: int| is_isqrt(x, r)
}

/// Every non-negative integer has an integer square root, so `isqrt` is
/// well defined.
pub proof fn lemma_isqrt_exists(x: int)
    requires
        x >= 0,
    ensures
        is_isqrt(x, isqrt(x)),
    decreases x,
{
    if x == 0 {
        assert(is_isqrt(0, 0));
    } else {
        lemma_isqrt_exists(x - 1);
        let r = isqrt(x - 1);
        if (r + 1) * (r + 1) <= x {
            assert(x - 1 < (r + 1) * (r + 1));
            assert(x == (r + 1) * (r + 1));
            assert((r + 2) * (r + 2) > x) by (nonlinear_arith)
                requires
                    x == (r + 1) * (r + 1) && r >= 0,
            ;
            assert(is_isqrt(x, r + 1));
        } else {
            assert(is_isqrt(x, r));
        }
    }
    assert(exists|r: int| is_isqrt(x, r));
}

/// The integer square root is unique.
pub proof fn lemma_isqrt_unique(x: int, r1: int, r2: int)
    requires
        is_isqrt(x, r1),
        is_isqrt(x, r2),
    ensures
        r1 == r2,
{
    assert(r1 <= r2) by (nonlinear_arith)
        requires
            0 <= r1 && 0 <= r2 && r1 * r1 <= x && x < (r2 + 1) * (r2 + 1),
    ;
    assert(r2 <= r1) by (nonlinear_arith)
        requires
            0 <= r1 && 0 <= r2 && r2 * r2 <= x && x < (r1 + 1) * (r1 + 1),
    ;
}

/// The largest integer `r` with `r * r <= x`, found by binary search.
pub fn integer_sqrt(x: u128) -> (r: u128)
    ensures
        is_isqrt(x as int, r as int),
        r as int == isqrt(x as int),
{
    let mut lo: u128 = 0;
    let mut hi: u128 = 0x1_0000_0000_0000_0000;
    assert((x as int) < (hi as int) * (hi as int)) by (nonlinear_arith)
        requires
            x <= u128::MAX && hi == 0x1_0000_0000_0000_0000u128,
    ;
    while lo + 1 < hi
        invariant
            lo < hi,
            hi <= 0x1_0000_0000_0000_0000u128,
            (lo as int) * (lo as int) <= x as int,
            (x as int) < (hi as int) * (hi as int),
        decreases hi - lo,
    {
        let mid = lo + (hi - lo) / 2;
        assert(lo < mid && mid < hi);
        assert((mid as int) * (mid as int) <= u128::MAX as int) by (nonlinear_arith)
            requires
                mid < 0x1_0000_0000_0000_0000u128,
        ;
        if mid * mid <= x {
            lo = mid;
        } else {
            hi = mid;
        }
    }
    proof {
        assert(hi == lo + 1);
        lemma_isqrt_exists(x as int);
        lemma_isqrt_unique(x as int, lo as int, isqrt(x as int));
    }
    lo
}

/// The truncating proportional fee on a concrete amount.
pub fn pool_fee_amount(amount: u128, percent: u8) -> (r: u128)
    requires
        percent <= 100,
    ensures
        r as int == fee_amount(amount as int, percent as int),
        r <= amount,
{
    let q = amount / 100;
    let rem = amount % 100;
    let p = percent as u128;
    proof {
        let a = amount as int;
        let pi = percent as int;
        lemma_fundamental_div_mod(a, 100);
        assert((q as int) * pi <= (q as int) * 100) by (nonlinear_arith)
            requires
                pi <= 100 && q >= 0 && pi >= 0,
        ;
        assert((q as int) * 100 <= a) by (nonlinear_arith)
            requires
                q == a / 100 && a >= 0,
        ;
        assert((rem as int) * pi <= 9900) by (nonlinear_arith)
            requires
                rem < 100 && pi <= 100 && rem >= 0 && pi >= 0,
        ;
        // fee = q * p + (rem * p) / 100 equals (amount * p) / 100.
        lemma_hoist_over_denominator((rem as int) * pi, (q as int) * pi, 100);
        assert((rem as int) * pi + (q as int) * pi * 100 == a * pi) by (nonlinear_arith)
            requires
                a == 100 * (q as int) + (rem as int),
        ;
        // fee <= amount, since percent <= 100.
        lemma_mul_inequality(pi, 100, a);
        lemma_div_is_ordered(a * pi, a * 100, 100);
        lemma_div_multiples_vanish(a, 100);
        assert(a * pi <= a * 100) by (nonlinear_arith)
            requires
                pi <= 100 && a >= 0,
        ;
        assert(a * 100 == 100 * a);
        assert(fee_amount(a, pi) <= a);
        assert((rem as int) * pi / 100 <= 99);
    }
    q * p + (rem * p) / 100
}

/// `floor(a * b / c)`, computed through a product wide enough to hold
/// `a * b`; `Overflow` if the product does not fit or `c` is zero.
pub fn mul_div(a: u128, b: u128, c: u128) -> (r: Result<u128, Error>)
    ensures
        match r {
            Ok(v) => (a as int) * (b as int) <= u128::MAX as int && c > 0 && v as int == (a as int)
                * (b as int) / (c as int),
            Err(e) => e == Error::Overflow && ((a as int) * (b as int) > u128::MAX as int || c
                == 0),
        },
{
    match a.checked_mul(b) {
        None => Err(Error::Overflow),
        Some(p) => match p.checked_div(c) {
            None => Err(Error::Overflow),
            Some(v) => {
                proof {
                    lemma_div_pos_is_pos(p as int, c as int);
                }
                Ok(v)
            },
        },
    }
}

} // verus!
