//! Rounding helpers for sizes.

use vstd::prelude::*;

verus! {

/// The least multiple of `rhs` that is at least `lhs`.
pub fn next_multiple_of(lhs: usize, rhs: usize) -> (r: usize)
    requires
        rhs > 0,
        lhs % rhs == 0 || lhs + (rhs - lhs % rhs) <= usize::MAX,
    ensures
        r % rhs == 0,
        lhs <= r < lhs + rhs,
{
    let rem = lhs % rhs;
    if rem == 0 {
        lhs
    } else {
        let r = lhs + (rhs - rem);
        assert(r % rhs == 0) by (nonlinear_arith)
            requires
                rem == lhs % rhs,
                r == lhs + (rhs - rem),
                rhs > 0,
        {
            assert(lhs == rhs * (lhs / rhs) + rem);
            assert(r == rhs * (lhs / rhs + 1));
        }
        r
    }
}

/// `lhs / rhs` rounded up.
pub fn div_ceil(lhs: usize, rhs: usize) -> (r: usize)
    requires
        rhs > 0,
    ensures
        r * rhs >= lhs,
        r * rhs < lhs + rhs,
{
    let d = lhs / rhs;
    let rem = lhs % rhs;
    assert(lhs == d * rhs + rem && 0 <= rem < rhs) by (nonlinear_arith)
        requires
            d == lhs / rhs,
            rem == lhs % rhs,
            rhs > 0,
    ;
    if rem > 0 {
        assert((d + 1) * rhs == d * rhs + rhs) by (nonlinear_arith);
        assert(d + 1 <= usize::MAX) by (nonlinear_arith)
            requires
                lhs == d * rhs + rem,
                rem > 0,
                rhs > 0,
                lhs <= usize::MAX,
        {
            assert(d * rhs <= lhs);
            assert(d <= d * rhs);
        }
        d + 1
    } else {
        d
    }
}

} // verus!
