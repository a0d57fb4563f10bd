//! Integer square root, used to derive envelope peak levels from gains.
//!
//! Amplitudes are fixed-point values in millionths.  The square root of a
//! gain `g` (itself in millionths) in the same scale is `isqrt(g * SCALE)`,
//! so one exact integer square root over values up to `SCALE * SCALE`
//! suffices for the whole engine.

use vstd::prelude::*;

verus! {

/// Fixed-point one: amplitudes, gains and levels are counted in millionths.
pub const SCALE: u64 = 1_000_000;

/// The integer square root, defined by counting up: the largest `r` with
/// `r * r <= x` (and 0 for negative arguments).
pub open spec fn spec_isqrt(x: int) -> int
    decreases x,
{
    if x <= 0 {
        0
    } else {
        let r = spec_isqrt(x - 1);
        if (r + 1) * (r + 1) <= x {
            r + 1
        } else {
            r
        }
    }
}

/// `spec_isqrt(x)` is the number whose square brackets `x`.
pub proof fn lemma_isqrt_bounds(x: int)
    requires
        x >= 0,
    ensures
        spec_isqrt(x) >= 0,
        spec_isqrt(x) * spec_isqrt(x) <= x,
        x < (spec_isqrt(x) + 1) * (spec_isqrt(x) + 1),
    decreases x,
{
    if x == 0 {
    } else {
        lemma_isqrt_bounds(x - 1);
        let r = spec_isqrt(x - 1);
        if (r + 1) * (r + 1) <= x {
            assert(spec_isqrt(x) == r + 1);
            assert(x - 1 < (r + 1) * (r + 1));
            assert(x < (r + 2) * (r + 2)) by (nonlinear_arith)
                requires
                    r >= 0,
                    x <= (r + 1) * (r + 1),
            {
            }
        } else {
            assert(spec_isqrt(x) == r);
        }
    }
}

/// Only one number can have its square bracket `x`, so any witness with the
/// bracketing property equals `spec_isqrt(x)`.
pub proof fn lemma_isqrt_unique(x: int, r: int)
    requires
        x >= 0,
        r >= 0,
        r * r <= x,
        x < (r + 1) * (r + 1),
    ensures
        r == spec_isqrt(x),
{
    lemma_isqrt_bounds(x);
    let s = spec_isqrt(x);
    assert(r == s) by (nonlinear_arith)
        requires
            r >= 0,
            s >= 0,
            r * r <= x,
            x < (r + 1) * (r + 1),
            s * s <= x,
            x < (s + 1) * (s + 1),
    {
    }
}

/// The integer square root of `x`, exact, for `x` up to `SCALE * SCALE`.
pub fn isqrt(x: u64) -> (r: u64)
    requires
        x <= SCALE * SCALE,
    ensures
        r == spec_isqrt(x as int),
        r <= SCALE,
{
    let mut lo: u64 = 0;
    let mut hi: u64 = SCALE + 1;
    proof {
        assert((SCALE + 1) * (SCALE + 1) > SCALE * SCALE) by (nonlinear_arith);
    }
    while lo + 1 < hi
        invariant
            lo < hi,
            hi <= SCALE + 1,
            lo * lo <= x,
            x < hi * hi,
        decreases hi - lo,
    {
        let mid = lo + (hi - lo) / 2;
        proof {
            assert(mid * mid <= SCALE * SCALE) by (nonlinear_arith)
                requires
                    0 <= mid <= SCALE,
            {
            }
        }
        if mid * mid <= x {
            lo = mid;
        } else {
            hi = mid;
        }
    }
    proof {
        lemma_isqrt_unique(x as int, lo as int);
    }
    lo
}

} // verus!
