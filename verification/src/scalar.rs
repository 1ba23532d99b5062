//! Fixed-point scalars: lengths and coordinates are counted in ticks, with
//! `ONE` ticks to the world unit, so that every result is exact and the same
//! on every machine.

use vstd::prelude::*;

verus! {

/// Number of ticks in one world unit.
pub const ONE: i64 = 1_048_576;

/// Half a world unit.
pub const HALF: i64 = 524_288;

/// A quarter of a world unit.
pub const QUARTER: i64 = 262_144;

/// Largest magnitude of a coordinate of a well-formed position.
pub const WORLD_LIMIT: i64 = 1_099_511_627_776;

/// Largest magnitude of a component of a vector that can be normalised:
/// the difference of two well-formed positions always fits.
pub const SPAN_LIMIT: i64 = 2_199_023_255_552;

/// The magnitude of `x`.
pub open spec fn magnitude(x: int) -> int {
    if x < 0 {
        -x
    } else {
        x
    }
}

/// `r` is the square root of `q`, rounded down.
pub open spec fn is_floor_sqrt(r: int, q: int) -> bool {
    0 <= r && r * r <= q < (r + 1) * (r + 1)
}

/// The square root of `q`, rounded down (meaningful for `q >= 0`).
pub open spec fn floor_sqrt(q: int) -> int {
    choose|r: int| #[trigger] is_floor_sqrt(r, q)
}

/// `x` divided by `ONE`, rounded toward zero.
pub open spec fn scale_down(x: int) -> int {
    if x < 0 {
        -((-x) / (ONE as int))
    } else {
        x / (ONE as int)
    }
}

/// Every non-negative integer has a rounded-down square root.
pub proof fn lemma_floor_sqrt_exists(q: int)
    requires
        q >= 0,
    ensures
        exists|r: int| #[trigger] is_floor_sqrt(r, q),
    decreases q,
{
    if q == 0 {
        assert(is_floor_sqrt(0, 0));
    } else {
        lemma_floor_sqrt_exists(q - 1);
        let r = choose|r: int| #[trigger] is_floor_sqrt(r, q - 1);
        if (r + 1) * (r + 1) <= q {
            assert((r + 2) * (r + 2) > (r + 1) * (r + 1)) by (nonlinear_arith)
                requires
                    r >= 0,
            ;
            assert(is_floor_sqrt(r + 1, q));
        } else {
            assert(is_floor_sqrt(r, q));
        }
    }
}

/// A rounded-down square root is unique.
pub proof fn lemma_floor_sqrt_unique(r1: int, r2: int, q: int)
    requires
        is_floor_sqrt(r1, q),
        is_floor_sqrt(r2, q),
    ensures
        r1 == r2,
{
    if r1 < r2 {
        assert((r1 + 1) * (r1 + 1) <= r2 * r2) by (nonlinear_arith)
            requires
                0 <= r1,
                r1 + 1 <= r2,
        ;
    } else if r2 < r1 {
        assert((r2 + 1) * (r2 + 1) <= r1 * r1) by (nonlinear_arith)
            requires
                0 <= r2,
                r2 + 1 <= r1,
        ;
    }
}

/// `floor_sqrt(q)` is the rounded-down square root of `q`.
pub proof fn lemma_floor_sqrt(q: int)
    requires
        q >= 0,
    ensures
        is_floor_sqrt(floor_sqrt(q), q),
{
    lemma_floor_sqrt_exists(q);
}

/// Whatever rounds the square root of `q` down is `floor_sqrt(q)`.
pub proof fn lemma_floor_sqrt_is(r: int, q: int)
    requires
        is_floor_sqrt(r, q),
    ensures
        floor_sqrt(q) == r,
{
    lemma_floor_sqrt_unique(r, floor_sqrt(q), q);
}

/// Converts a whole number of world units to ticks.
pub fn from_units(units: i32) -> (ticks: i64)
    ensures
        ticks == units * ONE,
{
    (units as i64) * ONE
}

/// Divides by `ONE`, rounding toward zero.
pub fn scale_down_i64(x: i64) -> (r: i64)
    ensures
        r == scale_down(x as int),
{
    if x < 0 {
        if x == i64::MIN {
            -8_796_093_022_208
        } else {
            -((-x) / ONE)
        }
    } else {
        x / ONE
    }
}

/// Computes the square root of `q`, rounded down.
pub fn isqrt(q: u64) -> (r: u64)
    ensures
        r == floor_sqrt(q as int),
        r < 0x1_0000_0000,
{
    let mut lo: u64 = 0;
    let mut hi: u64 = 0x1_0000_0000;
    assert(0x1_0000_0000 * 0x1_0000_0000 > q) by (nonlinear_arith)
        requires
            q <= 0xffff_ffff_ffff_ffff,
    ;
    while hi - lo > 1
        invariant
            lo < hi <= 0x1_0000_0000,
            lo * lo <= q < hi * hi,
        decreases hi - lo,
    {
        let mid: u64 = lo + (hi - lo) / 2;
        assert(mid * mid <= 0xffff_ffff * 0xffff_ffff) by (nonlinear_arith)
            requires
                0 <= mid <= 0xffff_ffff,
        ;
        if mid * mid <= q {
            lo = mid;
        } else {
            hi = mid;
        }
    }
    proof {
        assert(hi == lo + 1);
        lemma_floor_sqrt_is(lo as int, q as int);
    }
    lo
}

} // verus!
