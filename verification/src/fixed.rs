//! Fixed-point arithmetic helpers shared by the simulation modules.
use vstd::prelude::*;

verus! {

/// Number of fixed-point steps in one whole unit: a stored value `v` stands
/// for the quantity `v / SCALE`.
pub const SCALE: i64 = 1_000_000;

/// Largest magnitude a battlefield coordinate or a weapon's base damage may
/// have (10^12 whole units). Inside this bound every intermediate product of
/// the combat rules fits in 128 bits.
pub const MAGNITUDE_LIMIT: i64 = 1_000_000_000_000_000_000;

/// Quotient of `a` by a positive `b`, rounded toward zero.
pub open spec fn trunc_div(a: int, b: int) -> int
    recommends
        b > 0,
{
    if a >= 0 {
        a / b
    } else {
        -((-a) / b)
    }
}

/// `r` is the integer square root of `n`, rounded down.
pub open spec fn is_floor_sqrt(n: int, r: int) -> bool {
    0 <= r && r * r <= n && n < (r + 1) * (r + 1)
}

/// The integer square root of `n`, rounded down.
pub open spec fn floor_sqrt(n: int) -> int {
    choose|r: int| is_floor_sqrt(n, r)
}

/// Squaring is monotone on the non-negative integers.
pub proof fn lemma_square_monotone(a: int, b: int)
    requires
        0 <= a <= b,
    ensures
        a * a <= b * b,
{
    assert(a * a <= b * b) by (nonlinear_arith)
        requires
            0 <= a <= b,
    ;
}

/// A number has at most one rounded-down square root.
pub proof fn lemma_floor_sqrt_unique(n: int, a: int, b: int)
    requires
        is_floor_sqrt(n, a),
        is_floor_sqrt(n, b),
    ensures
        a == b,
{
    if a < b {
        lemma_square_monotone(a + 1, b);
    } else if b < a {
        lemma_square_monotone(b + 1, a);
    }
}

/// Any witness of the rounded-down square root is the value of `floor_sqrt`.
pub proof fn lemma_floor_sqrt_is(n: int, r: int)
    requires
        is_floor_sqrt(n, r),
    ensures
        floor_sqrt(n) == r,
{
    lemma_floor_sqrt_unique(n, r, floor_sqrt(n));
}

/// Integer square root, rounded down, by bisection.
pub fn isqrt(n: u128) -> (r: u64)
    ensures
        is_floor_sqrt(n as int, r as int),
        r as int == floor_sqrt(n as int),
{
    let mut lo: u128 = 0;
    let mut hi: u128 = 0x1_0000_0000_0000_0000;
    proof {
        assert((hi as int) * (hi as int) > n as int) by (nonlinear_arith)
            requires
                hi == 0x1_0000_0000_0000_0000,
                n <= 0xffff_ffff_ffff_ffff_ffff_ffff_ffff_ffff,
        ;
    }
    while hi - lo > 1
        invariant
            lo < hi <= 0x1_0000_0000_0000_0000,
            (lo as int) * (lo as int) <= n as int,
            (n as int) < (hi as int) * (hi as int),
        decreases hi - lo,
    {
        let mid: u128 = lo + (hi - lo) / 2;
        proof {
            assert((mid as int) * (mid as int) <= 0xffff_ffff_ffff_ffff_ffff_ffff_ffff_ffff)
                by (nonlinear_arith)
                requires
                    0 <= mid <= 0xffff_ffff_ffff_ffff,
            ;
        }
        if mid * mid <= n {
            lo = mid;
        } else {
            hi = mid;
        }
    }
    proof {
        assert(hi == lo + 1);
        lemma_floor_sqrt_is(n as int, lo as int);
    }
    lo as u64
}

/// A displacement scaled by a fraction `step / dist` of at most one keeps
/// its direction and does not grow.
pub proof fn lemma_scaled_step_bounded(step: int, delta: int, dist: int)
    requires
        0 < step <= dist,
    ensures
        delta >= 0 ==> 0 <= trunc_div(step * delta, dist) <= delta,
        delta <= 0 ==> delta <= trunc_div(step * delta, dist) <= 0,
{
    if delta >= 0 {
        assert(0 <= step * delta <= dist * delta) by (nonlinear_arith)
            requires
                0 < step <= dist,
                delta >= 0,
        ;
        assert(0 <= (step * delta) / dist <= delta) by (nonlinear_arith)
            requires
                0 <= step * delta <= dist * delta,
                dist > 0,
        ;
    } else {
        let m = -delta;
        assert(step * delta == -(step * m)) by (nonlinear_arith)
            requires
                m == -delta,
        ;
        assert(0 <= step * m <= dist * m) by (nonlinear_arith)
            requires
                0 < step <= dist,
                m >= 0,
        ;
        assert(0 <= (step * m) / dist <= m) by (nonlinear_arith)
            requires
                0 <= step * m <= dist * m,
                dist > 0,
        ;
        if step * delta >= 0 {
            assert(step * m == 0);
            assert(0int / dist == 0) by (nonlinear_arith)
                requires
                    dist > 0,
            ;
        }
    }
}

/// `a * b / d` rounded toward zero, for a positive divisor.
pub fn mul_div(a: i64, b: i64, d: i64) -> (r: i128)
    requires
        d > 0,
    ensures
        r == trunc_div(a as int * b as int, d as int),
{
    proof {
        assert(-0x4000_0000_0000_0000_0000_0000_0000_0000 <= a as int * b as int
            <= 0x4000_0000_0000_0000_0000_0000_0000_0000) by (nonlinear_arith)
            requires
                -0x8000_0000_0000_0000 <= a < 0x8000_0000_0000_0000,
                -0x8000_0000_0000_0000 <= b < 0x8000_0000_0000_0000,
        ;
    }
    let p: i128 = (a as i128) * (b as i128);
    p / (d as i128)
}

} // verus!
