//! Fixed-point scalar arithmetic: truncating division, saturation at the
//! representable range, integer square root, clamping and interpolation.
//!
//! One world unit is `SCALE` micro-units. Every stored scalar is kept in
//! `[-CAP, CAP]`; intermediate products are computed in `i128`, which cannot
//! overflow for operands in that range, and results are saturated back.
use vstd::prelude::*;

verus! {

/// Number of micro-units in one world unit.
pub const SCALE: i64 = 1_000_000;

/// Largest magnitude a stored scalar may take, in micro-units.
pub const CAP: i64 = 1_000_000_000_000_000;

/// Division that truncates toward zero (the behaviour of `/` on hardware
/// integers), defined for positive divisors.
pub open spec fn sdiv(a: int, b: int) -> int {
    if a >= 0 {
        a / b
    } else {
        -((-a) / b)
    }
}

/// `v` saturated into `[-CAP, CAP]`.
pub open spec fn cap_val(v: int) -> int {
    if v < -CAP {
        -CAP as int
    } else if v > CAP {
        CAP as int
    } else {
        v
    }
}

/// `v` clamped into `[lo, hi]`.
pub open spec fn clamp_val(v: int, lo: int, hi: int) -> int {
    if v < lo {
        lo
    } else if v > hi {
        hi
    } else {
        v
    }
}

/// Clamp `v` into the closed interval `[lo, hi]`.
pub fn clamp(v: i64, lo: i64, hi: i64) -> (r: i64)
    requires
        lo <= hi,
    ensures
        r == clamp_val(v as int, lo as int, hi as int),
{
    if v < lo {
        lo
    } else if v > hi {
        hi
    } else {
        v
    }
}

/// Saturate a wide intermediate value into the stored range.
pub fn cap_i128(v: i128) -> (r: i64)
    ensures
        r == cap_val(v as int),
{
    if v < -CAP as i128 {
        -CAP
    } else if v > CAP as i128 {
        CAP
    } else {
        v as i64
    }
}

/// Truncating division on wide intermediates, matching `sdiv`; the result
/// never exceeds the dividend in magnitude.
pub fn div_trunc(a: i128, b: i128) -> (r: i128)
    requires
        b > 0,
        a > i128::MIN,
    ensures
        r == sdiv(a as int, b as int),
        a >= 0 ==> 0 <= r <= a,
        a < 0 ==> a <= r <= 0,
{
    if a >= 0 {
        let q: u128 = (a as u128) / (b as u128);
        proof {
            vstd::arithmetic::div_mod::lemma_div_is_ordered_by_denominator(
                a as int,
                1,
                b as int,
            );
            vstd::arithmetic::div_mod::lemma_div_basics(b as int);
        }
        q as i128
    } else {
        let q: u128 = ((-a) as u128) / (b as u128);
        assert(q <= (-a) as u128) by {
            assert((-a) as u128 / (b as u128) <= (-a) as u128) by (nonlinear_arith)
                requires
                    b > 0,
                    a < 0,
            ;
        }
        -(q as i128)
    }
}

/// `a * b / SCALE` on wide intermediates already bounded by the collision
/// pass (a separation distance and a scaled direction component).
pub fn mul_sdiv_scale(a: i128, b: i128) -> (r: i128)
    requires
        -2_000_000_000_000_000 <= a <= 2_000_000_000_000_000,
        -4_000_000_000_000_000_000_000 <= b <= 4_000_000_000_000_000_000_000,
    ensures
        r == sdiv(a as int * b as int, SCALE as int),
        -8_000_000_000_000_000_000_000_000_000_000_000_000 <= r
            <= 8_000_000_000_000_000_000_000_000_000_000_000_000,
{
    proof {
        assert(a as int * b as int <= 2_000_000_000_000_000 * 4_000_000_000_000_000_000_000
            && a as int * b as int >= -(2_000_000_000_000_000 * 4_000_000_000_000_000_000_000))
            by (nonlinear_arith)
            requires
                -2_000_000_000_000_000 <= a as int <= 2_000_000_000_000_000,
                -4_000_000_000_000_000_000_000 <= b as int <= 4_000_000_000_000_000_000_000,
        ;
    }
    let p: i128 = a * b;
    div_trunc(p, SCALE as i128)
}

/// `v` clamped below at zero and saturated above at `CAP` (the form every
/// energy update takes).
pub open spec fn clamp0cap(v: int) -> int {
    if v < 0 {
        0
    } else if v > CAP {
        CAP as int
    } else {
        v
    }
}

/// Clamp a wide intermediate into `[0, CAP]`.
pub fn clamp0cap_i128(v: i128) -> (r: i64)
    ensures
        r == clamp0cap(v as int),
{
    if v < 0 {
        0
    } else if v > CAP as i128 {
        CAP
    } else {
        v as i64
    }
}

/// Exact product of two machine scalars, computed wide.
pub fn mul_i128(a: i64, b: i64) -> (r: i128)
    ensures
        r == a as int * b as int,
        -0x4000_0000_0000_0000_0000_0000_0000_0000 <= r
            <= 0x4000_0000_0000_0000_0000_0000_0000_0000,
{
    proof {
        assert((a as int) * (b as int) <= 0x8000_0000_0000_0000 * 0x8000_0000_0000_0000
            && (a as int) * (b as int) >= -(0x8000_0000_0000_0000 * 0x8000_0000_0000_0000))
            by (nonlinear_arith)
            requires
                -0x8000_0000_0000_0000 <= a as int <= 0x7fff_ffff_ffff_ffff,
                -0x8000_0000_0000_0000 <= b as int <= 0x7fff_ffff_ffff_ffff,
        ;
    }
    (a as i128) * (b as i128)
}

/// `a + b`, saturated.
pub fn add_cap(a: i64, b: i64) -> (r: i64)
    ensures
        r == cap_val(a + b),
{
    cap_i128(a as i128 + b as i128)
}

/// `a * b / d` with truncating division, saturated.
pub fn mul_div_cap(a: i64, b: i64, d: i64) -> (r: i64)
    requires
        d > 0,
    ensures
        r == cap_val(sdiv(a as int * b as int, d as int)),
{
    let p: i128 = mul_i128(a, b);
    let q = div_trunc(p, d as i128);
    cap_i128(q)
}

/// A magnitude bound on the dividend carries to truncating division.
pub proof fn lemma_sdiv_magnitude(a: int, b: int, m: int)
    requires
        b >= 1,
        0 <= m,
        -m <= a <= m,
    ensures
        -(m / b) <= sdiv(a, b) <= m / b,
{
    vstd::arithmetic::div_mod::lemma_div_pos_is_pos(m, b);
    if a >= 0 {
        vstd::arithmetic::div_mod::lemma_div_is_ordered(a, m, b);
        vstd::arithmetic::div_mod::lemma_div_pos_is_pos(a, b);
    } else {
        vstd::arithmetic::div_mod::lemma_div_is_ordered(-a, m, b);
        vstd::arithmetic::div_mod::lemma_div_pos_is_pos(-a, b);
    }
}

/// Linear interpolation from `a` to `b` by the fraction `t` (in micro-units,
/// clamped to `[0, SCALE]`), saturated.
pub open spec fn lerp_spec(a: int, b: int, t: int) -> int {
    cap_val(a + sdiv((b - a) * clamp_val(t, 0, SCALE as int), SCALE as int))
}

/// Linear interpolation between two bounded scalars.
pub fn lerp(a: i64, b: i64, t: i64) -> (r: i64)
    requires
        -CAP <= a <= CAP,
        -CAP <= b <= CAP,
    ensures
        r == lerp_spec(a as int, b as int, t as int),
{
    let tc = clamp(t, 0, SCALE);
    proof {
        assert((b as int - a as int) * (tc as int) <= 2 * (CAP as int) * (SCALE as int)
            && (b as int - a as int) * (tc as int) >= -(2 * (CAP as int) * (SCALE as int)))
            by (nonlinear_arith)
            requires
                -2 * (CAP as int) <= b as int - a as int <= 2 * (CAP as int),
                0 <= tc as int <= SCALE as int,
        ;
    }
    let diff: i128 = (b as i128 - a as i128) * (tc as i128);
    let q = div_trunc(diff, SCALE as i128);
    cap_i128(a as i128 + q)
}

/// Smoothstep interpolation: the cubic `t * t * (3 - 2 * t)` of the clamped
/// normalized position of `x` between the edges, in micro-units.
pub open spec fn smoothstep_spec(edge0: int, edge1: int, x: int) -> int {
    let t = clamp_val(sdiv((x - edge0) * SCALE, edge1 - edge0), 0, SCALE as int);
    sdiv(t * t * (3 * SCALE - 2 * t), SCALE as int * SCALE)
}

/// Smoothstep between two bounded edges (the normalization divides by
/// `edge1 - edge0`, so the edges must be distinct and ordered).
pub fn smoothstep(edge0: i64, edge1: i64, x: i64) -> (r: i64)
    requires
        -CAP <= edge0 < edge1 <= CAP,
        -CAP <= x <= CAP,
    ensures
        r == smoothstep_spec(edge0 as int, edge1 as int, x as int),
        0 <= r <= SCALE,
{
    let num: i128 = (x as i128 - edge0 as i128) * (SCALE as i128);
    let q = div_trunc(num, edge1 as i128 - edge0 as i128);
    let t: i64 = if q < 0 {
        0
    } else if q > SCALE as i128 {
        SCALE
    } else {
        q as i64
    };
    assert(t == clamp_val(sdiv((x - edge0) * SCALE, edge1 - edge0), 0, SCALE as int));
    proof {
        assert(t as int * t as int * (3 * SCALE - 2 * t as int) >= 0
            && t as int * t as int * (3 * SCALE - 2 * t as int)
                <= SCALE as int * SCALE * SCALE) by (nonlinear_arith)
            requires
                0 <= t as int <= SCALE as int,
                SCALE as int == 1_000_000,
        ;
        assert(0 <= t as int * t as int <= SCALE as int * SCALE) by (nonlinear_arith)
            requires
                0 <= t as int <= SCALE as int,
        ;
    }
    let cubic: i128 = (t as i128) * (t as i128) * (3 * SCALE as i128 - 2 * t as i128);
    let r = div_trunc(cubic, (SCALE as i128) * (SCALE as i128));
    proof {
        vstd::arithmetic::div_mod::lemma_div_is_ordered(
            cubic as int,
            SCALE as int * SCALE * SCALE,
            SCALE as int * SCALE,
        );
        vstd::arithmetic::div_mod::lemma_div_basics(SCALE as int * SCALE);
        assert((SCALE as int * SCALE * SCALE) / (SCALE as int * SCALE) == SCALE as int)
            by (nonlinear_arith);
    }
    r as i64
}

/// Floor of the square root of `n`.
pub open spec fn isqrt_spec(n: nat) -> nat
    decreases n,
{
    if n == 0 {
        0
    } else {
        let r = isqrt_spec((n - 1) as nat);
        if (r + 1) * (r + 1) <= n {
            r + 1
        } else {
            r
        }
    }
}

pub proof fn lemma_isqrt_bounds(n: nat)
    ensures
        isqrt_spec(n) * isqrt_spec(n) <= n,
        n < (isqrt_spec(n) + 1) * (isqrt_spec(n) + 1),
    decreases n,
{
    if n > 0 {
        lemma_isqrt_bounds((n - 1) as nat);
        let r = isqrt_spec((n - 1) as nat);
        assert(r * r <= n - 1 && (n - 1) < (r + 1) * (r + 1));
        if (r + 1) * (r + 1) <= n {
            assert(isqrt_spec(n) == r + 1);
            assert((r + 2) * (r + 2) > n) by (nonlinear_arith)
                requires
                    n - 1 < (r + 1) * (r + 1),
                    r >= 0,
            ;
            assert(n < (isqrt_spec(n) + 1) * (isqrt_spec(n) + 1));
        } else {
            assert(isqrt_spec(n) == r);
            assert(r * r <= n);
            assert(n < (r + 1) * (r + 1));
            assert(n < (isqrt_spec(n) + 1) * (isqrt_spec(n) + 1));
        }
    } else {
        assert(isqrt_spec(0) == 0);
        assert(n < (isqrt_spec(n) + 1) * (isqrt_spec(n) + 1)) by (nonlinear_arith)
            requires
                n == 0,
                isqrt_spec(n) == 0,
        ;
    }
}

pub proof fn lemma_isqrt_unique(n: nat, r: nat)
    requires
        r * r <= n,
        n < (r + 1) * (r + 1),
    ensures
        r == isqrt_spec(n),
{
    let s = isqrt_spec(n);
    lemma_isqrt_bounds(n);
    if r < s {
        assert((r + 1) * (r + 1) <= s * s) by (nonlinear_arith)
            requires
                r + 1 <= s,
                r >= 0,
        ;
    }
    if s < r {
        assert((s + 1) * (s + 1) <= r * r) by (nonlinear_arith)
            requires
                s + 1 <= r,
                s >= 0,
        ;
    }
}

/// Floor of the square root, by bisection.
pub fn isqrt(n: u128) -> (r: u128)
    ensures
        r == isqrt_spec(n as nat),
        r * r <= n,
        n < (r + 1) * (r + 1),
{
    let mut lo: u128 = 0;
    let mut hi: u128 = 0xffff_ffff_ffff_ffff;
    if n < hi {
        hi = n;
    }
    proof {
        assert((hi as int + 1) * (hi as int + 1) > n) by (nonlinear_arith)
            requires
                hi == n || (hi == 0xffff_ffff_ffff_ffff && n >= hi),
                n <= 0xffff_ffff_ffff_ffff_ffff_ffff_ffff_ffff,
        ;
    }
    while lo < hi
        invariant
            lo <= hi <= 0xffff_ffff_ffff_ffff,
            (lo as int) * (lo as int) <= n,
            n < (hi as int + 1) * (hi as int + 1),
        decreases hi - lo,
    {
        let mid: u128 = lo + (hi - lo + 1) / 2;
        proof {
            assert(mid * mid <= 0xffff_ffff_ffff_ffff * 0xffff_ffff_ffff_ffff)
                by (nonlinear_arith)
                requires
                    0 <= mid <= 0xffff_ffff_ffff_ffff,
            ;
        }
        if mid * mid <= n {
            lo = mid;
        } else {
            hi = mid - 1;
        }
    }
    proof {
        lemma_isqrt_unique(n as nat, lo as nat);
    }
    lo
}

/// Euclidean distance between two points, in micro-units (floor-rounded).
pub open spec fn dist_spec(x1: int, y1: int, x2: int, y2: int) -> int {
    isqrt_spec((((x2 - x1) * (x2 - x1) + (y2 - y1) * (y2 - y1))) as nat) as int
}

/// Distance between two points whose coordinates are bounded scalars.
pub fn distance(x1: i64, y1: i64, x2: i64, y2: i64) -> (r: i64)
    requires
        -CAP <= x1 <= CAP,
        -CAP <= y1 <= CAP,
        -CAP <= x2 <= CAP,
        -CAP <= y2 <= CAP,
    ensures
        r == dist_spec(x1 as int, y1 as int, x2 as int, y2 as int),
        0 <= r <= 3 * CAP,
{
    let dx: i128 = x2 as i128 - x1 as i128;
    let dy: i128 = y2 as i128 - y1 as i128;
    proof {
        assert(dx * dx + dy * dy <= 8 * (CAP as int * CAP as int)
            && dx * dx >= 0 && dy * dy >= 0) by (nonlinear_arith)
            requires
                -2 * (CAP as int) <= dx <= 2 * (CAP as int),
                -2 * (CAP as int) <= dy <= 2 * (CAP as int),
        ;
    }
    let d2: u128 = (dx * dx + dy * dy) as u128;
    let r = isqrt(d2);
    proof {
        assert(isqrt_spec(d2 as nat) <= 3 * (CAP as int)) by {
            lemma_isqrt_bounds(d2 as nat);
            let s = isqrt_spec(d2 as nat);
            assert(s <= 3 * (CAP as int)) by (nonlinear_arith)
                requires
                    s * s <= 8 * (CAP as int * CAP as int),
                    s >= 0,
                    CAP as int == 1_000_000_000_000_000,
            ;
        }
    }
    r as i64
}

} // verus!
