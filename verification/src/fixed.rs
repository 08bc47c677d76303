//! Fixed-point scalars and the integer helpers they need.
//!
//! A scalar `v` stands for the real number `v / 256`. World coordinates,
//! screen coordinates, zoom factors and lumas all use this representation.

use vstd::prelude::*;

verus! {

/// The fixed-point representation of `1.0`.
pub const ONE: i32 = 256;

/// The fixed-point representation of `0.5`.
pub const HALF: i32 = 128;

/// `v` limited to the range of `i32`.
pub open spec fn saturate(v: int) -> int {
    if v < i32::MIN {
        i32::MIN as int
    } else if v > i32::MAX {
        i32::MAX as int
    } else {
        v
    }
}

/// `v` limited to `lo..=hi`.
pub open spec fn clamp(v: int, lo: int, hi: int) -> int {
    if v < lo {
        lo
    } else if v > hi {
        hi
    } else {
        v
    }
}

/// The largest integer not above `n / d`, for any nonzero `d`.
pub open spec fn quotient(n: int, d: int) -> int {
    if d > 0 {
        n / d
    } else {
        (-n) / (-d)
    }
}

/// The integer nearest to `n / d`, for a positive `d`. A half is rounded
/// up.
pub open spec fn nearest(n: int, d: int) -> int {
    (2 * n + d) / (2 * d)
}

/// The character cell that holds the fixed-point coordinate `v`.
pub open spec fn cell_of(v: int) -> int {
    v / 256
}

/// The fixed-point coordinate of the centre of cell `c`.
pub open spec fn cell_center(c: int) -> int {
    c * 256 + 128
}

/// A product is bounded by the product of the bounds of its factors.
pub proof fn lemma_product_bound(x: int, y: int, bx: int, by: int)
    by (nonlinear_arith)
    requires
        -bx <= x <= bx,
        -by <= y <= by,
    ensures
        -(bx * by) <= x * y <= bx * by,
{
}

/// A quotient, multiplied back, misses the dividend by less than the
/// divisor.
pub proof fn lemma_quotient_bounds(n: int, d: int)
    by (nonlinear_arith)
    requires
        d > 0,
    ensures
        (n / d) * d <= n < (n / d + 1) * d,
{
}

/// A dividend between two multiples of the divisor has its quotient
/// between the two factors.
pub proof fn lemma_quotient_between(n: int, d: int, lo: int, hi: int)
    by (nonlinear_arith)
    requires
        d > 0,
        lo * d <= n,
        n <= hi * d,
    ensures
        lo <= n / d <= hi,
{
}

/// The nearest integer to a quotient is off by at most a half: twice the
/// dividend lies within one divisor of twice the divisor's multiple.
pub proof fn lemma_nearest_bounds(n: int, d: int)
    requires
        d > 0,
    ensures
        (2 * nearest(n, d) - 1) * d <= 2 * n < (2 * nearest(n, d) + 1) * d,
{
    let q = nearest(n, d);
    lemma_quotient_bounds(2 * n + d, 2 * d);
    assert(q * (2 * d) == 2 * q * d && (q + 1) * (2 * d) == 2 * q * d + 2 * d) by (nonlinear_arith);
    assert((2 * q - 1) * d == 2 * q * d - d && (2 * q + 1) * d == 2 * q * d + d)
        by (nonlinear_arith);
}

/// Division that rounds toward negative infinity.
pub fn div_floor(n: i128, d: i128) -> (q: i128)
    requires
        d > 0,
        n > i128::MIN,
    ensures
        q == n as int / d as int,
        q == quotient(n as int, d as int),
{
    if n >= 0 {
        n / d
    } else {
        let m: i128 = -(n + 1);
        let q: i128 = m / d;
        assert(n as int / d as int == -(m as int / d as int) - 1) by (nonlinear_arith)
            requires
                d > 0,
                m >= 0,
                n as int == -(m as int) - 1,
        ;
        -q - 1
    }
}

/// Division that rounds to the nearest integer, a half upward.
pub fn div_nearest(n: i128, d: i128) -> (q: i128)
    requires
        0 < d < 0x2000_0000_0000_0000_0000_0000_0000_0000,
        -0x2000_0000_0000_0000_0000_0000_0000_0000 < n < 0x2000_0000_0000_0000_0000_0000_0000_0000,
    ensures
        q == nearest(n as int, d as int),
        n >= 0 ==> 0 <= q <= n,
        n <= 0 ==> n <= q <= 0,
{
    proof {
        lemma_nearest_bounds(n as int, d as int);
        let q = nearest(n as int, d as int);
        assert(n >= 0 ==> 0 <= q <= n) by (nonlinear_arith)
            requires
                d >= 1,
                (2 * q - 1) * d <= 2 * n < (2 * q + 1) * d,
        ;
        assert(n <= 0 ==> n <= q <= 0) by (nonlinear_arith)
            requires
                d >= 1,
                (2 * q - 1) * d <= 2 * n < (2 * q + 1) * d,
        ;
    }
    div_floor(2 * n + d, 2 * d)
}

/// Whether `r` is the integer square root of `n`: the largest integer
/// whose square does not exceed `n`.
pub open spec fn is_sqrt(r: int, n: int) -> bool {
    &&& 0 <= r
    &&& r * r <= n
    &&& n < (r + 1) * (r + 1)
}

/// The integer square root, found by bisection.
pub fn isqrt(n: u128) -> (r: u64)
    requires
        n < 0x4000_0000_0000_0000_0000_0000_0000_0000,
    ensures
        is_sqrt(r as int, n as int),
{
    let mut lo: u128 = 0;
    let mut hi: u128 = 0x8000_0000_0000_0000;
    assert(hi * hi == 0x4000_0000_0000_0000_0000_0000_0000_0000) by (nonlinear_arith)
        requires
            hi == 0x8000_0000_0000_0000,
    ;
    while hi - lo > 1
        invariant
            lo < hi <= 0x8000_0000_0000_0000,
            lo * lo <= n < hi * hi,
        decreases hi - lo,
    {
        let mid: u128 = lo + (hi - lo) / 2;
        assert(mid * mid <= 0x4000_0000_0000_0000_0000_0000_0000_0000) by (nonlinear_arith)
            requires
                mid <= 0x8000_0000_0000_0000,
        ;
        if mid * mid <= n {
            lo = mid;
        } else {
            hi = mid;
        }
    }
    lo as u64
}

/// Limits a wide intermediate result to the range of a scalar.
pub fn saturate_i128(v: i128) -> (r: i32)
    ensures
        r == saturate(v as int),
{
    if v < -2147483648 {
        i32::MIN
    } else if v > 2147483647 {
        i32::MAX
    } else {
        v as i32
    }
}

/// The cell row or column of a screen coordinate.
pub fn to_cell(v: i32) -> (c: i32)
    ensures
        c == cell_of(v as int),
        -8388608 <= c < 8388608,
{
    let q: i128 = div_floor(v as i128, 256);
    q as i32
}

} // verus!
