//! Fixed-point scalars.
//!
//! Every quantity of the simulation (a coordinate, a speed, a radius, a
//! weight, an elapsed time) is an integer number of millionths: the `i64`
//! value `v` stands for the real number `v / SCALE`. Products and sums are
//! formed in `i128`, quotients round toward zero, and square roots round up.

use vstd::prelude::*;

verus! {

/// Number of fixed-point units in one whole unit.
pub const SCALE: i64 = 1_000_000;

/// Largest magnitude of a stored coordinate, speed or radius.
pub const LIMIT: i64 = 1_000_000_000_000;

/// Largest extent of a bound or of an agent's footprint.
pub const EXTENT_LIMIT: i64 = 500_000_000_000;

/// Quotient of `a` by a positive `b`, rounded toward zero.
pub open spec fn trunc_div(a: int, b: int) -> int {
    if a >= 0 {
        a / b
    } else {
        -((-a) / b)
    }
}

/// Absolute value.
pub open spec fn magnitude(v: int) -> int {
    if v >= 0 {
        v
    } else {
        -v
    }
}

/// `v` brought into the interval from `lo` to `hi`.
pub open spec fn clamp(v: int, lo: int, hi: int) -> int {
    if v < lo {
        lo
    } else if v > hi {
        hi
    } else {
        v
    }
}

/// Whether `v` is a storable magnitude.
pub open spec fn in_range(v: int) -> bool {
    -LIMIT <= v <= LIMIT
}

/// `v` brought into the storable range.
pub open spec fn saturate(v: int) -> int {
    clamp(v, -(LIMIT as int), LIMIT as int)
}

/// Product of two fixed-point numbers, as a fixed-point number.
pub open spec fn mul_fixed(a: int, b: int) -> int {
    trunc_div(a * b, SCALE as int)
}

/// Whether `r` is the least natural number whose square reaches `n`.
pub open spec fn is_ceil_sqrt(n: int, r: int) -> bool {
    &&& 0 <= r
    &&& n <= r * r
    &&& r > 0 ==> (r - 1) * (r - 1) < n
}

/// Square root of `n`, rounded up; zero for a negative `n`.
pub open spec fn ceil_sqrt(n: int) -> int {
    choose|r: int| is_ceil_sqrt(n, r)
}

/// Squares grow with their base on the naturals.
pub proof fn lemma_square_monotonic(a: int, b: int)
    requires
        0 <= a <= b,
    ensures
        a * a <= b * b,
{
    assert(a * a <= b * b) by (nonlinear_arith)
        requires
            0 <= a <= b,
    ;
}

/// Only one number is the rounded-up square root of `n`, and `ceil_sqrt`
/// names it.
pub proof fn lemma_ceil_sqrt_unique(n: int, r: int)
    requires
        is_ceil_sqrt(n, r),
    ensures
        ceil_sqrt(n) == r,
{
    let c = ceil_sqrt(n);
    assert(is_ceil_sqrt(n, c));
    if c < r {
        lemma_square_monotonic(c, r - 1);
    } else if r < c {
        lemma_square_monotonic(r, c - 1);
    }
}

/// Every number has a rounded-up square root: the search from `r` upward
/// ends.
pub proof fn lemma_ceil_sqrt_exists(n: int, r: int)
    requires
        0 <= r,
        r > 0 ==> (r - 1) * (r - 1) < n,
    ensures
        is_ceil_sqrt(n, ceil_sqrt(n)),
    decreases n - r,
{
    if n <= r * r {
        assert(is_ceil_sqrt(n, r));
    } else {
        assert(r <= r * r) by (nonlinear_arith)
            requires
                0 <= r,
        ;
        lemma_ceil_sqrt_exists(n, r + 1);
    }
}

/// A quotient rounded toward zero keeps the sign of the dividend and,
/// multiplied back, does not exceed it in magnitude.
pub proof fn lemma_trunc_div_magnitude(a: int, b: int)
    requires
        b > 0,
    ensures
        a >= 0 ==> 0 <= trunc_div(a, b) && trunc_div(a, b) * b <= a < (trunc_div(a, b) + 1) * b,
        a <= 0 ==> trunc_div(a, b) <= 0 && a <= trunc_div(a, b) * b && (trunc_div(a, b) - 1) * b
            < a,
        trunc_div(-a, b) == -trunc_div(a, b),
{
    let p = if a >= 0 { a } else { -a };
    let q = p / b;
    assert(0 <= q && q * b <= p < (q + 1) * b) by (nonlinear_arith)
        requires
            p >= 0,
            b > 0,
            q == p / b,
    ;
    if a >= 0 {
        assert(trunc_div(a, b) == q);
    } else {
        assert(trunc_div(a, b) == -q);
        assert((-q) * b == -(q * b)) by (nonlinear_arith);
        assert((-q - 1) * b == -((q + 1) * b)) by (nonlinear_arith);
    }
    if a == 0 {
        assert(0int / b == 0) by (nonlinear_arith)
            requires
                b > 0,
        ;
    }
}

/// A dividend within `m * b` gives a quotient within `m`.
pub proof fn lemma_trunc_div_bound(a: int, b: int, m: int)
    requires
        b > 0,
        m >= 0,
        -(m * b) <= a <= m * b,
    ensures
        -m <= trunc_div(a, b) <= m,
{
    lemma_trunc_div_magnitude(a, b);
    let q = trunc_div(a, b);
    if a >= 0 {
        if q > m {
            assert(q * b >= (m + 1) * b) by (nonlinear_arith)
                requires
                    q >= m + 1,
                    b > 0,
            ;
            assert((m + 1) * b == m * b + b) by (nonlinear_arith);
        }
    } else {
        if q < -m {
            assert(q * b <= (-m - 1) * b) by (nonlinear_arith)
                requires
                    q <= -m - 1,
                    b > 0,
            ;
            assert((-m - 1) * b == -(m * b) - b) by (nonlinear_arith);
        }
    }
}

/// The product of two bounded numbers is bounded by the product of the
/// bounds.
pub proof fn lemma_mul_bound(a: int, b: int, ma: int, mb: int)
    requires
        -ma <= a <= ma,
        -mb <= b <= mb,
    ensures
        -(ma * mb) <= a * b <= ma * mb,
{
    assert(-(ma * mb) <= a * b <= ma * mb) by (nonlinear_arith)
        requires
            -ma <= a <= ma,
            -mb <= b <= mb,
    ;
}

/// Brings a wide value into the storable range.
pub fn saturate_to_limit(v: i128) -> (r: i64)
    ensures
        r == saturate(v as int),
        in_range(r as int),
{
    if v < -(LIMIT as i128) {
        -LIMIT
    } else if v > LIMIT as i128 {
        LIMIT
    } else {
        v as i64
    }
}

/// Computes the square root of `n`, rounded up.
pub fn isqrt_ceil(n: u128) -> (r: u128)
    ensures
        r == ceil_sqrt(n as int),
        is_ceil_sqrt(n as int, r as int),
        r <= 0x1_0000_0000_0000_0000,
{
    if n == 0 {
        proof {
            lemma_ceil_sqrt_unique(0, 0);
        }
        return 0;
    }
    let mut lo: u128 = 0;
    let mut hi: u128 = 0x1_0000_0000_0000_0000;
    assert(n <= hi * hi) by (nonlinear_arith)
        requires
            hi == 0x1_0000_0000_0000_0000,
            n <= u128::MAX,
    ;
    while hi - lo > 1
        invariant
            lo < hi <= 0x1_0000_0000_0000_0000,
            lo * lo < n <= hi * hi,
        decreases hi - lo,
    {
        let mid = lo + (hi - lo) / 2;
        assert(mid * mid <= u128::MAX) by (nonlinear_arith)
            requires
                mid <= 0xffff_ffff_ffff_ffff,
        ;
        if mid * mid >= n {
            hi = mid;
        } else {
            lo = mid;
        }
    }
    proof {
        lemma_ceil_sqrt_unique(n as int, hi as int);
    }
    hi
}

} // verus!
