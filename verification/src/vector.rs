//! Plane and space vectors with fixed-point components.

use crate::fixed::{
    ceil_sqrt, is_ceil_sqrt, isqrt_ceil, lemma_ceil_sqrt_exists, lemma_mul_bound,
    lemma_square_monotonic, lemma_trunc_div_bound, lemma_trunc_div_magnitude, magnitude, mul_fixed,
    saturate,
    trunc_div, LIMIT, SCALE,
};
use vstd::prelude::*;

verus! {

/// A vector of the plane with unbounded integer components: what a `Vec2`
/// stands for.
pub struct MathVec2 {
    pub x: int,
    pub y: int,
}

/// A vector of space with unbounded integer components: what a `Vec3`
/// stands for.
pub struct MathVec3 {
    pub x: int,
    pub y: int,
    pub z: int,
}

impl MathVec2 {
    /// The null vector.
    pub open spec fn zero() -> MathVec2 {
        MathVec2 { x: 0, y: 0 }
    }

    /// Component-wise sum.
    pub open spec fn plus(self, o: MathVec2) -> MathVec2 {
        MathVec2 { x: self.x + o.x, y: self.y + o.y }
    }

    /// Component-wise difference.
    pub open spec fn minus(self, o: MathVec2) -> MathVec2 {
        MathVec2 { x: self.x - o.x, y: self.y - o.y }
    }

    /// Squared Euclidean length.
    pub open spec fn norm_sq(self) -> int {
        self.x * self.x + self.y * self.y
    }

    /// The vector divided by a positive count, each component rounded
    /// toward zero.
    pub open spec fn div_count(self, n: int) -> MathVec2 {
        MathVec2 { x: trunc_div(self.x, n), y: trunc_div(self.y, n) }
    }

    /// The vector multiplied by the fixed-point number `k`.
    pub open spec fn times(self, k: int) -> MathVec2 {
        MathVec2 { x: mul_fixed(self.x, k), y: mul_fixed(self.y, k) }
    }

    /// The vector of the same direction whose length is `len`, as nearly as
    /// rounding toward zero allows; the null vector stays null.
    pub open spec fn scaled_to(self, len: int) -> MathVec2 {
        if self.norm_sq() == 0 {
            MathVec2::zero()
        } else {
            let c = ceil_sqrt(self.norm_sq());
            MathVec2 { x: trunc_div(self.x * len, c), y: trunc_div(self.y * len, c) }
        }
    }

    /// Each component brought into the storable range.
    pub open spec fn saturated(self) -> MathVec2 {
        MathVec2 { x: saturate(self.x), y: saturate(self.y) }
    }

    /// Whether both components lie within `b` of zero.
    pub open spec fn bounded(self, b: int) -> bool {
        -b <= self.x <= b && -b <= self.y <= b
    }

    /// Whether both components can be held in an `i64`.
    pub open spec fn fits(self) -> bool {
        i64::MIN <= self.x <= i64::MAX && i64::MIN <= self.y <= i64::MAX
    }

    /// The vector as it is stored, where it `fits`.
    pub open spec fn stored(self) -> Vec2 {
        Vec2 { x: self.x as i64, y: self.y as i64 }
    }

    /// Whether the Euclidean distance to `o` is at most `r`, for `r >= 0`.
    pub open spec fn within(self, o: MathVec2, r: int) -> bool {
        self.minus(o).norm_sq() <= r * r
    }
}

/// A vector of the plane in fixed-point units.
#[derive(Clone, Copy, Debug, PartialEq, Eq, Structural)]
pub struct Vec2 {
    pub x: i64,
    pub y: i64,
}

/// A vector of space in fixed-point units.
#[derive(Clone, Copy, Debug, PartialEq, Eq, Structural)]
pub struct Vec3 {
    pub x: i64,
    pub y: i64,
    pub z: i64,
}

impl View for Vec2 {
    type V = MathVec2;

    open spec fn view(&self) -> MathVec2 {
        MathVec2 { x: self.x as int, y: self.y as int }
    }
}

impl View for Vec3 {
    type V = MathVec3;

    open spec fn view(&self) -> MathVec3 {
        MathVec3 { x: self.x as int, y: self.y as int, z: self.z as int }
    }
}

/// A non-null vector has a rounded-up length of at least one, which no
/// component exceeds in magnitude.
pub proof fn lemma_length_dominates(v: MathVec2)
    requires
        v.norm_sq() != 0,
    ensures
        is_ceil_sqrt(v.norm_sq(), ceil_sqrt(v.norm_sq())),
        ceil_sqrt(v.norm_sq()) >= 1,
        -ceil_sqrt(v.norm_sq()) <= v.x <= ceil_sqrt(v.norm_sq()),
        -ceil_sqrt(v.norm_sq()) <= v.y <= ceil_sqrt(v.norm_sq()),
{
    let n = v.norm_sq();
    assert(v.x * v.x >= 0 && v.y * v.y >= 0) by (nonlinear_arith);
    lemma_ceil_sqrt_exists(n, 0);
    let c = ceil_sqrt(n);
    let ax = if v.x >= 0 { v.x } else { -v.x };
    let ay = if v.y >= 0 { v.y } else { -v.y };
    assert(ax * ax == v.x * v.x && ay * ay == v.y * v.y) by (nonlinear_arith)
        requires
            ax == v.x || ax == -v.x,
            ay == v.y || ay == -v.y,
    ;
    if ax > c {
        lemma_square_monotonic(c + 1, ax);
        assert((c + 1) * (c + 1) > c * c) by (nonlinear_arith)
            requires
                c >= 0,
        ;
    }
    if ay > c {
        lemma_square_monotonic(c + 1, ay);
        assert((c + 1) * (c + 1) > c * c) by (nonlinear_arith)
            requires
                c >= 0,
        ;
    }
}

/// Rescaling to a length never gives a vector longer than that length.
pub proof fn lemma_scaled_to_norm(v: MathVec2, len: int)
    requires
        0 <= len,
    ensures
        v.scaled_to(len).norm_sq() <= len * len,
        v.scaled_to(len).bounded(len),
{
    assert(len * len >= 0) by (nonlinear_arith);
    if v.norm_sq() != 0 {
        lemma_length_dominates(v);
        let n = v.norm_sq();
        let c = ceil_sqrt(n);
        let r = v.scaled_to(len);
        lemma_component_square(v.x, len, c);
        lemma_component_square(v.y, len, c);
        let s = r.norm_sq();
        let (qa, qb, cc, ll) = (r.x * r.x, r.y * r.y, c * c, len * len);
        let (xx, yy) = (v.x * v.x, v.y * v.y);
        assert(s * cc == qa * cc + qb * cc) by (nonlinear_arith)
            requires
                s == qa + qb,
        ;
        assert(xx * ll + yy * ll == (xx + yy) * ll) by (nonlinear_arith);
        assert((xx + yy) * ll <= cc * ll) by (nonlinear_arith)
            requires
                xx + yy <= cc,
                ll >= 0,
        ;
        assert(cc * ll == ll * cc) by (nonlinear_arith);
        assert(s * (c * c) <= (len * len) * (c * c));
        assert(s <= len * len) by (nonlinear_arith)
            requires
                s * (c * c) <= (len * len) * (c * c),
                c >= 1,
        ;
        assert(r.x * r.x <= s && r.y * r.y <= s) by (nonlinear_arith)
            requires
                s == r.x * r.x + r.y * r.y,
        ;
        lemma_square_root_bound(r.x, len);
        lemma_square_root_bound(r.y, len);
    }
}

/// Rescaling rounds each component toward zero by less than one unit: it
/// keeps the sign of the component and, multiplied by the rounded-up length
/// of the vector, misses the component times `len` by less than that
/// length.
pub proof fn lemma_scaled_to_rounding(v: MathVec2, len: int)
    requires
        0 <= len,
        v.norm_sq() != 0,
    ensures
        ({
            let c = ceil_sqrt(v.norm_sq());
            let r = v.scaled_to(len);
            &&& c >= 1
            &&& v.x >= 0 ==> 0 <= r.x && r.x * c <= v.x * len < (r.x + 1) * c
            &&& v.x <= 0 ==> r.x <= 0 && (r.x - 1) * c < v.x * len <= r.x * c
            &&& v.y >= 0 ==> 0 <= r.y && r.y * c <= v.y * len < (r.y + 1) * c
            &&& v.y <= 0 ==> r.y <= 0 && (r.y - 1) * c < v.y * len <= r.y * c
        }),
{
    lemma_length_dominates(v);
    let c = ceil_sqrt(v.norm_sq());
    lemma_trunc_div_magnitude(v.x * len, c);
    lemma_trunc_div_magnitude(v.y * len, c);
    assert((v.x >= 0 ==> v.x * len >= 0) && (v.x <= 0 ==> v.x * len <= 0)) by (nonlinear_arith)
        requires
            0 <= len,
    ;
    assert((v.y >= 0 ==> v.y * len >= 0) && (v.y <= 0 ==> v.y * len <= 0)) by (nonlinear_arith)
        requires
            0 <= len,
    ;
}

/// Rescaling loses little length. Take each component of the result one
/// unit further from zero: the vector so made, multiplied by the rounded-up
/// length `c` of the vector that was rescaled, is longer than `(c - 1) * len`.
pub proof fn lemma_scaled_to_length(v: MathVec2, len: int)
    requires
        0 <= len,
        v.norm_sq() != 0,
    ensures
        ({
            let c = ceil_sqrt(v.norm_sq());
            let r = v.scaled_to(len);
            let a = magnitude(r.x) + 1;
            let b = magnitude(r.y) + 1;
            (a * a + b * b) * (c * c) > ((c - 1) * len) * ((c - 1) * len)
        }),
{
    lemma_length_dominates(v);
    lemma_scaled_to_rounding(v, len);
    let n = v.norm_sq();
    let c = ceil_sqrt(n);
    let r = v.scaled_to(len);
    let a = magnitude(r.x) + 1;
    let b = magnitude(r.y) + 1;
    let x = magnitude(v.x);
    let y = magnitude(v.y);
    assert(a * c > x * len && x * len >= 0) by (nonlinear_arith)
        requires
            0 <= len,
            c >= 1,
            x == magnitude(v.x),
            a == magnitude(r.x) + 1,
            v.x >= 0 ==> 0 <= r.x && v.x * len < (r.x + 1) * c,
            v.x <= 0 ==> r.x <= 0 && (r.x - 1) * c < v.x * len,
    ;
    assert(b * c > y * len && y * len >= 0) by (nonlinear_arith)
        requires
            0 <= len,
            c >= 1,
            y == magnitude(v.y),
            b == magnitude(r.y) + 1,
            v.y >= 0 ==> 0 <= r.y && v.y * len < (r.y + 1) * c,
            v.y <= 0 ==> r.y <= 0 && (r.y - 1) * c < v.y * len,
    ;
    lemma_square_strictly_monotonic(x * len, a * c);
    lemma_square_strictly_monotonic(y * len, b * c);
    let (ll, cc) = (len * len, c * c);
    assert((a * c) * (a * c) == (a * a) * cc && (b * c) * (b * c) == (b * b) * cc)
        by (nonlinear_arith)
        requires
            cc == c * c,
    ;
    assert((x * len) * (x * len) == (x * x) * ll && (y * len) * (y * len) == (y * y) * ll)
        by (nonlinear_arith)
        requires
            ll == len * len,
    ;
    assert(x * x == v.x * v.x && y * y == v.y * v.y) by (nonlinear_arith)
        requires
            x == v.x || x == -v.x,
            y == v.y || y == -v.y,
    ;
    assert((x * x) * ll + (y * y) * ll == n * ll) by (nonlinear_arith)
        requires
            n == v.x * v.x + v.y * v.y,
            x * x == v.x * v.x,
            y * y == v.y * v.y,
    ;
    assert(((c - 1) * len) * ((c - 1) * len) == ((c - 1) * (c - 1)) * ll) by (nonlinear_arith)
        requires
            ll == len * len,
    ;
    assert(((c - 1) * (c - 1)) * ll <= n * ll) by (nonlinear_arith)
        requires
            (c - 1) * (c - 1) < n,
            ll == len * len,
    ;
    assert((a * a + b * b) * cc == (a * a) * cc + (b * b) * cc) by (nonlinear_arith);
}

/// Squares grow strictly with their base on the naturals.
proof fn lemma_square_strictly_monotonic(a: int, b: int)
    requires
        0 <= a < b,
    ensures
        a * a < b * b,
{
    assert(a * a < b * b) by (nonlinear_arith)
        requires
            0 <= a < b,
    ;
}

/// A vector no longer than `m` has both components within `m`.
pub proof fn lemma_norm_bound(v: MathVec2, m: int)
    requires
        0 <= m,
        v.norm_sq() <= m * m,
    ensures
        v.bounded(m),
{
    assert(v.x * v.x <= v.norm_sq() && v.y * v.y <= v.norm_sq()) by (nonlinear_arith)
        requires
            v.norm_sq() == v.x * v.x + v.y * v.y,
    ;
    lemma_square_root_bound(v.x, m);
    lemma_square_root_bound(v.y, m);
}

/// A number whose square is at most `len * len` lies within `len` of zero.
proof fn lemma_square_root_bound(q: int, len: int)
    requires
        0 <= len,
        q * q <= len * len,
    ensures
        -len <= q <= len,
{
    let a = if q >= 0 { q } else { -q };
    assert(a * a == q * q) by (nonlinear_arith)
        requires
            a == q || a == -q,
    ;
    if a > len {
        lemma_square_monotonic(len + 1, a);
        assert((len + 1) * (len + 1) > len * len) by (nonlinear_arith)
            requires
                len >= 0,
        ;
    }
}

/// One component of a rescaled vector, squared and multiplied back by the
/// squared divisor, stays under the squared dividend.
proof fn lemma_component_square(x: int, len: int, c: int)
    requires
        0 <= len,
        c >= 1,
    ensures
        (trunc_div(x * len, c) * trunc_div(x * len, c)) * (c * c) <= (x * x) * (len * len),
{
    let a = x * len;
    let q = trunc_div(a, c);
    lemma_trunc_div_magnitude(a, c);
    let aa = if a >= 0 { a } else { -a };
    let qc = if a >= 0 { q * c } else { -(q * c) };
    assert(0 <= qc <= aa) by (nonlinear_arith)
        requires
            c >= 1,
            a >= 0 ==> 0 <= q && q * c <= a,
            a <= 0 ==> q <= 0 && a <= q * c,
            aa == (if a >= 0 { a } else { -a }),
            qc == (if a >= 0 { q * c } else { -(q * c) }),
    ;
    lemma_square_monotonic(qc, aa);
    assert(qc * qc == (q * q) * (c * c)) by (nonlinear_arith)
        requires
            qc == q * c || qc == -(q * c),
    ;
    assert(aa * aa == (x * x) * (len * len)) by (nonlinear_arith)
        requires
            aa == x * len || aa == -(x * len),
    ;
}

/// A vector within `b`, multiplied by a weight `k`, stays within `m` where
/// `b * k` is at most `m` whole units.
pub proof fn lemma_times_bound(v: MathVec2, k: int, b: int, m: int)
    requires
        v.bounded(b),
        0 <= k,
        0 <= m,
        b * k <= m * SCALE,
    ensures
        v.times(k).bounded(m),
{
    lemma_mul_bound(v.x, k, b, k);
    lemma_mul_bound(v.y, k, b, k);
    lemma_trunc_div_bound(v.x * k, SCALE as int, m);
    lemma_trunc_div_bound(v.y * k, SCALE as int, m);
}

impl Vec2 {
    /// Whether both components are storable magnitudes.
    pub open spec fn in_range(&self) -> bool {
        self@.bounded(LIMIT as int)
    }

    /// Tells whether both components are storable magnitudes.
    pub fn is_in_range(&self) -> (b: bool)
        ensures
            b == self.in_range(),
    {
        -LIMIT <= self.x && self.x <= LIMIT && -LIMIT <= self.y && self.y <= LIMIT
    }

    /// The null vector.
    pub fn zero() -> (r: Vec2)
        ensures
            r@ == MathVec2::zero(),
    {
        Vec2 { x: 0, y: 0 }
    }

    /// The vector with the given components.
    pub fn new(x: i64, y: i64) -> (r: Vec2)
        ensures
            r.x == x,
            r.y == y,
    {
        Vec2 { x, y }
    }

    /// Component-wise sum.
    pub fn plus(self, o: Vec2) -> (r: Vec2)
        requires
            self@.plus(o@).fits(),
        ensures
            r@ == self@.plus(o@),
    {
        Vec2 { x: self.x + o.x, y: self.y + o.y }
    }

    /// Component-wise difference.
    pub fn minus(self, o: Vec2) -> (r: Vec2)
        requires
            self@.minus(o@).fits(),
        ensures
            r@ == self@.minus(o@),
    {
        Vec2 { x: self.x - o.x, y: self.y - o.y }
    }

    /// The vector multiplied by the fixed-point number `k`.
    pub fn times(self, k: i64) -> (r: Vec2)
        requires
            self@.times(k as int).fits(),
        ensures
            r@ == self@.times(k as int),
    {
        proof {
            lemma_mul_bound(self.x as int, k as int, 0x8000_0000_0000_0000, 0x8000_0000_0000_0000);
            lemma_mul_bound(self.y as int, k as int, 0x8000_0000_0000_0000, 0x8000_0000_0000_0000);
        }
        let px: i128 = (self.x as i128) * (k as i128);
        let py: i128 = (self.y as i128) * (k as i128);
        Vec2 { x: (px / (SCALE as i128)) as i64, y: (py / (SCALE as i128)) as i64 }
    }

    /// Squared Euclidean length.
    pub fn length_squared(self) -> (r: u128)
        ensures
            r == self@.norm_sq(),
    {
        proof {
            lemma_mul_bound(self.x as int, self.x as int, 0x8000_0000_0000_0000, 0x8000_0000_0000_0000);
            lemma_mul_bound(self.y as int, self.y as int, 0x8000_0000_0000_0000, 0x8000_0000_0000_0000);
            assert(self.x * self.x >= 0 && self.y * self.y >= 0) by (nonlinear_arith);
        }
        let xx: i128 = (self.x as i128) * (self.x as i128);
        let yy: i128 = (self.y as i128) * (self.y as i128);
        (xx as u128) + (yy as u128)
    }

    /// Squared Euclidean distance to `o`.
    pub fn distance_squared(self, o: Vec2) -> (r: u128)
        requires
            self@.minus(o@).fits(),
        ensures
            r == self@.minus(o@).norm_sq(),
    {
        self.minus(o).length_squared()
    }

    /// The vector of the same direction and of length `len`; the null
    /// vector stays null.
    pub fn scaled_to(self, len: i64) -> (r: Vec2)
        requires
            0 <= len,
        ensures
            r@ == self@.scaled_to(len as int),
            r@.norm_sq() <= len * len,
            r@.bounded(len as int),
    {
        let n = self.length_squared();
        if n == 0 {
            proof {
                lemma_scaled_to_norm(self@, len as int);
            }
            return Vec2 { x: 0, y: 0 };
        }
        let c = isqrt_ceil(n);
        proof {
            lemma_length_dominates(self@);
            lemma_scaled_to_norm(self@, len as int);
            lemma_mul_bound(self.x as int, len as int, c as int, len as int);
            lemma_mul_bound(self.y as int, len as int, c as int, len as int);
            lemma_mul_bound(self.x as int, len as int, 0x8000_0000_0000_0000, 0x8000_0000_0000_0000);
            lemma_mul_bound(self.y as int, len as int, 0x8000_0000_0000_0000, 0x8000_0000_0000_0000);
            assert(c * len == len * c) by (nonlinear_arith);
            lemma_trunc_div_bound(self.x * len, c as int, len as int);
            lemma_trunc_div_bound(self.y * len, c as int, len as int);
        }
        let d: i128 = c as i128;
        let qx: i128 = ((self.x as i128) * (len as i128)) / d;
        let qy: i128 = ((self.y as i128) * (len as i128)) / d;
        Vec2 { x: qx as i64, y: qy as i64 }
    }
}

/// The plane part of a space vector.
pub fn vec3_to_vec2(vector: Vec3) -> (r: Vec2)
    ensures
        r.x == vector.x,
        r.y == vector.y,
{
    Vec2 { x: vector.x, y: vector.y }
}

/// The space vector over a plane vector, at height `z`, or at height zero
/// where none is given.
pub fn vec2_to_vec3(vector: Vec2, z: Option<i64>) -> (r: Vec3)
    ensures
        r.x == vector.x,
        r.y == vector.y,
        r.z == (match z {
            Some(h) => h,
            None => 0,
        }),
{
    let h: i64 = match z {
        Some(h) => h,
        None => 0,
    };
    Vec3 { x: vector.x, y: vector.y, z: h }
}

} // verus!
