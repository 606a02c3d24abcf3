//! Fixed-point scalars and vectors.
//!
//! A scalar `s: i64` stands for the real number `s / SCALE`. Every operation
//! rounds with Euclidean division (floor, since all divisors here are
//! positive), so each result is an exact, deterministic function of its
//! inputs, and each contract states that function in full.

use vstd::prelude::*;
use vstd::arithmetic::div_mod::lemma_div_is_ordered;
use vstd::arithmetic::div_mod::lemma_div_pos_is_pos;
use vstd::arithmetic::div_mod::lemma_div_nonincreasing;
use vstd::arithmetic::div_mod::lemma_div_multiples_vanish;
use vstd::arithmetic::div_mod::lemma_fundamental_div_mod;

verus! {

/// Number of fixed-point steps per world-space unit.
pub const SCALE: i64 = 65536;

/// Largest magnitude (in fixed-point steps) a coordinate handed to the
/// intersection engine may have; keeps every intermediate product inside
/// `i64`/`i128`.
pub const COORD_MAX: i64 = 1073741824;

/// A 3-vector of fixed-point scalars.
#[derive(Clone, Copy, Debug, PartialEq, Eq, Structural)]
pub struct Vec3 {
    pub x: i64,
    pub y: i64,
    pub z: i64,
}

/// A 2-vector of fixed-point scalars (used for the sensor extent).
#[derive(Clone, Copy, Debug, PartialEq, Eq, Structural)]
pub struct Vec2 {
    pub x: i64,
    pub y: i64,
}

/// Build a 3-vector from its components.
pub fn vec3(x: i64, y: i64, z: i64) -> (v: Vec3)
    ensures
        v == (Vec3 { x, y, z }),
{
    Vec3 { x, y, z }
}

/// Build a 2-vector from its components.
pub fn vec2(x: i64, y: i64) -> (v: Vec2)
    ensures
        v == (Vec2 { x, y }),
{
    Vec2 { x, y }
}

/// `|c| <= b` for every component of `v`.
pub open spec fn v3_bounded(v: Vec3, b: int) -> bool {
    -b <= v.x <= b && -b <= v.y <= b && -b <= v.z <= b
}

/// Exact dot product (no rescaling: the result carries scale `SCALE^2`).
pub open spec fn dot3(a: Vec3, b: Vec3) -> int {
    a.x * b.x + a.y * b.y + a.z * b.z
}

/// Squared length of `v`, at scale `SCALE^2`.
pub open spec fn norm_sq(v: Vec3) -> int {
    dot3(v, v)
}

pub open spec fn is_zero3(v: Vec3) -> bool {
    v.x == 0 && v.y == 0 && v.z == 0
}

/// Fixed-point product: the exact product rescaled back by `SCALE`.
pub open spec fn fmul(a: int, b: int) -> int {
    (a * b) / (SCALE as int)
}

/// Fixed-point cross product, one component at a time.
pub open spec fn crossf_x(a: Vec3, b: Vec3) -> int {
    (a.y * b.z - a.z * b.y) / (SCALE as int)
}

pub open spec fn crossf_y(a: Vec3, b: Vec3) -> int {
    (a.z * b.x - a.x * b.z) / (SCALE as int)
}

pub open spec fn crossf_z(a: Vec3, b: Vec3) -> int {
    (a.x * b.y - a.y * b.x) / (SCALE as int)
}

/// Largest `r` with `r * r <= n`.
pub open spec fn sqrt_floor(n: nat) -> nat
    decreases n,
{
    if n == 0 {
        0
    } else {
        let r = sqrt_floor((n - 1) as nat);
        if (r + 1) * (r + 1) <= n {
            r + 1
        } else {
            r
        }
    }
}

/// `sqrt_floor(n)` really is the floor of the square root of `n`.
pub proof fn lemma_sqrt_floor_bounds(n: nat)
    ensures
        sqrt_floor(n) * sqrt_floor(n) <= n,
        n < (sqrt_floor(n) + 1) * (sqrt_floor(n) + 1),
    decreases n,
{
    if n == 0 {
        assert(sqrt_floor(n) == 0);
        assert((sqrt_floor(n) + 1) * (sqrt_floor(n) + 1) == 1) by (nonlinear_arith)
            requires sqrt_floor(n) == 0;
    } else {
        lemma_sqrt_floor_bounds((n - 1) as nat);
        let r = sqrt_floor((n - 1) as nat);
        let s = sqrt_floor(n);
        if (r + 1) * (r + 1) <= n {
            assert(s == r + 1);
            assert(n - 1 < (r + 1) * (r + 1));
            assert(n == s * s);
            assert(s * s < (s + 1) * (s + 1)) by (nonlinear_arith)
                requires s >= 0;
        } else {
            assert(s == r);
            assert(s * s <= n - 1);
            assert(n < (s + 1) * (s + 1));
        }
    }
}

/// The floor square root is the only value between `r*r` and `(r+1)*(r+1)`.
pub proof fn lemma_sqrt_floor_unique(n: nat, r: nat)
    requires
        r * r <= n,
        n < (r + 1) * (r + 1),
    ensures
        r == sqrt_floor(n),
{
    lemma_sqrt_floor_bounds(n);
    let s = sqrt_floor(n);
    if r < s {
        assert((r + 1) * (r + 1) <= s * s) by (nonlinear_arith)
            requires r + 1 <= s;
    }
    if s < r {
        assert((s + 1) * (s + 1) <= r * r) by (nonlinear_arith)
            requires s + 1 <= r;
    }
}

/// Floor square root of an unsigned 128-bit integer, by binary search.
pub fn isqrt_u128(n: u128) -> (r: u128)
    ensures
        r == sqrt_floor(n as nat),
{
    let mut lo: u128 = 0;
    let mut hi: u128 = 0x1_0000_0000_0000_0000;
    proof {
        assert((n as nat) < (hi as nat) * (hi as nat)) by (nonlinear_arith)
            requires n <= u128::MAX, hi == 0x1_0000_0000_0000_0000u128;
    }
    while lo + 1 < hi
        invariant
            lo < hi,
            hi <= 0x1_0000_0000_0000_0000,
            (lo as nat) * (lo as nat) <= n as nat,
            (n as nat) < (hi as nat) * (hi as nat),
        decreases hi - lo,
    {
        let mid: u128 = lo + (hi - lo) / 2;
        assert(lo < mid < hi);
        assert((mid as nat) * (mid as nat) <= u128::MAX) by (nonlinear_arith)
            requires mid < 0x1_0000_0000_0000_0000u128;
        if mid * mid <= n {
            lo = mid;
        } else {
            hi = mid;
        }
    }
    proof {
        lemma_sqrt_floor_unique(n as nat, lo as nat);
    }
    lo
}

/// Euclidean division of an `i128` by a positive divisor; never panics and
/// never leaves the `i128` range.
pub fn div_euclid_i128(a: i128, d: i128) -> (q: i128)
    requires
        0 < d,
    ensures
        q == a as int / d as int,
        a >= 0 ==> 0 <= q <= a,
        a < 0 ==> a <= q <= 0,
{
    proof {
        let qi = a as int / d as int;
        if a >= 0 {
            lemma_div_pos_is_pos(a as int, d as int);
            lemma_div_nonincreasing(a as int, d as int);
        } else {
            lemma_div_is_ordered(a as int, 0, d as int);
            assert(0int / d as int == 0) by (nonlinear_arith)
                requires d > 0;
            lemma_fundamental_div_mod(a as int, d as int);
            let rem = a as int % d as int;
            assert(a as int == d as int * qi + rem);
            if qi != 0 {
                assert(a as int - qi <= 0) by (nonlinear_arith)
                    requires
                        a as int == d as int * qi + rem,
                        0 <= rem < d as int,
                        qi <= -1,
                        d as int >= 1;
            }
        }
    }
    match a.checked_div_euclid(d) {
        Some(q) => q,
        None => {
            proof {
                assert(false);
            }
            0
        },
    }
}

/// Exact product of two `i64`s, widened to `i128` (always fits).
pub fn wide_mul(a: i64, b: i64) -> (r: i128)
    ensures
        r == a as int * b as int,
{
    proof {
        assert(i128::MIN <= a as int * b as int <= i128::MAX) by (nonlinear_arith)
            requires i64::MIN <= a <= i64::MAX, i64::MIN <= b <= i64::MAX;
    }
    (a as i128) * (b as i128)
}

/// Fixed-point scalar product `(a * b) / SCALE`.
pub fn fixed_mul(a: i64, b: i64) -> (r: i64)
    requires
        i64::MIN <= fmul(a as int, b as int) <= i64::MAX,
    ensures
        r == fmul(a as int, b as int),
{
    let wide: i128 = wide_mul(a, b);
    let q: i128 = div_euclid_i128(wide, SCALE as i128);
    q as i64
}

/// Componentwise vector sum.
pub fn v3_add(a: &Vec3, b: &Vec3) -> (r: Vec3)
    requires
        i64::MIN <= a.x + b.x <= i64::MAX,
        i64::MIN <= a.y + b.y <= i64::MAX,
        i64::MIN <= a.z + b.z <= i64::MAX,
    ensures
        r.x == a.x + b.x,
        r.y == a.y + b.y,
        r.z == a.z + b.z,
{
    Vec3 { x: a.x + b.x, y: a.y + b.y, z: a.z + b.z }
}

/// Componentwise vector difference.
pub fn v3_sub(a: &Vec3, b: &Vec3) -> (r: Vec3)
    requires
        i64::MIN <= a.x - b.x <= i64::MAX,
        i64::MIN <= a.y - b.y <= i64::MAX,
        i64::MIN <= a.z - b.z <= i64::MAX,
    ensures
        r.x == a.x - b.x,
        r.y == a.y - b.y,
        r.z == a.z - b.z,
{
    Vec3 { x: a.x - b.x, y: a.y - b.y, z: a.z - b.z }
}

/// Scale a vector by a fixed-point scalar.
pub fn v3_scale(v: &Vec3, k: i64) -> (r: Vec3)
    requires
        i64::MIN <= fmul(v.x as int, k as int) <= i64::MAX,
        i64::MIN <= fmul(v.y as int, k as int) <= i64::MAX,
        i64::MIN <= fmul(v.z as int, k as int) <= i64::MAX,
    ensures
        r.x == fmul(v.x as int, k as int),
        r.y == fmul(v.y as int, k as int),
        r.z == fmul(v.z as int, k as int),
{
    Vec3 { x: fixed_mul(v.x, k), y: fixed_mul(v.y, k), z: fixed_mul(v.z, k) }
}

/// Dot product; the result carries scale `SCALE^2`.
pub fn v3_dot(a: &Vec3, b: &Vec3) -> (r: i64)
    requires
        v3_bounded(*a, COORD_MAX as int),
        v3_bounded(*b, COORD_MAX as int),
    ensures
        r == dot3(*a, *b),
{
    proof {
        lemma_products_bounded(*a, *b, COORD_MAX as int);
    }
    let px: i128 = wide_mul(a.x, b.x);
    let py: i128 = wide_mul(a.y, b.y);
    let pz: i128 = wide_mul(a.z, b.z);
    (px + py + pz) as i64
}

/// Fixed-point cross product.
pub fn v3_cross(a: &Vec3, b: &Vec3) -> (r: Vec3)
    requires
        v3_bounded(*a, COORD_MAX as int),
        v3_bounded(*b, COORD_MAX as int),
    ensures
        r.x == crossf_x(*a, *b),
        r.y == crossf_y(*a, *b),
        r.z == crossf_z(*a, *b),
{
    proof {
        lemma_cross_products_bounded(*a, *b, COORD_MAX as int);
    }
    let nx: i128 = wide_mul(a.y, b.z) - wide_mul(a.z, b.y);
    let ny: i128 = wide_mul(a.z, b.x) - wide_mul(a.x, b.z);
    let nz: i128 = wide_mul(a.x, b.y) - wide_mul(a.y, b.x);
    let qx: i128 = div_euclid_i128(nx, SCALE as i128);
    let qy: i128 = div_euclid_i128(ny, SCALE as i128);
    let qz: i128 = div_euclid_i128(nz, SCALE as i128);
    Vec3 { x: qx as i64, y: qy as i64, z: qz as i64 }
}

proof fn lemma_products_bounded(a: Vec3, b: Vec3, c: int) by (nonlinear_arith)
    requires
        c >= 0,
        v3_bounded(a, c),
        v3_bounded(b, c),
    ensures
        -c * c <= a.x * b.x <= c * c,
        -c * c <= a.y * b.y <= c * c,
        -c * c <= a.z * b.z <= c * c,
{
}

/// The cross-product numerators of two bounded vectors are bounded.
pub proof fn lemma_cross_products_bounded(a: Vec3, b: Vec3, c: int) by (nonlinear_arith)
    requires
        c >= 0,
        v3_bounded(a, c),
        v3_bounded(b, c),
    ensures
        -2 * c * c <= a.y * b.z - a.z * b.y <= 2 * c * c,
        -2 * c * c <= a.z * b.x - a.x * b.z <= 2 * c * c,
        -2 * c * c <= a.x * b.y - a.y * b.x <= 2 * c * c,
{
}

/// A squared length is never negative, and vanishes only on the zero vector.
pub proof fn lemma_norm_sq_zero(v: Vec3)
    ensures
        norm_sq(v) >= 0,
        norm_sq(v) == 0 <==> is_zero3(v),
{
    assert(norm_sq(v) >= 0 && (norm_sq(v) == 0 <==> is_zero3(v))) by (nonlinear_arith);
}

/// The fixed-point unit vector along `v`; the zero vector maps to itself.
pub open spec fn normalized_x(v: Vec3) -> int {
    if norm_sq(v) == 0 {
        0
    } else {
        (v.x * SCALE) / (sqrt_floor(norm_sq(v) as nat) as int)
    }
}

pub open spec fn normalized_y(v: Vec3) -> int {
    if norm_sq(v) == 0 {
        0
    } else {
        (v.y * SCALE) / (sqrt_floor(norm_sq(v) as nat) as int)
    }
}

pub open spec fn normalized_z(v: Vec3) -> int {
    if norm_sq(v) == 0 {
        0
    } else {
        (v.z * SCALE) / (sqrt_floor(norm_sq(v) as nat) as int)
    }
}

/// Normalize `v` to fixed-point unit length (each component ends within
/// `[-SCALE, SCALE]`); the zero vector comes back unchanged.
pub fn v3_normalize(v: &Vec3) -> (r: Vec3)
    requires
        v3_bounded(*v, COORD_MAX as int),
    ensures
        r.x == normalized_x(*v),
        r.y == normalized_y(*v),
        r.z == normalized_z(*v),
        v3_bounded(r, SCALE as int),
        is_zero3(r) <==> is_zero3(*v),
{
    proof {
        lemma_norm_sq_zero(*v);
    }
    let len2: i64 = v3_dot(v, v);
    if len2 == 0 {
        return Vec3 { x: 0, y: 0, z: 0 };
    }
    let n: u128 = len2 as u128;
    let len: u128 = isqrt_u128(n);
    proof {
        assert(n as nat == norm_sq(*v));
        lemma_sqrt_floor_bounds(n as nat);
        assert((len as nat) * (len as nat) <= n as nat);
        if len == 0 {
            assert((0nat + 1) * (0nat + 1) == 1) by (nonlinear_arith);
            assert((n as nat) < 1);
            assert(false);
        }
        assert(len < 0x1_0000_0000u128) by (nonlinear_arith)
            requires (len as nat) * (len as nat) <= n as nat, n <= i64::MAX as u128;
        assert(v.x * v.x <= norm_sq(*v) && v.y * v.y <= norm_sq(*v) && v.z * v.z <= norm_sq(*v))
            by (nonlinear_arith);
        lemma_normalized_component_bounded(v.x as int, n as int, len as int);
        lemma_normalized_component_bounded(v.y as int, n as int, len as int);
        lemma_normalized_component_bounded(v.z as int, n as int, len as int);
        lemma_normalize_keeps_nonzero(*v, n as int, len as int);
    }
    let lw: i128 = len as i128;
    let qx: i128 = div_euclid_i128(wide_mul(v.x, SCALE), lw);
    let qy: i128 = div_euclid_i128(wide_mul(v.y, SCALE), lw);
    let qz: i128 = div_euclid_i128(wide_mul(v.z, SCALE), lw);
    Vec3 { x: qx as i64, y: qy as i64, z: qz as i64 }
}

/// One normalized component lies within `[-SCALE, SCALE]`: the component's
/// square never exceeds the squared length, so its magnitude never exceeds
/// the floor square root.
proof fn lemma_normalized_component_bounded(c: int, len2: int, len: int)
    requires
        len >= 1,
        c * c <= len2,
        len * len <= len2 < (len + 1) * (len + 1),
    ensures
        -(SCALE as int) <= (c * SCALE) / len <= SCALE as int,
{
    assert(-len <= c <= len) by (nonlinear_arith)
        requires c * c <= len2, len2 < (len + 1) * (len + 1), len >= 1;
    assert(-len * SCALE <= c * SCALE <= len * SCALE) by (nonlinear_arith)
        requires -len <= c <= len, SCALE as int > 0;
    lemma_div_is_ordered(c * SCALE, len * SCALE, len);
    lemma_div_is_ordered(-len * SCALE, c * SCALE, len);
    lemma_div_multiples_vanish(SCALE as int, len);
    lemma_div_multiples_vanish(-(SCALE as int), len);
    assert(len * SCALE == len * (SCALE as int)) by (nonlinear_arith);
    assert(-len * SCALE == len * (-(SCALE as int))) by (nonlinear_arith);
}

/// A nonzero vector stays nonzero after normalization: its largest component
/// `c` has `3 c^2 >= len2 >= len^2`, so `|c| * SCALE >= 2 |c| >= len` and the
/// quotient cannot floor to zero.
proof fn lemma_normalize_keeps_nonzero(v: Vec3, len2: int, len: int)
    requires
        len >= 1,
        len2 == norm_sq(v),
        len * len <= len2 < (len + 1) * (len + 1),
        !is_zero3(v),
    ensures
        (v.x * SCALE) / len != 0 || (v.y * SCALE) / len != 0 || (v.z * SCALE) / len != 0,
{
    if v.x * v.x >= v.y * v.y && v.x * v.x >= v.z * v.z {
        assert(3 * (v.x * v.x) >= len * len && v.x != 0) by (nonlinear_arith)
            requires
                v.x * v.x >= v.y * v.y,
                v.x * v.x >= v.z * v.z,
                len2 == norm_sq(v),
                len * len <= len2,
                len >= 1;
        lemma_big_component(v.x as int, len);
    } else if v.y * v.y >= v.x * v.x && v.y * v.y >= v.z * v.z {
        assert(3 * (v.y * v.y) >= len * len && v.y != 0) by (nonlinear_arith)
            requires
                v.y * v.y >= v.x * v.x,
                v.y * v.y >= v.z * v.z,
                len2 == norm_sq(v),
                len * len <= len2,
                len >= 1;
        lemma_big_component(v.y as int, len);
    } else {
        assert(3 * (v.z * v.z) >= len * len && v.z != 0) by (nonlinear_arith)
            requires
                v.z * v.z >= v.x * v.x,
                v.z * v.z >= v.y * v.y,
                len2 == norm_sq(v),
                len * len <= len2,
                len >= 1;
        lemma_big_component(v.z as int, len);
    }
}

/// A component whose square is at least a third of the squared length keeps a
/// nonzero normalized value.
proof fn lemma_big_component(c: int, len: int)
    requires
        len >= 1,
        c != 0,
        3 * (c * c) >= len * len,
    ensures
        (c * SCALE) / len != 0,
{
    if c > 0 {
        assert(c * SCALE >= len) by (nonlinear_arith)
            requires c >= 1, len >= 1, 3 * (c * c) >= len * len, SCALE as int >= 4;
        lemma_div_is_ordered(len, c * SCALE, len);
        lemma_div_multiples_vanish(1, len);
        assert(len * 1 == len);
    } else {
        assert(c * SCALE <= -len) by (nonlinear_arith)
            requires c <= -1, len >= 1, 3 * (c * c) >= len * len, SCALE as int >= 4;
        lemma_div_is_ordered(c * SCALE, -len, len);
        lemma_div_multiples_vanish(-1, len);
        assert(len * -1 == -len);
    }
}

/// A quotient's magnitude never exceeds its numerator's bound divided by the
/// (positive) divisor, up to the floor step below zero.
pub proof fn lemma_div_sym_bound(num: int, b: int, d: int)
    requires
        d >= 1,
        0 <= b,
        -b <= num <= b,
    ensures
        -(b / d) - 1 <= num / d <= b / d,
{
    lemma_div_is_ordered(num, b, d);
    lemma_div_is_ordered(-b, num, d);
    lemma_fundamental_div_mod(b, d);
    lemma_fundamental_div_mod(-b, d);
    assert((-b) / d >= -(b / d) - 1) by (nonlinear_arith)
        requires
            b == d * (b / d) + b % d,
            0 <= b % d < d,
            -b == d * ((-b) / d) + (-b) % d,
            0 <= (-b) % d < d,
            d >= 1;
}

/// Dividing a value bounded by `k * SCALE` by `SCALE` lands in `[-k - 1, k]`.
pub proof fn lemma_fdiv_scale_bound(num: int, k: int)
    requires
        0 <= k,
        -k * (SCALE as int) <= num <= k * (SCALE as int),
    ensures
        -k - 1 <= num / (SCALE as int) <= k,
{
    lemma_div_sym_bound(num, k * (SCALE as int), SCALE as int);
    lemma_div_multiples_vanish(k, SCALE as int);
    assert(k * (SCALE as int) == (SCALE as int) * k) by (nonlinear_arith);
}

/// A fixed-point product of a bounded exact product stays within `i64`.
pub proof fn lemma_fmul_in_i64(a: int, b: int)
    requires
        -0x7fff_ffff_ffff_ffff <= a * b <= 0x7fff_ffff_ffff_ffff,
    ensures
        i64::MIN as int <= fmul(a, b) <= i64::MAX as int,
{
    lemma_div_sym_bound(a * b, 0x7fff_ffff_ffff_ffff, SCALE as int);
}

/// Fixed-point value of `n` millimeters (a thousandth of a unit).
pub fn millimeters(n: i64) -> (r: i64)
    requires
        -1000000000 <= n <= 1000000000,
    ensures
        r == (n * SCALE) / 1000,
{
    let q: i128 = div_euclid_i128(wide_mul(n, SCALE), 1000);
    q as i64
}

/// Fixed-point value of `n` centimeters (a hundredth of a unit).
pub fn centimeters(n: i64) -> (r: i64)
    requires
        -1000000000 <= n <= 1000000000,
    ensures
        r == (n * SCALE) / 100,
{
    let q: i128 = div_euclid_i128(wide_mul(n, SCALE), 100);
    q as i64
}

} // verus!
