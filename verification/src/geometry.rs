//! Rays, spheres, and the ray-sphere intersection engine.
//!
//! The quadratic `a t^2 + 2 half_b t + c = 0` is evaluated exactly over the
//! fixed-point integers; the square root of the discriminant is the floor
//! square root, and each candidate root is the floored fixed-point quotient.
//! The contract of [`ray_sphere_intersection`] pins the result down to these
//! exact values.

use vstd::prelude::*;
use vstd::arithmetic::div_mod::lemma_div_multiples_vanish;
use crate::math::{
    Vec3, SCALE, COORD_MAX, v3_bounded, is_zero3, norm_sq, sqrt_floor, fmul,
    lemma_norm_sq_zero, lemma_sqrt_floor_bounds, wide_mul, div_euclid_i128, isqrt_u128,
    lemma_div_sym_bound,
};

verus! {

/// A half-line: origin and direction (fixed-point; a valid ray has a nonzero
/// direction, and the sample generator emits unit-length ones).
#[derive(Clone, Copy, Debug, PartialEq, Eq, Structural)]
pub struct Ray {
    pub origin: Vec3,
    pub dir: Vec3,
}

/// A sphere: center and positive radius.
#[derive(Clone, Copy, Debug, PartialEq, Eq, Structural)]
pub struct Sphere {
    pub center: Vec3,
    pub radius: i64,
}

/// A successful intersection: distance along the ray, outward surface normal,
/// and the world-space point.
#[derive(Clone, Copy, Debug, PartialEq, Eq, Structural)]
pub struct HitRecord {
    pub dist: i64,
    pub norm: Vec3,
    pub point: Vec3,
}

/// A ray with a zero-length direction was handed to the intersection engine.
#[derive(Clone, Copy, Debug, PartialEq, Eq, Structural)]
pub struct InvalidRayError;

impl Ray {
    /// Build a ray from origin and direction.
    pub fn new(origin: Vec3, dir: Vec3) -> (r: Ray)
        ensures
            r == (Ray { origin, dir }),
    {
        Ray { origin, dir }
    }

    /// Coordinates small enough for the intersection engine.
    pub open spec fn wf(self) -> bool {
        v3_bounded(self.origin, COORD_MAX as int) && v3_bounded(self.dir, COORD_MAX as int)
    }
}

impl Sphere {
    /// Coordinates small enough for the intersection engine; positive radius.
    pub open spec fn wf(self) -> bool {
        v3_bounded(self.center, COORD_MAX as int) && 1 <= self.radius <= COORD_MAX
    }
}

/// Quadratic coefficient `a = dir . dir` (scale `SCALE^2`).
pub open spec fn quad_a(r: Ray) -> int {
    norm_sq(r.dir)
}

/// Quadratic coefficient `half_b = (origin - center) . dir` (scale `SCALE^2`).
pub open spec fn quad_half_b(r: Ray, s: Sphere) -> int {
    (r.origin.x - s.center.x) * r.dir.x
        + (r.origin.y - s.center.y) * r.dir.y
        + (r.origin.z - s.center.z) * r.dir.z
}

/// Quadratic coefficient `c = (origin - center) . (origin - center) - radius^2`.
pub open spec fn quad_c(r: Ray, s: Sphere) -> int {
    (r.origin.x - s.center.x) * (r.origin.x - s.center.x)
        + (r.origin.y - s.center.y) * (r.origin.y - s.center.y)
        + (r.origin.z - s.center.z) * (r.origin.z - s.center.z)
        - s.radius * s.radius
}

/// Discriminant `half_b^2 - a c`; negative exactly when the ray misses.
pub open spec fn discriminant(r: Ray, s: Sphere) -> int {
    quad_half_b(r, s) * quad_half_b(r, s) - quad_a(r) * quad_c(r, s)
}

/// Floor square root of the discriminant (meaningful when it is nonnegative).
pub open spec fn sqrt_disc(r: Ray, s: Sphere) -> int {
    sqrt_floor(discriminant(r, s) as nat) as int
}

/// The nearer candidate distance, in fixed-point scale.
pub open spec fn near_root(r: Ray, s: Sphere) -> int {
    ((-quad_half_b(r, s) - sqrt_disc(r, s)) * SCALE) / quad_a(r)
}

/// The farther candidate distance, in fixed-point scale.
pub open spec fn far_root(r: Ray, s: Sphere) -> int {
    ((-quad_half_b(r, s) + sqrt_disc(r, s)) * SCALE) / quad_a(r)
}

/// The accepted hit distance: none if the discriminant is negative; otherwise
/// the nearer root if it lies within `[t_min, t_max]`, else the farther root
/// if it does, else none.
pub open spec fn hit_dist(r: Ray, s: Sphere, t_min: int, t_max: int) -> Option<int> {
    if discriminant(r, s) < 0 {
        None
    } else if t_min <= near_root(r, s) <= t_max {
        Some(near_root(r, s))
    } else if t_min <= far_root(r, s) <= t_max {
        Some(far_root(r, s))
    } else {
        None
    }
}

/// One coordinate of the hit point `origin + dir * dist` (here for `x`; the
/// other axes read the same way).
pub open spec fn hit_point_x(r: Ray, d: int) -> int {
    r.origin.x + fmul(r.dir.x as int, d)
}

pub open spec fn hit_point_y(r: Ray, d: int) -> int {
    r.origin.y + fmul(r.dir.y as int, d)
}

pub open spec fn hit_point_z(r: Ray, d: int) -> int {
    r.origin.z + fmul(r.dir.z as int, d)
}

/// One coordinate of the outward normal `(point - center) / radius`.
pub open spec fn hit_norm_x(r: Ray, s: Sphere, d: int) -> int {
    ((hit_point_x(r, d) - s.center.x) * SCALE) / (s.radius as int)
}

pub open spec fn hit_norm_y(r: Ray, s: Sphere, d: int) -> int {
    ((hit_point_y(r, d) - s.center.y) * SCALE) / (s.radius as int)
}

pub open spec fn hit_norm_z(r: Ray, s: Sphere, d: int) -> int {
    ((hit_point_z(r, d) - s.center.z) * SCALE) / (s.radius as int)
}

/// The record the engine owes for an accepted distance `d`.
pub open spec fn is_hit_record(rec: HitRecord, r: Ray, s: Sphere, d: int) -> bool {
    &&& rec.dist == d
    &&& rec.point.x == hit_point_x(r, d)
    &&& rec.point.y == hit_point_y(r, d)
    &&& rec.point.z == hit_point_z(r, d)
    &&& rec.norm.x == hit_norm_x(r, s, d)
    &&& rec.norm.y == hit_norm_y(r, s, d)
    &&& rec.norm.z == hit_norm_z(r, s, d)
}

/// Intersect a ray with a sphere over the distance range `[t_min, t_max]`.
///
/// A zero-length direction is rejected as an invalid ray. Otherwise the
/// result is exactly `hit_dist`: `None` when the ray misses or both roots
/// fall outside the range, and otherwise the accepted distance together with
/// the hit point and outward normal it determines.
pub fn ray_sphere_intersection(ray: &Ray, sphere: &Sphere, t_min: i64, t_max: i64) -> (res: Result<
    Option<HitRecord>,
    InvalidRayError,
>)
    requires
        ray.wf(),
        sphere.wf(),
        0 <= t_min <= t_max <= COORD_MAX,
    ensures
        res is Err <==> is_zero3(ray.dir),
        res is Ok ==> match hit_dist(*ray, *sphere, t_min as int, t_max as int) {
            None => res->Ok_0 is None,
            Some(d) => {
                &&& res->Ok_0 is Some
                &&& is_hit_record(res->Ok_0->Some_0, *ray, *sphere, d)
                &&& t_min <= d <= t_max
            },
        },
{
    let r = *ray;
    let s = *sphere;
    if r.dir.x == 0 && r.dir.y == 0 && r.dir.z == 0 {
        return Err(InvalidRayError);
    }
    proof {
        lemma_norm_sq_zero(r.dir);
        lemma_quad_product_bounds(r, s);
        lemma_quad_bounds(r, s);
    }
    let ocx: i64 = r.origin.x - s.center.x;
    let ocy: i64 = r.origin.y - s.center.y;
    let ocz: i64 = r.origin.z - s.center.z;

    let a: i128 = wide_mul(r.dir.x, r.dir.x) + wide_mul(r.dir.y, r.dir.y) + wide_mul(
        r.dir.z,
        r.dir.z,
    );
    let half_b: i128 = wide_mul(ocx, r.dir.x) + wide_mul(ocy, r.dir.y) + wide_mul(ocz, r.dir.z);
    let c: i128 = wide_mul(ocx, ocx) + wide_mul(ocy, ocy) + wide_mul(ocz, ocz) - wide_mul(
        s.radius,
        s.radius,
    );
    proof {
        assert(a == quad_a(r));
        assert(half_b == quad_half_b(r, s));
        assert(c == quad_c(r, s));
        lemma_disc_in_i128(quad_a(r), quad_half_b(r, s), quad_c(r, s));
    }
    let disc: i128 = half_b * half_b - a * c;
    if disc < 0 {
        return Ok(None);
    }
    proof {
        lemma_sqrt_floor_bounds(disc as nat);
        assert((sqrt_floor(disc as nat) as int) * (sqrt_floor(disc as nat) as int)
            <= disc as int);
        assert(sqrt_floor(disc as nat) < 0x1_0000_0000_0000_0000) by (nonlinear_arith)
            requires
                (sqrt_floor(disc as nat) as int) * (sqrt_floor(disc as nat) as int)
                    <= disc as int,
                disc as int <= i128::MAX;
    }
    let sqrtd: i128 = isqrt_u128(disc as u128) as i128;
    let num_near: i128 = (-half_b - sqrtd) * (SCALE as i128);
    let near: i128 = div_euclid_i128(num_near, a);
    assert(near == near_root(r, s));
    let tmin_w: i128 = t_min as i128;
    let tmax_w: i128 = t_max as i128;
    if tmin_w <= near && near <= tmax_w {
        let rec = build_hit_record(&r, &s, near as i64);
        return Ok(Some(rec));
    }
    let num_far: i128 = (-half_b + sqrtd) * (SCALE as i128);
    let far: i128 = div_euclid_i128(num_far, a);
    assert(far == far_root(r, s));
    if tmin_w <= far && far <= tmax_w {
        let rec = build_hit_record(&r, &s, far as i64);
        return Ok(Some(rec));
    }
    Ok(None)
}

/// Bounds on each product feeding the quadratic coefficients.
proof fn lemma_quad_product_bounds(r: Ray, s: Sphere) by (nonlinear_arith)
    requires
        r.wf(),
        s.wf(),
    ensures
        0 <= r.dir.x * r.dir.x <= (COORD_MAX as int) * (COORD_MAX as int),
        0 <= r.dir.y * r.dir.y <= (COORD_MAX as int) * (COORD_MAX as int),
        0 <= r.dir.z * r.dir.z <= (COORD_MAX as int) * (COORD_MAX as int),
        -2 * (COORD_MAX as int) * (COORD_MAX as int) <= (r.origin.x - s.center.x) * r.dir.x
            <= 2 * (COORD_MAX as int) * (COORD_MAX as int),
        -2 * (COORD_MAX as int) * (COORD_MAX as int) <= (r.origin.y - s.center.y) * r.dir.y
            <= 2 * (COORD_MAX as int) * (COORD_MAX as int),
        -2 * (COORD_MAX as int) * (COORD_MAX as int) <= (r.origin.z - s.center.z) * r.dir.z
            <= 2 * (COORD_MAX as int) * (COORD_MAX as int),
        0 <= (r.origin.x - s.center.x) * (r.origin.x - s.center.x)
            <= 4 * (COORD_MAX as int) * (COORD_MAX as int),
        0 <= (r.origin.y - s.center.y) * (r.origin.y - s.center.y)
            <= 4 * (COORD_MAX as int) * (COORD_MAX as int),
        0 <= (r.origin.z - s.center.z) * (r.origin.z - s.center.z)
            <= 4 * (COORD_MAX as int) * (COORD_MAX as int),
        0 <= s.radius * s.radius <= (COORD_MAX as int) * (COORD_MAX as int),
{
}

/// Bounds on the quadratic coefficients that follow from well-formed inputs.
proof fn lemma_quad_bounds(r: Ray, s: Sphere) by (nonlinear_arith)
    requires
        r.wf(),
        s.wf(),
    ensures
        0 <= quad_a(r) <= 3 * (COORD_MAX as int) * (COORD_MAX as int),
        -6 * (COORD_MAX as int) * (COORD_MAX as int) <= quad_half_b(r, s) <= 6 * (COORD_MAX as int)
            * (COORD_MAX as int),
        -(COORD_MAX as int) * (COORD_MAX as int) <= quad_c(r, s) <= 12 * (COORD_MAX as int) * (
        COORD_MAX as int),
{
}

/// The discriminant stays within `i128` for bounded coefficients.
proof fn lemma_disc_in_i128(a: int, hb: int, c: int) by (nonlinear_arith)
    requires
        0 <= a <= 3 * (COORD_MAX as int) * (COORD_MAX as int),
        -6 * (COORD_MAX as int) * (COORD_MAX as int) <= hb <= 6 * (COORD_MAX as int) * (
        COORD_MAX as int),
        -(COORD_MAX as int) * (COORD_MAX as int) <= c <= 12 * (COORD_MAX as int) * (
        COORD_MAX as int),
    ensures
        i128::MIN <= hb * hb - a * c <= i128::MAX,
        i128::MIN <= hb * hb <= i128::MAX,
        i128::MIN <= a * c <= i128::MAX,
{
}

/// Build the hit record for an accepted distance.
fn build_hit_record(ray: &Ray, sphere: &Sphere, d: i64) -> (rec: HitRecord)
    requires
        ray.wf(),
        sphere.wf(),
        0 <= d <= COORD_MAX,
    ensures
        is_hit_record(rec, *ray, *sphere, d as int),
{
    let px = hit_point_coord(ray.origin.x, ray.dir.x, d);
    let py = hit_point_coord(ray.origin.y, ray.dir.y, d);
    let pz = hit_point_coord(ray.origin.z, ray.dir.z, d);
    let nx = hit_norm_coord(px, sphere.center.x, sphere.radius);
    let ny = hit_norm_coord(py, sphere.center.y, sphere.radius);
    let nz = hit_norm_coord(pz, sphere.center.z, sphere.radius);
    HitRecord {
        dist: d,
        point: Vec3 { x: px, y: py, z: pz },
        norm: Vec3 { x: nx, y: ny, z: nz },
    }
}

/// One coordinate of `origin + dir * d`.
fn hit_point_coord(o: i64, dir: i64, d: i64) -> (p: i64)
    requires
        -COORD_MAX <= o <= COORD_MAX,
        -COORD_MAX <= dir <= COORD_MAX,
        0 <= d <= COORD_MAX,
    ensures
        p == o + fmul(dir as int, d as int),
        -0x1001_0000_0000 <= p <= 0x1001_0000_0000,
{
    proof {
        assert(-0x1000_0000_0000_0000 <= (dir as int) * (d as int) <= 0x1000_0000_0000_0000)
            by (nonlinear_arith)
            requires -COORD_MAX <= dir <= COORD_MAX, 0 <= d <= COORD_MAX;
        lemma_div_sym_bound((dir as int) * (d as int), 0x1000_0000_0000_0000, SCALE as int);
        lemma_div_multiples_vanish(0x1000_0000_0000, SCALE as int);
    }
    let q: i128 = div_euclid_i128(wide_mul(dir, d), SCALE as i128);
    o + (q as i64)
}

/// One coordinate of `(point - center) / radius`.
fn hit_norm_coord(p: i64, center: i64, radius: i64) -> (n: i64)
    requires
        -0x1001_0000_0000 <= p <= 0x1001_0000_0000,
        -COORD_MAX <= center <= COORD_MAX,
        1 <= radius <= COORD_MAX,
    ensures
        n == ((p - center) * SCALE) / (radius as int),
{
    proof {
        assert(-0x1_0020_0000_0000_0000 <= (p - center) * (SCALE as int)
            <= 0x1_0020_0000_0000_0000) by (nonlinear_arith)
            requires
                -0x1002_0000_0000 <= p - center <= 0x1002_0000_0000,
                SCALE == 65536;
    }
    let q: i128 = div_euclid_i128(wide_mul(p - center, SCALE), radius as i128);
    q as i64
}

/// A tangent ray: when the discriminant is exactly zero the two candidate
/// roots coincide, so the engine has exactly one candidate distance, and
/// accepts it if and only if it lies within the range.
pub proof fn lemma_tangent_single_hit(r: Ray, s: Sphere, t_min: int, t_max: int)
    requires
        discriminant(r, s) == 0,
    ensures
        near_root(r, s) == far_root(r, s),
        hit_dist(r, s, t_min, t_max) == if t_min <= near_root(r, s) <= t_max {
            Some(near_root(r, s))
        } else {
            None::<int>
        },
{
    assert(sqrt_floor(0nat) == 0);
}

} // verus!
