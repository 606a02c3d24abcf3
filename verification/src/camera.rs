//! The camera and its sample generator.
//!
//! A `Camera` is a plain snapshot of view parameters. A `RayIterator` is the
//! sample generator derived from one snapshot and a target resolution: a
//! finite, restartable, deterministic sequence of `(pixel, ray)` pairs, one
//! batch of `samples_per_pixel` consecutive samples per pixel, pixels in
//! row-major order with `x` varying fastest.

use vstd::prelude::*;
use vstd::arithmetic::div_mod::lemma_multiply_divide_lt;
use vstd::arithmetic::div_mod::lemma_mod_division_less_than_divisor;
use vstd::arithmetic::div_mod::lemma_fundamental_div_mod;
use vstd::arithmetic::div_mod::lemma_fundamental_div_mod_converse_div;
use vstd::arithmetic::div_mod::lemma_fundamental_div_mod_converse_mod;
use vstd::arithmetic::mul::lemma_mul_is_commutative;
use crate::math::{
    Vec2, Vec3, SCALE, v3_bounded, sqrt_floor, fmul, vec3,
    v3_add, v3_sub, v3_scale, v3_cross, v3_normalize, div_euclid_i128,
    lemma_cross_products_bounded, lemma_fdiv_scale_bound,
};
use crate::geometry::Ray;

verus! {

/// Bound on the magnitude of each camera position coordinate.
pub const POS_MAX: i64 = 67108864;

/// Bound on the magnitude of sensor extents and the focal length (16 units).
pub const SENSOR_MAX: i64 = 1048576;

/// Bound on the magnitude of the exposure (1000 units).
pub const EXPOSURE_MAX: i64 = 65536000;

/// Bound on the resolution of either axis.
pub const RES_MAX: u64 = 4096;

/// A camera snapshot that cannot drive ray generation.
#[derive(Clone, Copy, Debug, PartialEq, Eq, Structural)]
pub enum ConfigurationError {
    /// The look direction is parallel to the world up vector (or zero), so
    /// the sensor basis degenerates to the zero vector.
    DegenerateLook,
    /// A sensor extent is zero or negative.
    NonPositiveSensor,
    /// The focal length is zero or negative.
    NonPositiveFocalLength,
    /// The exposure is zero or negative.
    NonPositiveExposure,
}

/// View parameters; a plain value copied into each sample generator, so
/// mutating a camera between frames takes effect on the next generator.
#[derive(Clone, Copy, Debug, PartialEq, Eq, Structural)]
pub struct Camera {
    /// Position of the camera.
    pub position: Vec3,
    /// Look direction (fixed-point unit vector).
    pub look: Vec3,
    /// Sensor extent in world units.
    pub sensor: Vec2,
    /// Sample-density control: `samples_per_pixel = floor(100 * exposure)`,
    /// clamped up to 1.
    pub exposure: i64,
    /// Distance from the sensor to the focal point.
    pub focal_length: i64,
    /// Reserved exposure-to-color scaling factor.
    pub iso: i64,
}

/// A 3-vector of unbounded integers, for stating the derived camera values.
pub struct V3i {
    pub x: int,
    pub y: int,
    pub z: int,
}

/// The integer view of a fixed-point vector.
pub open spec fn v3i(v: Vec3) -> V3i {
    V3i { x: v.x as int, y: v.y as int, z: v.z as int }
}

pub open spec fn add_i(a: V3i, b: V3i) -> V3i {
    V3i { x: a.x + b.x, y: a.y + b.y, z: a.z + b.z }
}

pub open spec fn sub_i(a: V3i, b: V3i) -> V3i {
    V3i { x: a.x - b.x, y: a.y - b.y, z: a.z - b.z }
}

pub open spec fn scale_i(v: V3i, k: int) -> V3i {
    V3i { x: fmul(v.x, k), y: fmul(v.y, k), z: fmul(v.z, k) }
}

pub open spec fn cross_i(a: V3i, b: V3i) -> V3i {
    V3i {
        x: (a.y * b.z - a.z * b.y) / (SCALE as int),
        y: (a.z * b.x - a.x * b.z) / (SCALE as int),
        z: (a.x * b.y - a.y * b.x) / (SCALE as int),
    }
}

pub open spec fn is_zero_i(v: V3i) -> bool {
    v.x == 0 && v.y == 0 && v.z == 0
}

/// Fixed-point normalization over integer vectors; zero maps to zero.
pub open spec fn normalize_i(v: V3i) -> V3i {
    let n2 = v.x * v.x + v.y * v.y + v.z * v.z;
    if n2 == 0 {
        V3i { x: 0, y: 0, z: 0 }
    } else {
        let l = sqrt_floor(n2 as nat) as int;
        V3i { x: (v.x * SCALE) / l, y: (v.y * SCALE) / l, z: (v.z * SCALE) / l }
    }
}

/// The world up direction used to derive the sensor basis.
pub open spec fn world_up() -> Vec3 {
    Vec3 { x: 0, y: SCALE, z: 0 }
}

/// Sensor x axis: `cross(look, world_up)`.
pub open spec fn camera_sensor_x(c: Camera) -> V3i {
    cross_i(v3i(c.look), v3i(world_up()))
}

/// Sensor y axis: `cross(look, sensor_x)`.
pub open spec fn camera_sensor_y(c: Camera) -> V3i {
    cross_i(v3i(c.look), camera_sensor_x(c))
}

/// Focal point: `position + look * focal_length`.
pub open spec fn camera_focal_point(c: Camera) -> V3i {
    add_i(v3i(c.position), scale_i(v3i(c.look), c.focal_length as int))
}

/// Bottom-left sensor corner:
/// `position - sensor_x * (sensor.x / 2) - sensor_y * (sensor.y / 2)`.
pub open spec fn camera_bottom_left(c: Camera) -> V3i {
    sub_i(
        sub_i(v3i(c.position), scale_i(camera_sensor_x(c), c.sensor.x as int / 2)),
        scale_i(camera_sensor_y(c), c.sensor.y as int / 2),
    )
}

impl Camera {
    /// Build a camera from its parameters.
    pub fn new(
        position: Vec3,
        look: Vec3,
        sensor: Vec2,
        exposure: i64,
        focal_length: i64,
        iso: i64,
    ) -> (c: Camera)
        ensures
            c == (Camera { position, look, sensor, exposure, focal_length, iso }),
    {
        Camera { position, look, sensor, exposure, focal_length, iso }
    }

    /// Magnitude caps that keep every derived value inside `i64`.
    pub open spec fn wf(self) -> bool {
        &&& v3_bounded(self.position, POS_MAX as int)
        &&& v3_bounded(self.look, SCALE as int)
        &&& -SENSOR_MAX <= self.sensor.x <= SENSOR_MAX
        &&& -SENSOR_MAX <= self.sensor.y <= SENSOR_MAX
        &&& -SENSOR_MAX <= self.focal_length <= SENSOR_MAX
        &&& -EXPOSURE_MAX <= self.exposure <= EXPOSURE_MAX
    }

    /// Create the sample generator for this snapshot at the given resolution.
    pub fn rays(&self, width: u64, height: u64) -> (res: Result<RayIterator, ConfigurationError>)
        requires
            self.wf(),
            1 <= width <= RES_MAX,
            1 <= height <= RES_MAX,
        ensures
            res is Ok <==> camera_config_error(*self) is None,
            res is Err ==> Some(res->Err_0) == camera_config_error(*self),
            res is Ok ==> res->Ok_0.wf() && res->Ok_0.cam@ == *self && res->Ok_0.i == 0
                && res->Ok_0.width == width && res->Ok_0.height == height,
    {
        RayIterator::new(self, width, height)
    }
}

/// What stops a camera snapshot from generating rays, if anything: a
/// non-positive sensor extent, focal length, or exposure, or a look direction
/// whose sensor basis degenerates to the zero vector.
pub open spec fn camera_config_error(c: Camera) -> Option<ConfigurationError> {
    if c.sensor.x <= 0 || c.sensor.y <= 0 {
        Some(ConfigurationError::NonPositiveSensor)
    } else if c.focal_length <= 0 {
        Some(ConfigurationError::NonPositiveFocalLength)
    } else if c.exposure <= 0 {
        Some(ConfigurationError::NonPositiveExposure)
    } else if is_zero_i(camera_sensor_x(c)) {
        Some(ConfigurationError::DegenerateLook)
    } else {
        None
    }
}

/// `floor(100 * exposure)`, clamped up to 1 so a valid camera always yields
/// at least one sample per pixel.
pub open spec fn samples_per_pixel(c: Camera) -> int {
    let raw = (100 * c.exposure) / (SCALE as int);
    if raw < 1 {
        1
    } else {
        raw
    }
}

/// Total number of samples a generator emits.
pub open spec fn total_samples(c: Camera, w: int, h: int) -> int {
    samples_per_pixel(c) * w * h
}

/// Pixel x coordinate of sample `i`: row-major, x fastest-varying.
pub open spec fn sample_pixel_x(c: Camera, w: int, i: int) -> int {
    (i / samples_per_pixel(c)) % w
}

/// Pixel y coordinate of sample `i`.
pub open spec fn sample_pixel_y(c: Camera, w: int, i: int) -> int {
    (i / samples_per_pixel(c)) / w
}

/// Normalized sensor position of a pixel coordinate, in `[0, SCALE)`.
pub open spec fn advance(extent: int, p: int) -> int {
    (p * (SCALE as int)) / extent
}

/// World-space ray origin for pixel `(px, py)`:
/// `bottom_left + sensor_x * advance.x * sensor.x + sensor_y * advance.y * sensor.y`.
pub open spec fn pixel_origin(c: Camera, w: int, h: int, px: int, py: int) -> V3i {
    add_i(
        add_i(
            camera_bottom_left(c),
            scale_i(scale_i(camera_sensor_x(c), advance(w, px)), c.sensor.x as int),
        ),
        scale_i(scale_i(camera_sensor_y(c), advance(h, py)), c.sensor.y as int),
    )
}

/// Ray direction for pixel `(px, py)`: toward the focal point, normalized.
pub open spec fn pixel_dir(c: Camera, w: int, h: int, px: int, py: int) -> V3i {
    normalize_i(sub_i(camera_focal_point(c), pixel_origin(c, w, h, px, py)))
}

/// World-space origin of sample `i` (every sample of a pixel shares one ray).
pub open spec fn sample_origin(c: Camera, w: int, h: int, i: int) -> V3i {
    pixel_origin(c, w, h, sample_pixel_x(c, w, i), sample_pixel_y(c, w, i))
}

/// Direction of sample `i`: toward the focal point, normalized.
pub open spec fn sample_dir(c: Camera, w: int, h: int, i: int) -> V3i {
    pixel_dir(c, w, h, sample_pixel_x(c, w, i), sample_pixel_y(c, w, i))
}

/// One pixel coordinate: `x` in `[0, width)`, `y` in `[0, height)`, `(0, 0)`
/// the bottom-left corner.
#[derive(Clone, Copy, Debug, PartialEq, Eq, Structural)]
pub struct Pixel {
    pub x: usize,
    pub y: usize,
}

/// The sample generator: emits `(pixel, ray)` pairs for one camera snapshot.
pub struct RayIterator {
    /// Index of the next sample to emit.
    pub i: u64,
    pub samples_per_pixel: u64,
    pub total_samples: u64,
    pub sensor_bottom_left: Vec3,
    pub sensor_x_axis: Vec3,
    pub sensor_y_axis: Vec3,
    pub sensor: Vec2,
    pub focal_point: Vec3,
    pub width: u64,
    pub height: u64,
    /// The snapshot all emitted samples are derived from.
    pub cam: Ghost<Camera>,
}

impl RayIterator {
    /// The generator's fields hold exactly the values derived from its camera
    /// snapshot, and every derived vector is small enough for ray generation.
    pub open spec fn wf(self) -> bool {
        &&& self.cam@.wf()
        &&& camera_config_error(self.cam@) is None
        &&& 1 <= self.width <= RES_MAX
        &&& 1 <= self.height <= RES_MAX
        &&& self.sensor == self.cam@.sensor
        &&& v3i(self.sensor_x_axis) == camera_sensor_x(self.cam@)
        &&& v3i(self.sensor_y_axis) == camera_sensor_y(self.cam@)
        &&& v3i(self.focal_point) == camera_focal_point(self.cam@)
        &&& v3i(self.sensor_bottom_left) == camera_bottom_left(self.cam@)
        &&& v3_bounded(self.sensor_x_axis, 2 * (SCALE as int) + 1)
        &&& v3_bounded(self.sensor_y_axis, 8 * (SCALE as int) + 10)
        &&& v3_bounded(self.focal_point, POS_MAX as int + 16 * (SCALE as int) + 1)
        &&& v3_bounded(self.sensor_bottom_left, POS_MAX as int + 8388608)
        &&& self.samples_per_pixel == samples_per_pixel(self.cam@)
        &&& self.total_samples == total_samples(self.cam@, self.width as int, self.height as int)
        &&& self.i <= self.total_samples
    }

    /// Derive a sample generator from a camera snapshot, validating the
    /// configuration first: the error is exactly `camera_config_error`.
    pub fn new(cam: &Camera, width: u64, height: u64) -> (res: Result<
        RayIterator,
        ConfigurationError,
    >)
        requires
            cam.wf(),
            1 <= width <= RES_MAX,
            1 <= height <= RES_MAX,
        ensures
            res is Ok <==> camera_config_error(*cam) is None,
            res is Err ==> Some(res->Err_0) == camera_config_error(*cam),
            res is Ok ==> res->Ok_0.wf() && res->Ok_0.cam@ == *cam && res->Ok_0.i == 0
                && res->Ok_0.width == width && res->Ok_0.height == height,
    {
        if cam.sensor.x <= 0 || cam.sensor.y <= 0 {
            return Err(ConfigurationError::NonPositiveSensor);
        }
        if cam.focal_length <= 0 {
            return Err(ConfigurationError::NonPositiveFocalLength);
        }
        if cam.exposure <= 0 {
            return Err(ConfigurationError::NonPositiveExposure);
        }
        let up = vec3(0, SCALE, 0);
        proof {
            lemma_cross_products_bounded(cam.look, up, SCALE as int);
            lemma_fdiv_scale_bound(cam.look.y * up.z - cam.look.z * up.y, 2 * (SCALE as int));
            lemma_fdiv_scale_bound(cam.look.z * up.x - cam.look.x * up.z, 2 * (SCALE as int));
            lemma_fdiv_scale_bound(cam.look.x * up.y - cam.look.y * up.x, 2 * (SCALE as int));
        }
        let sensor_x_axis = v3_cross(&cam.look, &up);
        if sensor_x_axis.x == 0 && sensor_x_axis.y == 0 && sensor_x_axis.z == 0 {
            return Err(ConfigurationError::DegenerateLook);
        }
        proof {
            lemma_cross_products_bounded(cam.look, sensor_x_axis, 2 * (SCALE as int) + 1);
            lemma_fdiv_scale_bound(
                cam.look.y * sensor_x_axis.z - cam.look.z * sensor_x_axis.y,
                8 * (SCALE as int) + 9,
            );
            lemma_fdiv_scale_bound(
                cam.look.z * sensor_x_axis.x - cam.look.x * sensor_x_axis.z,
                8 * (SCALE as int) + 9,
            );
            lemma_fdiv_scale_bound(
                cam.look.x * sensor_x_axis.y - cam.look.y * sensor_x_axis.x,
                8 * (SCALE as int) + 9,
            );
        }
        let sensor_y_axis = v3_cross(&cam.look, &sensor_x_axis);
        proof {
            lemma_scale_bounded(cam.look, cam.focal_length, SCALE as int, SENSOR_MAX as int, 16
                * (SCALE as int));
        }
        let focal_point = v3_add(&cam.position, &v3_scale(&cam.look, cam.focal_length));
        let half_w: i64 = div_euclid_i128(cam.sensor.x as i128, 2) as i64;
        let half_h: i64 = div_euclid_i128(cam.sensor.y as i128, 2) as i64;
        proof {
            lemma_scale_bounded(
                sensor_x_axis,
                half_w,
                2 * (SCALE as int) + 1,
                SENSOR_MAX as int / 2,
                17 * (SCALE as int),
            );
            lemma_scale_bounded(
                sensor_y_axis,
                half_h,
                8 * (SCALE as int) + 10,
                SENSOR_MAX as int / 2,
                65 * (SCALE as int),
            );
        }
        let sensor_bottom_left = v3_sub(
            &v3_sub(&cam.position, &v3_scale(&sensor_x_axis, half_w)),
            &v3_scale(&sensor_y_axis, half_h),
        );
        let e100: i64 = 100 * cam.exposure;
        proof {
            lemma_fdiv_scale_bound(e100 as int, 100000);
        }
        let spp_raw: i64 = div_euclid_i128(e100 as i128, SCALE as i128) as i64;
        let spp: u64 = if spp_raw < 1 {
            1
        } else {
            spp_raw as u64
        };
        proof {
            assert(spp * width <= 100000 * 4096 && spp * width * height <= 100000 * 4096 * 4096)
                by (nonlinear_arith)
                requires 1 <= spp <= 100000, 1 <= width <= 4096, 1 <= height <= 4096;
        }
        let total: u64 = spp * width * height;
        Ok(
            RayIterator {
                i: 0,
                samples_per_pixel: spp,
                total_samples: total,
                sensor_bottom_left,
                sensor_x_axis,
                sensor_y_axis,
                sensor: cam.sensor,
                focal_point,
                width,
                height,
                cam: Ghost(*cam),
            },
        )
    }

    /// Emit the next `(pixel, ray)` pair, or `None` once all
    /// `total_samples` samples are out. The emitted values are exactly the
    /// sample functions of the camera snapshot at the old index.
    pub fn next(&mut self) -> (r: Option<(Pixel, Ray)>)
        requires
            old(self).wf(),
        ensures
            final(self).wf(),
            final(self).cam == old(self).cam,
            final(self).width == old(self).width,
            final(self).height == old(self).height,
            final(self).samples_per_pixel == old(self).samples_per_pixel,
            final(self).total_samples == old(self).total_samples,
            final(self).sensor_bottom_left == old(self).sensor_bottom_left,
            final(self).sensor_x_axis == old(self).sensor_x_axis,
            final(self).sensor_y_axis == old(self).sensor_y_axis,
            final(self).sensor == old(self).sensor,
            final(self).focal_point == old(self).focal_point,
            old(self).i >= old(self).total_samples ==> r is None && final(self).i == old(self).i,
            old(self).i < old(self).total_samples ==> {
                let c = old(self).cam@;
                let w = old(self).width as int;
                let h = old(self).height as int;
                let i = old(self).i as int;
                &&& r is Some
                &&& final(self).i == old(self).i + 1
                &&& r->Some_0.0.x as int == sample_pixel_x(c, w, i)
                &&& r->Some_0.0.y as int == sample_pixel_y(c, w, i)
                &&& r->Some_0.0.x < old(self).width
                &&& r->Some_0.0.y < old(self).height
                &&& v3i(r->Some_0.1.origin) == sample_origin(c, w, h, i)
                &&& v3i(r->Some_0.1.dir) == sample_dir(c, w, h, i)
                &&& r->Some_0.1.wf()
                &&& v3_bounded(r->Some_0.1.dir, SCALE as int)
            },
    {
        if self.i >= self.total_samples {
            return None;
        }
        let ghost c = self.cam@;
        let ghost w = self.width as int;
        let ghost h = self.height as int;
        let i: u64 = self.i;
        self.i = i + 1;
        let spp: u64 = self.samples_per_pixel;
        let pixel_index: u64 = i / spp;
        proof {
            assert(samples_per_pixel(c) * w * h == samples_per_pixel(c) * (w * h))
                by (nonlinear_arith);
            lemma_multiply_divide_lt(i as int, spp as int, w * h);
            lemma_multiply_divide_lt(pixel_index as int, w, h);
            lemma_mod_division_less_than_divisor(pixel_index as int, w);
            lemma_div_mod_nonneg(pixel_index as int, w);
            lemma_div_mod_nonneg(i as int, spp as int);
        }
        let px: u64 = pixel_index % self.width;
        let py: u64 = pixel_index / self.width;
        proof {
            lemma_multiply_divide_lt(px as int * (SCALE as int), w, SCALE as int);
            lemma_multiply_divide_lt(py as int * (SCALE as int), h, SCALE as int);
            lemma_div_mod_nonneg(px as int * (SCALE as int), w);
            lemma_div_mod_nonneg(py as int * (SCALE as int), h);
        }
        let adv_x: i64 = ((px * 65536) / self.width) as i64;
        let adv_y: i64 = ((py * 65536) / self.height) as i64;
        proof {
            lemma_scale_bounded(self.sensor_x_axis, adv_x, 2 * (SCALE as int) + 1, SCALE as int, 2
                * (SCALE as int) + 2);
            lemma_scale_bounded(self.sensor_y_axis, adv_y, 8 * (SCALE as int) + 10, SCALE as int, 8
                * (SCALE as int) + 11);
        }
        let tx = v3_scale(&self.sensor_x_axis, adv_x);
        let ty = v3_scale(&self.sensor_y_axis, adv_y);
        proof {
            lemma_scale_bounded(tx, self.sensor.x, 2 * (SCALE as int) + 3, SENSOR_MAX as int, 33
                * (SCALE as int));
            lemma_scale_bounded(ty, self.sensor.y, 8 * (SCALE as int) + 12, SENSOR_MAX as int, 129
                * (SCALE as int));
        }
        let sx_term = v3_scale(&tx, self.sensor.x);
        let sy_term = v3_scale(&ty, self.sensor.y);
        let origin = v3_add(&v3_add(&self.sensor_bottom_left, &sx_term), &sy_term);
        let dir_raw = v3_sub(&self.focal_point, &origin);
        let dir = v3_normalize(&dir_raw);
        let pixel = Pixel { x: px as usize, y: py as usize };
        let ray = Ray { origin, dir };
        proof {
            assert(v3i(origin) == sample_origin(c, w, h, i as int));
            assert(v3i(dir) == sample_dir(c, w, h, i as int));
        }
        Some((pixel, ray))
    }
}

/// Quotient and remainder of nonnegative values by a positive divisor are
/// nonnegative.
proof fn lemma_div_mod_nonneg(a: int, d: int) by (nonlinear_arith)
    requires
        a >= 0,
        d >= 1,
    ensures
        0 <= a / d,
        0 <= a % d < d,
{
}

/// Componentwise bound for scaling a bounded vector by a bounded scalar.
proof fn lemma_scale_bounded(v: Vec3, k: i64, vb: int, kb: int, cap: int)
    requires
        0 <= vb,
        0 <= kb,
        0 <= cap,
        v3_bounded(v, vb),
        -kb <= k <= kb,
        vb * kb <= cap * (SCALE as int),
    ensures
        -cap - 1 <= fmul(v.x as int, k as int) <= cap,
        -cap - 1 <= fmul(v.y as int, k as int) <= cap,
        -cap - 1 <= fmul(v.z as int, k as int) <= cap,
{
    assert(-cap * (SCALE as int) <= v.x * k <= cap * (SCALE as int)) by (nonlinear_arith)
        requires -vb <= v.x <= vb, -kb <= k <= kb, vb * kb <= cap * (SCALE as int), 0 <= vb, 0 <= kb;
    assert(-cap * (SCALE as int) <= v.y * k <= cap * (SCALE as int)) by (nonlinear_arith)
        requires -vb <= v.y <= vb, -kb <= k <= kb, vb * kb <= cap * (SCALE as int), 0 <= vb, 0 <= kb;
    assert(-cap * (SCALE as int) <= v.z * k <= cap * (SCALE as int)) by (nonlinear_arith)
        requires -vb <= v.z <= vb, -kb <= k <= kb, vb * kb <= cap * (SCALE as int), 0 <= vb, 0 <= kb;
    lemma_fdiv_scale_bound(v.x * k, cap);
    lemma_fdiv_scale_bound(v.y * k, cap);
    lemma_fdiv_scale_bound(v.z * k, cap);
}

/// Sampling order: sample `i` lands on pixel `(px, py)` exactly when `i`
/// falls in that pixel's window of `samples_per_pixel` consecutive indices,
/// windows laid out in row-major order with `x` varying fastest. Hence every
/// pixel receives exactly `samples_per_pixel` consecutive samples, and all
/// `width * height` pixels are covered exactly once.
pub proof fn lemma_sample_window(c: Camera, w: int, h: int, px: int, py: int, i: int)
    requires
        w >= 1,
        h >= 1,
        0 <= px < w,
        0 <= py < h,
        0 <= i < total_samples(c, w, h),
    ensures
        (sample_pixel_x(c, w, i) == px && sample_pixel_y(c, w, i) == py) <==> ((py * w + px)
            * samples_per_pixel(c) <= i < (py * w + px + 1) * samples_per_pixel(c)),
{
    let spp = samples_per_pixel(c);
    let pi = i / spp;
    let lin = py * w + px;
    lemma_div_mod_nonneg(i, spp);
    if sample_pixel_x(c, w, i) == px && sample_pixel_y(c, w, i) == py {
        lemma_fundamental_div_mod(pi, w);
        lemma_mul_is_commutative(w, pi / w);
        assert(pi == lin);
        lemma_fundamental_div_mod(i, spp);
        lemma_mul_is_commutative(spp, pi);
        assert(lin * spp <= i < (lin + 1) * spp) by (nonlinear_arith)
            requires i == spp * lin + i % spp, 0 <= i % spp < spp;
    }
    if lin * spp <= i < (lin + 1) * spp {
        let rem = i - lin * spp;
        assert((lin + 1) * spp == lin * spp + spp) by (nonlinear_arith);
        assert(0 <= rem < spp);
        lemma_fundamental_div_mod_converse_div(i, spp, lin, rem);
        assert(pi == lin);
        lemma_fundamental_div_mod_converse_mod(lin, w, py, px);
        lemma_fundamental_div_mod_converse_div(lin, w, py, px);
        assert(sample_pixel_x(c, w, i) == px);
        assert(sample_pixel_y(c, w, i) == py);
    }
}

/// Every sample index lands on a pixel inside the target resolution.
pub proof fn lemma_sample_pixel_in_range(c: Camera, w: int, h: int, i: int)
    requires
        w >= 1,
        h >= 1,
        0 <= i < total_samples(c, w, h),
    ensures
        0 <= sample_pixel_x(c, w, i) < w,
        0 <= sample_pixel_y(c, w, i) < h,
{
    let spp = samples_per_pixel(c);
    assert(samples_per_pixel(c) * w * h == samples_per_pixel(c) * (w * h)) by (nonlinear_arith);
    lemma_multiply_divide_lt(i, spp, w * h);
    lemma_div_mod_nonneg(i, spp);
    lemma_multiply_divide_lt(i / spp, w, h);
    lemma_mod_division_less_than_divisor(i / spp, w);
    lemma_div_mod_nonneg(i / spp, w);
}

/// Determinism and restartability: the sample at any index is a function of
/// the camera snapshot and the resolution alone, so regenerating from an
/// unmodified snapshot yields an identical sequence.
pub proof fn lemma_sample_deterministic(c1: Camera, c2: Camera, w: int, h: int, i: int)
    requires
        c1 == c2,
    ensures
        sample_pixel_x(c1, w, i) == sample_pixel_x(c2, w, i),
        sample_pixel_y(c1, w, i) == sample_pixel_y(c2, w, i),
        sample_origin(c1, w, h, i) == sample_origin(c2, w, h, i),
        sample_dir(c1, w, h, i) == sample_dir(c2, w, h, i),
        total_samples(c1, w, h) == total_samples(c2, w, h),
{
}

} // verus!
