//! Tests for the camera's sample generator: enumeration order, counts,
//! determinism, and configuration validation.

use raytracer::camera::{Camera, ConfigurationError, Pixel, RayIterator};
use raytracer::geometry::Ray;
use raytracer::math::{vec2, vec3, SCALE};

const S: i64 = SCALE;

fn test_camera() -> Camera {
    // Look down -z (unit vector, not parallel to world up); exposure chosen
    // so that samples_per_pixel = floor(100 * exposure) = 2.
    Camera::new(
        vec3(0, 0, 10 * S),
        vec3(0, 0, -S),
        vec2(2359, 1572),
        1311,
        3276,
        S,
    )
}

fn collect(it: &mut RayIterator) -> Vec<(Pixel, Ray)> {
    let mut out = Vec::new();
    while let Some(pair) = it.next() {
        out.push(pair);
    }
    out
}

#[test]
fn sample_count_and_row_major_order() {
    // 2x2 pixels at 2 samples per pixel: exactly 8 samples, every pixel
    // exactly twice, consecutively, row-major with x varying fastest.
    let cam = test_camera();
    let mut it = cam.rays(2, 2).unwrap();
    assert_eq!(it.samples_per_pixel, 2);
    assert_eq!(it.total_samples, 8);
    let samples = collect(&mut it);
    assert_eq!(samples.len(), 8);
    let expected = [(0, 0), (0, 0), (1, 0), (1, 0), (0, 1), (0, 1), (1, 1), (1, 1)];
    for (k, (pixel, _)) in samples.iter().enumerate() {
        assert_eq!((pixel.x, pixel.y), expected[k]);
    }
    // Consecutive samples of one pixel carry the identical ray.
    for p in 0..4 {
        assert_eq!(samples[2 * p].1, samples[2 * p + 1].1);
    }
    // The generator is exhausted for good.
    assert!(it.next().is_none());
}

#[test]
fn regeneration_is_byte_identical() {
    // Two generators from the same unmodified snapshot emit identical
    // (pixel, ray) sequences.
    let cam = test_camera();
    let mut first = cam.rays(3, 2).unwrap();
    let mut second = cam.rays(3, 2).unwrap();
    let a = collect(&mut first);
    let b = collect(&mut second);
    assert_eq!(a.len(), b.len());
    for k in 0..a.len() {
        assert_eq!(a[k].0, b[k].0);
        assert_eq!(a[k].1, b[k].1);
    }
}

#[test]
fn changed_snapshot_changes_rays() {
    // Mutating the focal length between frames takes effect on the next
    // generator: directions differ while pixels agree.
    let cam = test_camera();
    let mut moved = cam;
    moved.focal_length = cam.focal_length + 655;
    let a = collect(&mut cam.rays(2, 2).unwrap());
    let b = collect(&mut moved.rays(2, 2).unwrap());
    assert_eq!(a.len(), b.len());
    assert_eq!(a[0].0, b[0].0);
    assert_ne!(a[0].1.dir, b[0].1.dir);
}

#[test]
fn degenerate_look_is_configuration_error() {
    // look parallel to world up: the sensor basis collapses and the
    // generator refuses instead of emitting broken rays.
    let cam = Camera::new(vec3(0, 0, 10 * S), vec3(0, S, 0), vec2(2359, 1572), 1311, 3276, S);
    let res = cam.rays(2, 2);
    assert_eq!(res.err(), Some(ConfigurationError::DegenerateLook));
}

#[test]
fn non_positive_sensor_rejected() {
    let cam = Camera::new(vec3(0, 0, 10 * S), vec3(0, 0, -S), vec2(0, 1572), 1311, 3276, S);
    assert_eq!(cam.rays(2, 2).err(), Some(ConfigurationError::NonPositiveSensor));
}

#[test]
fn non_positive_focal_length_rejected() {
    let cam = Camera::new(vec3(0, 0, 10 * S), vec3(0, 0, -S), vec2(2359, 1572), 1311, 0, S);
    assert_eq!(cam.rays(2, 2).err(), Some(ConfigurationError::NonPositiveFocalLength));
}

#[test]
fn non_positive_exposure_rejected() {
    let cam = Camera::new(vec3(0, 0, 10 * S), vec3(0, 0, -S), vec2(2359, 1572), -1, 3276, S);
    assert_eq!(cam.rays(2, 2).err(), Some(ConfigurationError::NonPositiveExposure));
}

#[test]
fn samples_per_pixel_follows_exposure() {
    // floor(100 * exposure): exposure 0.01 gives one sample per pixel; tiny
    // positive exposures are clamped up to one; exposure 0.05 gives five.
    let mut cam = test_camera();
    cam.exposure = S / 100;
    assert_eq!(cam.rays(2, 2).unwrap().samples_per_pixel, 1);
    cam.exposure = 1;
    assert_eq!(cam.rays(2, 2).unwrap().samples_per_pixel, 1);
    // 5 * S / 100 floors to 3276, just under five hundredths of a unit, so
    // the floor yields 4; one step more crosses the line to 5.
    cam.exposure = 5 * S / 100;
    assert_eq!(cam.rays(2, 2).unwrap().samples_per_pixel, 4);
    cam.exposure = 5 * S / 100 + 1;
    assert_eq!(cam.rays(2, 2).unwrap().samples_per_pixel, 5);
}

#[test]
fn rays_point_toward_focal_point() {
    // With the camera above looking down -z, every emitted direction is unit
    // length (within flooring) and points into -z.
    let cam = test_camera();
    let samples = collect(&mut cam.rays(2, 2).unwrap());
    for (_, ray) in samples {
        assert!(ray.dir.z < 0);
        let n2 = ray.dir.x * ray.dir.x + ray.dir.y * ray.dir.y + ray.dir.z * ray.dir.z;
        assert!(n2 < (S + 64) * (S + 64));
        assert!(n2 > (S - 64) * (S - 64));
    }
}
