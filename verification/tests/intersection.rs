//! Tests for the ray-sphere intersection engine.

use raytracer::geometry::{ray_sphere_intersection, Ray, Sphere};
use raytracer::math::{vec3, SCALE};

const S: i64 = SCALE;

#[test]
fn head_on_hit_distance_normal_point() {
    // Sphere at the origin, radius 2; ray from (0, 0, 10) looking down -z.
    let sphere = Sphere { center: vec3(0, 0, 0), radius: 2 * S };
    let ray = Ray { origin: vec3(0, 0, 10 * S), dir: vec3(0, 0, -S) };
    let res = ray_sphere_intersection(&ray, &sphere, 0, 10_000 * S).unwrap();
    let hit = res.expect("head-on ray must hit");
    assert_eq!(hit.dist, 8 * S);
    assert_eq!((hit.norm.x, hit.norm.y, hit.norm.z), (0, 0, S));
    assert_eq!((hit.point.x, hit.point.y, hit.point.z), (0, 0, 2 * S));
}

#[test]
fn miss_returns_none() {
    // Same sphere; ray from (5, 5, 5) along +x never meets it.
    let sphere = Sphere { center: vec3(0, 0, 0), radius: 2 * S };
    let ray = Ray { origin: vec3(5 * S, 5 * S, 5 * S), dir: vec3(S, 0, 0) };
    let res = ray_sphere_intersection(&ray, &sphere, 0, 10_000 * S).unwrap();
    assert!(res.is_none());
}

#[test]
fn tangent_ray_single_hit() {
    // Unit sphere at the origin; ray grazing it at (1, 0, 0): the
    // discriminant is exactly zero and exactly one valid hit comes back.
    let sphere = Sphere { center: vec3(0, 0, 0), radius: S };
    let ray = Ray { origin: vec3(S, 0, 10 * S), dir: vec3(0, 0, -S) };
    let res = ray_sphere_intersection(&ray, &sphere, 0, 10_000 * S).unwrap();
    let hit = res.expect("tangent ray must report its single hit");
    assert_eq!(hit.dist, 10 * S);
    assert_eq!((hit.point.x, hit.point.y, hit.point.z), (S, 0, 0));
    assert_eq!((hit.norm.x, hit.norm.y, hit.norm.z), (S, 0, 0));
}

#[test]
fn zero_direction_rejected() {
    let sphere = Sphere { center: vec3(0, 0, 0), radius: S };
    let ray = Ray { origin: vec3(0, 0, 10 * S), dir: vec3(0, 0, 0) };
    let res = ray_sphere_intersection(&ray, &sphere, 0, 10_000 * S);
    assert!(res.is_err());
}

#[test]
fn hit_behind_range_returns_none() {
    // Sphere behind the ray: both roots are negative, outside [0, t_max].
    let sphere = Sphere { center: vec3(0, 0, 20 * S), radius: S };
    let ray = Ray { origin: vec3(0, 0, 10 * S), dir: vec3(0, 0, -S) };
    let res = ray_sphere_intersection(&ray, &sphere, 0, 10_000 * S).unwrap();
    assert!(res.is_none());
}

#[test]
fn origin_inside_sphere_uses_far_root() {
    // Ray starting at the center: the near root is negative, the far root
    // is the radius.
    let sphere = Sphere { center: vec3(0, 0, 0), radius: 2 * S };
    let ray = Ray { origin: vec3(0, 0, 0), dir: vec3(0, 0, -S) };
    let res = ray_sphere_intersection(&ray, &sphere, 0, 10_000 * S).unwrap();
    let hit = res.expect("ray from the center must exit through the surface");
    assert_eq!(hit.dist, 2 * S);
    assert_eq!((hit.point.x, hit.point.y, hit.point.z), (0, 0, -2 * S));
    assert_eq!((hit.norm.x, hit.norm.y, hit.norm.z), (0, 0, -S));
}
