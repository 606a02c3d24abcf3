//! Tests for the scene's nearest-hit color resolution.

use raytracer::color;
use raytracer::geometry::{Ray, Sphere};
use raytracer::math::{vec3, SCALE};
use raytracer::scene::{default_scene, Scene, SceneObject, Shape};

const S: i64 = SCALE;

fn sphere_at(z_units: i64, radius_units: i64) -> Shape {
    Shape::Sphere(Sphere { center: vec3(0, 0, z_units * S), radius: radius_units * S })
}

#[test]
fn nearer_sphere_wins() {
    // Two non-overlapping spheres along the ray: the nearer one's color is
    // resolved, never the farther one's.
    let mut scene = Scene::new(color(0, 0, 0));
    scene.add(SceneObject { shape: sphere_at(5, 1), color: color(255, 0, 0) });
    scene.add(SceneObject { shape: sphere_at(9, 1), color: color(0, 255, 0) });
    let ray = Ray { origin: vec3(0, 0, 0), dir: vec3(0, 0, S) };
    assert_eq!(scene.resolve(&ray).unwrap(), color(255, 0, 0));
}

#[test]
fn nearer_sphere_wins_regardless_of_insertion_order() {
    // Same scene with the farther sphere inserted first: still the nearer
    // sphere's color.
    let mut scene = Scene::new(color(0, 0, 0));
    scene.add(SceneObject { shape: sphere_at(9, 1), color: color(0, 255, 0) });
    scene.add(SceneObject { shape: sphere_at(5, 1), color: color(255, 0, 0) });
    let ray = Ray { origin: vec3(0, 0, 0), dir: vec3(0, 0, S) };
    assert_eq!(scene.resolve(&ray).unwrap(), color(255, 0, 0));
}

#[test]
fn equal_distance_earlier_object_wins() {
    // Two spheres reporting exactly the same hit distance: the earliest in
    // scene order is selected, deterministically.
    let mut scene = Scene::new(color(0, 0, 0));
    scene.add(SceneObject { shape: sphere_at(5, 1), color: color(10, 20, 30) });
    scene.add(SceneObject { shape: sphere_at(5, 1), color: color(40, 50, 60) });
    let ray = Ray { origin: vec3(0, 0, 0), dir: vec3(0, 0, S) };
    assert_eq!(scene.resolve(&ray).unwrap(), color(10, 20, 30));
}

#[test]
fn no_hit_returns_background() {
    let mut scene = Scene::new(color(7, 8, 9));
    scene.add(SceneObject { shape: sphere_at(5, 1), color: color(255, 0, 0) });
    let ray = Ray { origin: vec3(0, 0, 0), dir: vec3(0, 0, -S) };
    assert_eq!(scene.resolve(&ray).unwrap(), color(7, 8, 9));
}

#[test]
fn empty_scene_returns_background() {
    let scene = Scene::new(color(1, 2, 3));
    let ray = Ray { origin: vec3(0, 0, 0), dir: vec3(0, 0, S) };
    assert_eq!(scene.resolve(&ray).unwrap(), color(1, 2, 3));
}

#[test]
fn zero_direction_ray_rejected_by_resolver() {
    let scene = Scene::new(color(1, 2, 3));
    let ray = Ray { origin: vec3(0, 0, 0), dir: vec3(0, 0, 0) };
    assert!(scene.resolve(&ray).is_err());
}

#[test]
fn default_scene_colors() {
    // The fixed scene: red sphere of radius 2 at the origin, green unit
    // sphere at (0, 3, 0), magenta background.
    let scene = default_scene();
    let toward_red = Ray { origin: vec3(0, 0, 10 * S), dir: vec3(0, 0, -S) };
    assert_eq!(scene.resolve(&toward_red).unwrap(), color(255, 0, 0));
    let toward_green = Ray { origin: vec3(0, 3 * S, 10 * S), dir: vec3(0, 0, -S) };
    assert_eq!(scene.resolve(&toward_green).unwrap(), color(0, 255, 0));
    let into_space = Ray { origin: vec3(0, 10 * S, 0), dir: vec3(0, S, 0) };
    assert_eq!(scene.resolve(&into_space).unwrap(), color(255, 0, 255));
}
