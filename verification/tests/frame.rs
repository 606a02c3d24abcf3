//! Tests for the framebuffer, the frame driver, and the unit helpers.

use raytracer::camera::Camera;
use raytracer::color;
use raytracer::math::{centimeters, millimeters, vec2, vec3, SCALE};
use raytracer::renderer::{render_frame, window_width_for, Framebuffer, RenderError};
use raytracer::scene::{Scene, SceneObject, Shape};
use raytracer::geometry::Sphere;

const S: i64 = SCALE;

#[test]
fn framebuffer_set_get_roundtrip() {
    let mut fb = Framebuffer::new(3, 2, color(0, 0, 0));
    fb.set_pixel(2, 1, &color(9, 8, 7));
    fb.set_pixel(0, 0, &color(1, 2, 3));
    assert_eq!(fb.get_pixel(2, 1), color(9, 8, 7));
    assert_eq!(fb.get_pixel(0, 0), color(1, 2, 3));
    assert_eq!(fb.get_pixel(1, 0), color(0, 0, 0));
    assert_eq!(fb.data.len(), 6);
}

fn frame_camera() -> Camera {
    Camera::new(
        vec3(0, 0, 10 * S),
        vec3(0, 0, -S),
        vec2(millimeters(36), millimeters(24)),
        S / 100,
        millimeters(50),
        S,
    )
}

#[test]
fn frame_over_empty_scene_is_background_everywhere() {
    let scene = Scene::new(color(11, 22, 33));
    let fb = render_frame(&frame_camera(), &scene, 4, 3).unwrap();
    assert_eq!(fb.width, 4);
    assert_eq!(fb.height, 3);
    for y in 0..3 {
        for x in 0..4 {
            assert_eq!(fb.get_pixel(x, y), color(11, 22, 33));
        }
    }
}

#[test]
fn frame_sphere_ahead_center_hit_corner_missed() {
    // A sphere of radius 2 dead ahead of the camera: the center pixel's ray
    // goes straight through it, while the corner ray of this wide field of
    // view passes it and falls back to the background.
    let mut scene = Scene::new(color(0, 0, 0));
    scene.add(SceneObject {
        shape: Shape::Sphere(Sphere { center: vec3(0, 0, 0), radius: 2 * S }),
        color: color(255, 0, 0),
    });
    let fb = render_frame(&frame_camera(), &scene, 6, 4).unwrap();
    assert_eq!(fb.get_pixel(3, 2), color(255, 0, 0));
    assert_eq!(fb.get_pixel(0, 0), color(0, 0, 0));
}

#[test]
fn frame_with_degenerate_camera_is_config_error() {
    let cam = Camera::new(vec3(0, 0, 10 * S), vec3(0, S, 0), vec2(2359, 1572), 655, 3276, S);
    let scene = Scene::new(color(0, 0, 0));
    match render_frame(&cam, &scene, 4, 3) {
        Err(RenderError::Config(_)) => {},
        other => panic!("expected a configuration error, got {:?}", other.is_ok()),
    }
}

#[test]
fn frame_with_degenerate_sample_ray_is_invalid_ray_error() {
    // A camera whose look vector and focal length are so small that the
    // focal point collapses onto the sensor corner: the sample ray for that
    // corner has a zero direction, which is reported, not painted.
    let cam = Camera::new(vec3(0, 0, 10 * S), vec3(1, 0, 1), vec2(1, 1), 655, 1, S);
    let scene = Scene::new(color(0, 0, 0));
    match render_frame(&cam, &scene, 2, 2) {
        Err(RenderError::InvalidRay(_)) => {},
        other => panic!("expected an invalid-ray error, got ok = {:?}", other.is_ok()),
    }
}

#[test]
fn window_width_keeps_three_to_two_ratio() {
    assert_eq!(window_width_for(512), 768);
    assert_eq!(window_width_for(24), 36);
}

#[test]
fn unit_helpers_scale_exactly() {
    assert_eq!(millimeters(1000), S);
    assert_eq!(centimeters(100), S);
    assert_eq!(millimeters(36), 2359);
    assert_eq!(millimeters(24), 1572);
    assert_eq!(millimeters(50), 3276);
    assert_eq!(centimeters(-100), -S);
}
