//! Colors, the framebuffer, and the frame driver.
//!
//! [`render_frame`] pulls every sample from a fresh generator built off one
//! camera snapshot, resolves a color per ray, and writes it into the
//! framebuffer; the contract says each pixel ends up holding the resolved
//! color of exactly its own ray. Displaying the framebuffer is the external
//! presenter's job and happens outside this library.

use vstd::prelude::*;
use vstd::arithmetic::div_mod::lemma_fundamental_div_mod_converse_div;
use vstd::arithmetic::div_mod::lemma_fundamental_div_mod_converse_mod;
use crate::math::{Vec3, is_zero3};
use crate::geometry::{Ray, InvalidRayError};
use crate::camera::{
    Camera, RayIterator, ConfigurationError, camera_config_error, samples_per_pixel,
    total_samples, sample_pixel_x, sample_pixel_y, sample_dir, pixel_origin,
    pixel_dir, is_zero_i, V3i, RES_MAX, lemma_sample_window,
};
use crate::scene::{Scene, resolved_color, T_MAX};

verus! {

/// One RGB color, each channel an 8-bit value.
#[derive(Clone, Copy, Debug, Default, PartialEq, Eq, Structural)]
pub struct Color {
    pub r: u8,
    pub g: u8,
    pub b: u8,
}

/// Build a color from its three channels.
pub fn color(r: u8, g: u8, b: u8) -> (c: Color)
    ensures
        c.r == r,
        c.g == g,
        c.b == b,
{
    Color { r, g, b }
}

/// The fixed window aspect ratio (36 by 24, or 3:2): the width derived from a
/// chosen height.
pub fn window_width_for(height: usize) -> (w: usize)
    requires
        height <= 65536,
    ensures
        w == height * 3 / 2,
{
    (height * 3) / 2
}

/// Everything went into rendering a frame except displaying it.
#[derive(Clone, Copy, Debug, PartialEq, Eq, Structural)]
pub enum RenderError {
    /// The camera snapshot failed validation.
    Config(ConfigurationError),
    /// A generated sample ray had a zero-length direction.
    InvalidRay(InvalidRayError),
}

/// A row-major framebuffer of colors, `(0, 0)` the bottom-left pixel.
pub struct Framebuffer {
    pub width: usize,
    pub height: usize,
    pub data: Vec<Color>,
}

impl Framebuffer {
    /// The backing store holds exactly one color per pixel.
    pub open spec fn wf(self) -> bool {
        &&& self.data@.len() == self.width * self.height
        &&& self.width <= 4096
        &&& self.height <= 4096
    }

    /// A framebuffer with every pixel set to `fill`.
    pub fn new(width: usize, height: usize, fill: Color) -> (fb: Framebuffer)
        requires
            width <= 4096,
            height <= 4096,
        ensures
            fb.wf(),
            fb.width == width,
            fb.height == height,
            forall|j: int| 0 <= j < width * height ==> fb.data@[j] == fill,
    {
        proof {
            assert(width * height <= 4096 * 4096) by (nonlinear_arith)
                requires width <= 4096, height <= 4096;
        }
        let total: usize = width * height;
        let mut data: Vec<Color> = Vec::new();
        let mut k: usize = 0;
        while k < total
            invariant
                k <= total,
                data@.len() == k,
                forall|j: int| 0 <= j < k ==> data@[j] == fill,
            decreases total - k,
        {
            data.push(fill);
            k = k + 1;
        }
        Framebuffer { width, height, data }
    }

    /// Write one pixel; the rest of the buffer is untouched.
    pub fn set_pixel(&mut self, x: usize, y: usize, c: &Color)
        requires
            old(self).wf(),
            x < old(self).width,
            y < old(self).height,
        ensures
            final(self).wf(),
            final(self).width == old(self).width,
            final(self).height == old(self).height,
            final(self).data@ == old(self).data@.update(
                y as int * old(self).width as int + x as int,
                *c,
            ),
    {
        proof {
            lemma_pixel_index_in_range(
                self.width as int,
                self.height as int,
                x as int,
                y as int,
            );
            assert(self.width * self.height <= 4096 * 4096) by (nonlinear_arith)
                requires self.width <= 4096, self.height <= 4096;
        }
        let idx: usize = y * self.width + x;
        self.data[idx] = *c;
    }

    /// Read one pixel.
    pub fn get_pixel(&self, x: usize, y: usize) -> (c: Color)
        requires
            self.wf(),
            x < self.width,
            y < self.height,
        ensures
            c == self.data@[y as int * self.width as int + x as int],
    {
        proof {
            lemma_pixel_index_in_range(
                self.width as int,
                self.height as int,
                x as int,
                y as int,
            );
            assert(self.width * self.height <= 4096 * 4096) by (nonlinear_arith)
                requires self.width <= 4096, self.height <= 4096;
        }
        let idx: usize = y * self.width + x;
        self.data[idx]
    }
}

/// A pixel's row-major index lies inside the buffer.
proof fn lemma_pixel_index_in_range(w: int, h: int, x: int, y: int) by (nonlinear_arith)
    requires
        0 <= x < w,
        0 <= y < h,
    ensures
        0 <= y * w + x < w * h,
{
}

/// Distinct pixels have distinct row-major indices.
proof fn lemma_pixel_index_injective(w: int, x1: int, y1: int, x2: int, y2: int)
    requires
        w >= 1,
        0 <= x1 < w,
        0 <= x2 < w,
        0 <= y1,
        0 <= y2,
        y1 * w + x1 == y2 * w + x2,
    ensures
        x1 == x2,
        y1 == y2,
{
    lemma_fundamental_div_mod_converse_mod(y1 * w + x1, w, y1, x1);
    lemma_fundamental_div_mod_converse_mod(y2 * w + x2, w, y2, x2);
    lemma_fundamental_div_mod_converse_div(y1 * w + x1, w, y1, x1);
    lemma_fundamental_div_mod_converse_div(y2 * w + x2, w, y2, x2);
}

/// The fixed-point vector holding an integer vector's components (meaningful
/// when they fit).
pub open spec fn mk_vec3(v: V3i) -> Vec3 {
    Vec3 { x: v.x as i64, y: v.y as i64, z: v.z as i64 }
}

/// The single ray that every sample of pixel `(px, py)` carries.
pub open spec fn pixel_ray(c: Camera, w: int, h: int, px: int, py: int) -> Ray {
    Ray {
        origin: mk_vec3(pixel_origin(c, w, h, px, py)),
        dir: mk_vec3(pixel_dir(c, w, h, px, py)),
    }
}

/// The contents `render_frame` owes: each pixel holds the resolved color of
/// its own ray.
pub open spec fn frame_complete(fb: Framebuffer, c: Camera, scene: Scene, w: int, h: int) -> bool {
    forall|px: int, py: int|
        0 <= px < w && 0 <= py < h ==> #[trigger] fb.data@[py * w + px] == resolved_color(
            pixel_ray(c, w, h, px, py),
            scene,
            0,
            T_MAX as int,
        )
}

/// Render one frame: enumerate every sample of a fresh generator over the
/// camera snapshot, resolve each ray, and write its color at its pixel. On
/// success every pixel holds the resolved color of its ray; an invalid
/// configuration or a degenerate sample ray is reported, never painted.
pub fn render_frame(cam: &Camera, scene: &Scene, width: u64, height: u64) -> (res: Result<
    Framebuffer,
    RenderError,
>)
    requires
        cam.wf(),
        scene.wf(),
        1 <= width <= RES_MAX,
        1 <= height <= RES_MAX,
    ensures
        res is Ok <==> camera_config_error(*cam) is None && (forall|i: int|
            0 <= i < total_samples(*cam, width as int, height as int) ==> !is_zero_i(
                #[trigger] sample_dir(*cam, width as int, height as int, i),
            )),
        res is Ok ==> {
            let fb = res->Ok_0;
            &&& fb.wf()
            &&& fb.width == width
            &&& fb.height == height
            &&& frame_complete(fb, *cam, *scene, width as int, height as int)
        },
        res matches Err(RenderError::Config(e)) ==> camera_config_error(*cam) == Some(e),
        res matches Err(RenderError::InvalidRay(_)) ==> exists|i: int|
            0 <= i < total_samples(*cam, width as int, height as int) && is_zero_i(
                #[trigger] sample_dir(*cam, width as int, height as int, i),
            ),
{
    let ghost c = *cam;
    let ghost w = width as int;
    let ghost h = height as int;
    let mut it = match RayIterator::new(cam, width, height) {
        Ok(it) => it,
        Err(e) => {
            return Err(RenderError::Config(e));
        },
    };
    let mut fb = Framebuffer::new(width as usize, height as usize, color(0, 0, 0));
    while it.i < it.total_samples
        invariant
            cam.wf(),
            scene.wf(),
            1 <= width <= RES_MAX,
            1 <= height <= RES_MAX,
            it.wf(),
            it.cam@ == c,
            c == *cam,
            w == width as int,
            h == height as int,
            it.width == width,
            it.height == height,
            fb.wf(),
            fb.width == width as usize,
            fb.height == height as usize,
            forall|i: int| 0 <= i < it.i ==> !is_zero_i(#[trigger] sample_dir(c, w, h, i)),
            forall|px: int, py: int|
                0 <= px < w && 0 <= py < h && (py * w + px) * samples_per_pixel(c) < it.i
                    ==> #[trigger] fb.data@[py * w + px] == resolved_color(
                    pixel_ray(c, w, h, px, py),
                    *scene,
                    0,
                    T_MAX as int,
                ),
        decreases it.total_samples - it.i,
    {
        let ghost i0 = it.i as int;
        let ghost data0 = fb.data@;
        match it.next() {
            Some(pr) => {
                let pixel = pr.0;
                let ray = pr.1;
                let ghost px = pixel.x as int;
                let ghost py = pixel.y as int;
                proof {
                    assert(ray.origin == mk_vec3(pixel_origin(c, w, h, px, py)));
                    assert(ray.dir == mk_vec3(pixel_dir(c, w, h, px, py)));
                    assert(ray == pixel_ray(c, w, h, px, py));
                    assert(is_zero3(ray.dir) <==> is_zero_i(sample_dir(c, w, h, i0)));
                }
                let col = match scene.resolve(&ray) {
                    Ok(col) => col,
                    Err(e) => {
                        proof {
                            assert(0 <= i0 < total_samples(c, w, h) && is_zero_i(
                                sample_dir(c, w, h, i0),
                            ));
                        }
                        return Err(RenderError::InvalidRay(e));
                    },
                };
                fb.set_pixel(pixel.x, pixel.y, &col);
                proof {
                    lemma_sample_window(c, w, h, px, py, i0);
                    assert forall|qx: int, qy: int|
                        0 <= qx < w && 0 <= qy < h && (qy * w + qx) * samples_per_pixel(c) < i0
                            + 1 implies #[trigger] fb.data@[qy * w + qx] == resolved_color(
                        pixel_ray(c, w, h, qx, qy),
                        *scene,
                        0,
                        T_MAX as int,
                    ) by {
                        let lin_q = qy * w + qx;
                        let lin_p = py * w + px;
                        lemma_pixel_index_in_range(w, h, qx, qy);
                        lemma_pixel_index_in_range(w, h, px, py);
                        if qx == px && qy == py {
                            assert(fb.data@[lin_q] == col);
                        } else {
                            if lin_q == lin_p {
                                lemma_pixel_index_injective(w, qx, qy, px, py);
                            }
                            assert(lin_q != lin_p);
                            assert(fb.data@[lin_q] == data0[lin_q]);
                            if lin_q * samples_per_pixel(c) < i0 {
                            } else {
                                assert(lin_q * samples_per_pixel(c) == i0);
                                lemma_sample_window(c, w, h, qx, qy, i0);
                                assert((lin_q + 1) * samples_per_pixel(c) == lin_q
                                    * samples_per_pixel(c) + samples_per_pixel(c))
                                    by (nonlinear_arith);
                                assert(sample_pixel_x(c, w, i0) == qx && sample_pixel_y(c, w, i0)
                                    == qy);
                                assert(false);
                            }
                        }
                    }
                }
            },
            None => {
                proof {
                    assert(false);
                }
            },
        }
    }
    proof {
        assert(it.i == it.total_samples);
        assert forall|px: int, py: int| 0 <= px < w && 0 <= py < h implies #[trigger] fb.data@[py
            * w + px] == resolved_color(pixel_ray(c, w, h, px, py), *scene, 0, T_MAX as int) by {
            lemma_pixel_index_in_range(w, h, px, py);
            assert((py * w + px) * samples_per_pixel(c) < (w * h) * samples_per_pixel(c))
                by (nonlinear_arith)
                requires 0 <= py * w + px < w * h, samples_per_pixel(c) >= 1;
            assert((w * h) * samples_per_pixel(c) == samples_per_pixel(c) * w * h)
                by (nonlinear_arith);
        }
    }
    Ok(fb)
}

} // verus!
