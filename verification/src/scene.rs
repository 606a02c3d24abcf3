//! The scene and the color resolver.
//!
//! A scene is an ordered collection of primitives, each with a flat color,
//! plus a background color. Resolving a ray picks the strictly nearest hit;
//! when two primitives report the same distance, the earliest one in scene
//! order wins.

use vstd::prelude::*;
use crate::renderer::Color;
use crate::math::is_zero3;
use crate::geometry::{Ray, Sphere, InvalidRayError, hit_dist, ray_sphere_intersection};

verus! {

/// Upper end of the distance range rays are resolved over (10000 units).
pub const T_MAX: i64 = 655360000;

/// A primitive shape a ray can intersect.
#[derive(Clone, Copy, Debug, PartialEq, Eq, Structural)]
pub enum Shape {
    Sphere(Sphere),
}

impl Shape {
    pub open spec fn wf(self) -> bool {
        match self {
            Shape::Sphere(s) => s.wf(),
        }
    }
}

/// One scene entry: a shape and its flat color.
#[derive(Clone, Copy, Debug, PartialEq, Eq, Structural)]
pub struct SceneObject {
    pub shape: Shape,
    pub color: Color,
}

impl SceneObject {
    pub open spec fn wf(self) -> bool {
        self.shape.wf()
    }
}

/// An ordered collection of primitives and a background color.
pub struct Scene {
    pub objects: Vec<SceneObject>,
    pub background: Color,
}

/// Hit distance of a ray against one scene object.
pub open spec fn object_hit_dist(r: Ray, o: SceneObject, t_min: int, t_max: int) -> Option<int> {
    match o.shape {
        Shape::Sphere(s) => hit_dist(r, s, t_min, t_max),
    }
}

/// The winning hit among `objs`: the strictly nearest distance, and on equal
/// distances the earliest object in scene order. Returns the winner's index
/// and distance.
pub open spec fn best_hit(r: Ray, objs: Seq<SceneObject>, t_min: int, t_max: int) -> Option<
    (int, int),
>
    decreases objs.len(),
{
    if objs.len() == 0 {
        None
    } else {
        let prev = best_hit(r, objs.drop_last(), t_min, t_max);
        let j = objs.len() - 1;
        match object_hit_dist(r, objs[j as int], t_min, t_max) {
            None => prev,
            Some(d) => match prev {
                None => Some((j as int, d)),
                Some(pd) => if d < pd.1 {
                    Some((j as int, d))
                } else {
                    prev
                },
            },
        }
    }
}

/// The color a ray resolves to: the winning object's flat color, or the
/// background when nothing is hit.
pub open spec fn resolved_color(r: Ray, s: Scene, t_min: int, t_max: int) -> Color {
    match best_hit(r, s.objects@, t_min, t_max) {
        Some(jd) => s.objects@[jd.0].color,
        None => s.background,
    }
}

impl Scene {
    /// Every object's coordinates are small enough for the engine.
    pub open spec fn wf(self) -> bool {
        forall|j: int| 0 <= j < self.objects@.len() ==> (#[trigger] self.objects@[j]).wf()
    }

    /// An empty scene over a background color.
    pub fn new(background: Color) -> (s: Scene)
        ensures
            s.wf(),
            s.objects@.len() == 0,
            s.background == background,
    {
        Scene { objects: Vec::new(), background }
    }

    /// Append one object; order is kept, so earlier objects win distance ties.
    pub fn add(&mut self, obj: SceneObject)
        requires
            old(self).wf(),
            obj.wf(),
            old(self).objects@.len() < 65536,
        ensures
            final(self).wf(),
            final(self).objects@ == old(self).objects@.push(obj),
            final(self).background == old(self).background,
    {
        self.objects.push(obj);
    }

    /// Resolve a ray against every object over `[0, T_MAX]` and return the
    /// nearest hit's color (earliest object on ties), or the background if
    /// nothing is hit. A zero-length ray direction is rejected.
    pub fn resolve(&self, ray: &Ray) -> (res: Result<Color, InvalidRayError>)
        requires
            self.wf(),
            ray.wf(),
        ensures
            res is Err <==> is_zero3(ray.dir),
            res is Ok ==> res->Ok_0 == resolved_color(*ray, *self, 0, T_MAX as int),
    {
        if ray.dir.x == 0 && ray.dir.y == 0 && ray.dir.z == 0 {
            return Err(InvalidRayError);
        }
        let ghost objs = self.objects@;
        let mut best_idx: usize = 0;
        let mut best_dist: i64 = 0;
        let mut have_hit: bool = false;
        let n = self.objects.len();
        let mut k: usize = 0;
        while k < n
            invariant
                n == objs.len(),
                objs == self.objects@,
                self.wf(),
                ray.wf(),
                !is_zero3(ray.dir),
                k <= n,
                !have_hit ==> best_hit(*ray, objs.take(k as int), 0, T_MAX as int) is None,
                have_hit ==> best_idx < k && best_hit(*ray, objs.take(k as int), 0, T_MAX as int)
                    == Some((best_idx as int, best_dist as int)),
            decreases n - k,
        {
            proof {
                assert(objs.take(k as int + 1).drop_last() =~= objs.take(k as int));
                assert(objs.take(k as int + 1)[k as int] == objs[k as int]);
            }
            let obj = self.objects[k];
            match obj.shape {
                Shape::Sphere(sph) => {
                    match ray_sphere_intersection(ray, &sph, 0, T_MAX) {
                        Ok(hit) => {
                            match hit {
                                Some(rec) => {
                                    if !have_hit || rec.dist < best_dist {
                                        best_idx = k;
                                        best_dist = rec.dist;
                                        have_hit = true;
                                    }
                                },
                                None => {},
                            }
                        },
                        Err(_) => {
                            proof {
                                assert(false);
                            }
                        },
                    }
                },
            }
            k = k + 1;
        }
        proof {
            assert(objs.take(n as int) =~= objs);
        }
        if have_hit {
            Ok(self.objects[best_idx].color)
        } else {
            Ok(self.background)
        }
    }
}

/// The fixed two-sphere scene: a red sphere of radius 2 at the origin, a
/// green unit sphere at (0, 3, 0), over a magenta background.
pub fn default_scene() -> (s: Scene)
    ensures
        s.wf(),
        s.objects@.len() == 2,
        s.objects@[0] == (SceneObject {
            shape: Shape::Sphere(Sphere { center: crate::math::Vec3 { x: 0, y: 0, z: 0 }, radius: 131072 }),
            color: Color { r: 255, g: 0, b: 0 },
        }),
        s.objects@[1] == (SceneObject {
            shape: Shape::Sphere(
                Sphere { center: crate::math::Vec3 { x: 0, y: 196608, z: 0 }, radius: 65536 },
            ),
            color: Color { r: 0, g: 255, b: 0 },
        }),
        s.background == (Color { r: 255, g: 0, b: 255 }),
{
    let mut s = Scene::new(Color { r: 255, g: 0, b: 255 });
    s.add(
        SceneObject {
            shape: Shape::Sphere(Sphere { center: crate::math::Vec3 { x: 0, y: 0, z: 0 }, radius: 131072 }),
            color: Color { r: 255, g: 0, b: 0 },
        },
    );
    s.add(
        SceneObject {
            shape: Shape::Sphere(
                Sphere { center: crate::math::Vec3 { x: 0, y: 196608, z: 0 }, radius: 65536 },
            ),
            color: Color { r: 0, g: 255, b: 0 },
        },
    );
    s
}

/// Nearest-hit policy: in a two-object scene where both objects report a hit
/// and the first is strictly nearer, the resolved color is the first
/// object's, never the second's.
pub proof fn lemma_nearest_hit_wins(r: Ray, s: Scene, t_min: int, t_max: int, da: int, db: int)
    requires
        s.objects@.len() == 2,
        object_hit_dist(r, s.objects@[0], t_min, t_max) == Some(da),
        object_hit_dist(r, s.objects@[1], t_min, t_max) == Some(db),
        da < db,
    ensures
        resolved_color(r, s, t_min, t_max) == s.objects@[0].color,
{
    lemma_two_object_best_hit(r, s, t_min, t_max, da, db);
}

/// Deterministic tie-break: on exactly equal hit distances the earliest
/// object in scene order wins.
pub proof fn lemma_tie_earlier_wins(r: Ray, s: Scene, t_min: int, t_max: int, d: int)
    requires
        s.objects@.len() == 2,
        object_hit_dist(r, s.objects@[0], t_min, t_max) == Some(d),
        object_hit_dist(r, s.objects@[1], t_min, t_max) == Some(d),
    ensures
        resolved_color(r, s, t_min, t_max) == s.objects@[0].color,
{
    lemma_two_object_best_hit(r, s, t_min, t_max, d, d);
}

/// In a two-object scene with hits at `da` and `db >= da`, the winner is the
/// first object at distance `da`.
proof fn lemma_two_object_best_hit(r: Ray, s: Scene, t_min: int, t_max: int, da: int, db: int)
    requires
        s.objects@.len() == 2,
        object_hit_dist(r, s.objects@[0], t_min, t_max) == Some(da),
        object_hit_dist(r, s.objects@[1], t_min, t_max) == Some(db),
        da <= db,
    ensures
        best_hit(r, s.objects@, t_min, t_max) == Some((0int, da)),
        resolved_color(r, s, t_min, t_max) == s.objects@[0].color,
{
    let objs = s.objects@;
    let one = objs.drop_last();
    assert(one.len() == 1);
    assert(one.drop_last().len() == 0);
    assert(best_hit(r, one.drop_last(), t_min, t_max) is None);
    assert(one[0] == objs[0]);
    assert(best_hit(r, one, t_min, t_max) == Some((0int, da)));
    assert(objs[1] == objs[(objs.len() - 1) as int]);
}

} // verus!
