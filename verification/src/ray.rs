//! Rays, reflection, nearest-hit resolution over a scene's primitives, the
//! local shading model and the recursive tracer.
use crate::fx::{fits, sat, EPSILON, INF, SCALE};
use crate::primitives::{Collideable, Primitive};
use crate::scene::{Light, Scene};
use crate::vec3::{add3, dot3, fits3, scale3, sub3, dot, V3};
use vstd::prelude::*;

verus! {

/// A ray `origin + t * direction`. The direction need not be unit length:
/// the intersection math divides its length out.
#[derive(Debug, Clone, Copy, PartialEq, Eq, Structural)]
pub struct Ray {
    pub origin: V3,
    pub direction: V3,
}

/// Both endpoints of the ray are in the fixed-point range.
pub open spec fn fits_ray(r: Ray) -> bool {
    fits3(r.origin) && fits3(r.direction)
}

/// The point `origin + s * direction`.
pub open spec fn point_at(ray: Ray, s: int) -> V3 {
    add3(ray.origin, scale3(ray.direction, s))
}

/// The reflection of `ray` about `normal`: `2 * normal * (normal . ray) - ray`.
pub open spec fn reflect3(ray: V3, normal: V3) -> V3 {
    sub3(scale3(scale3(normal, 2 * SCALE as int), dot3(normal, ray)), ray)
}

/// `t` is one of `p`'s intersection roots against `ray`.
pub open spec fn is_root(p: Primitive, ray: Ray, t: int) -> bool {
    match p.spec_roots(ray) {
        Some((t1, t2)) => t == t1 || t == t2,
        None => false,
    }
}

/// `t` is a root of `p` strictly inside `(t_min, t_max)`.
pub open spec fn is_valid_root(p: Primitive, ray: Ray, t_min: int, t_max: int, t: int) -> bool {
    is_root(p, ray, t) && t_min < t < t_max
}

/// `p` has some root strictly inside `(t_min, t_max)`.
pub open spec fn has_valid_root(p: Primitive, ray: Ray, t_min: int, t_max: int) -> bool {
    match p.spec_roots(ray) {
        Some((t1, t2)) => (t_min < t1 < t_max) || (t_min < t2 < t_max),
        None => false,
    }
}

/// The smaller of `p`'s roots inside `(t_min, t_max)`; meaningful only
/// when `has_valid_root` holds.
pub open spec fn min_valid_root(p: Primitive, ray: Ray, t_min: int, t_max: int) -> int {
    match p.spec_roots(ray) {
        Some((t1, t2)) => if (t_min < t1 < t_max) && (!(t_min < t2 < t_max) || t1 <= t2) {
            t1 as int
        } else {
            t2 as int
        },
        None => 0,
    }
}

/// The nearest hit over the first `n` primitives, scanned front to back as
/// the executable loop does: the running best `t` shrinks the open range a
/// later primitive must beat strictly, so among equal roots the earliest
/// primitive wins. Yields the winning `t` and the winner's index.
pub open spec fn spec_nearest_upto(
    prims: Seq<Primitive>,
    ray: Ray,
    t_min: int,
    t_max: int,
    n: nat,
) -> Option<(int, int)>
    decreases n,
{
    if n == 0 {
        None
    } else {
        let prev = spec_nearest_upto(prims, ray, t_min, t_max, (n - 1) as nat);
        let limit = match prev {
            None => t_max,
            Some((t, _)) => t,
        };
        if has_valid_root(prims[n - 1], ray, t_min, limit) {
            Some((min_valid_root(prims[n - 1], ray, t_min, limit), n - 1))
        } else {
            prev
        }
    }
}

/// The nearest hit over all primitives: the winning parametric distance
/// and the index of the winning primitive, if any root lies in the range.
pub open spec fn spec_nearest(prims: Seq<Primitive>, ray: Ray, t_min: int, t_max: int) -> Option<
    (int, int),
> {
    spec_nearest_upto(prims, ray, t_min, t_max, prims.len())
}

/// Nearest-hit selection is sound and minimal: when no primitive has a
/// root in range nothing is returned; otherwise the returned `t` is a root
/// of the returned primitive, lies in range, is no larger than any
/// in-range root of any primitive, and no earlier primitive attains it.
pub proof fn lemma_nearest_minimal(prims: Seq<Primitive>, ray: Ray, t_min: int, t_max: int, n: nat)
    requires
        n <= prims.len(),
    ensures
        match spec_nearest_upto(prims, ray, t_min, t_max, n) {
            None => forall|j: int|
                0 <= j < n ==> !has_valid_root(#[trigger] prims[j], ray, t_min, t_max),
            Some((t, i)) => {
                &&& 0 <= i < n
                &&& is_valid_root(prims[i], ray, t_min, t_max, t)
                &&& forall|j: int, u: int|
                    0 <= j < n && #[trigger] is_valid_root(prims[j], ray, t_min, t_max, u) ==> t
                        <= u
                &&& forall|j: int|
                    0 <= j < i ==> !is_valid_root(#[trigger] prims[j], ray, t_min, t_max, t)
            },
        },
    decreases n,
{
    if n > 0 {
        lemma_nearest_minimal(prims, ray, t_min, t_max, (n - 1) as nat);
        let prev = spec_nearest_upto(prims, ray, t_min, t_max, (n - 1) as nat);
        let limit = match prev {
            None => t_max,
            Some((t, _)) => t,
        };
        let p = prims[n - 1];
        if has_valid_root(p, ray, t_min, limit) {
            let tn = min_valid_root(p, ray, t_min, limit);
            assert(is_valid_root(p, ray, t_min, limit, tn));
            match prev {
                None => {
                    assert forall|j: int, u: int|
                        0 <= j < n && #[trigger] is_valid_root(prims[j], ray, t_min, t_max, u)
                        implies tn <= u by {
                        if j < n - 1 {
                            assert(has_valid_root(prims[j], ray, t_min, t_max));
                        }
                    }
                },
                Some((pt, pi)) => {
                    assert(tn < pt);
                    assert forall|j: int, u: int|
                        0 <= j < n && #[trigger] is_valid_root(prims[j], ray, t_min, t_max, u)
                        implies tn <= u by {
                        if j < n - 1 {
                            assert(pt <= u);
                        } else {
                            if u < limit {
                                assert(is_valid_root(p, ray, t_min, limit, u));
                            }
                        }
                    }
                },
            }
        } else {
            match prev {
                None => {
                    assert(!has_valid_root(p, ray, t_min, t_max));
                },
                Some((pt, pi)) => {
                    assert forall|j: int, u: int|
                        0 <= j < n && #[trigger] is_valid_root(prims[j], ray, t_min, t_max, u)
                        implies pt <= u by {
                        if j == n - 1 {
                            if u < limit {
                                assert(is_valid_root(p, ray, t_min, limit, u));
                                assert(has_valid_root(p, ray, t_min, limit));
                            }
                        }
                    }
                },
            }
        }
    }
}

impl Ray {
    /// The point this ray reaches at parameter `scalar`.
    pub fn point_at_scale(&self, scalar: i64) -> (r: V3)
        requires
            fits_ray(*self),
        ensures
            r == point_at(*self, scalar as int),
            fits3(r),
    {
        self.origin.plus(self.direction.scaled(scalar))
    }

    /// The closest intersection of this ray with any primitive, strictly
    /// inside `(t_min, t_max)`: the hit point and an owned copy of the
    /// winning primitive. Among equal distances the earliest primitive in
    /// the collection wins.
    pub fn closest_point(
        &self,
        scene_primitives: &Vec<Primitive>,
        t_min: i64,
        t_max: i64,
    ) -> (r: Option<(V3, Primitive)>)
        requires
            fits_ray(*self),
            forall|i: int|
                0 <= i < scene_primitives@.len() ==> (#[trigger] scene_primitives@[i]).wf(),
        ensures
            match r {
                None => spec_nearest(scene_primitives@, *self, t_min as int, t_max as int)
                    is None,
                Some((point, prim)) => spec_nearest(
                    scene_primitives@,
                    *self,
                    t_min as int,
                    t_max as int,
                ) matches Some((t, i)) && 0 <= i < scene_primitives@.len() && prim
                    == scene_primitives@[i] && point == point_at(*self, t) && fits3(point),
            },
    {
        let mut closest_t: i64 = t_max;
        let mut best: Option<usize> = None;
        let ghost gprims = scene_primitives@;
        let mut idx: usize = 0;

        while idx < scene_primitives.len()
            invariant
                fits_ray(*self),
                gprims == scene_primitives@,
                forall|i: int| 0 <= i < gprims.len() ==> (#[trigger] gprims[i]).wf(),
                idx <= gprims.len(),
                match best {
                    None => closest_t == t_max && spec_nearest_upto(
                        gprims,
                        *self,
                        t_min as int,
                        t_max as int,
                        idx as nat,
                    ) is None,
                    Some(bi) => bi < idx && closest_t < t_max && spec_nearest_upto(
                        gprims,
                        *self,
                        t_min as int,
                        t_max as int,
                        idx as nat,
                    ) == Some((closest_t as int, bi as int)),
                },
            decreases gprims.len() - idx,
        {
            let ghost prev = spec_nearest_upto(gprims, *self, t_min as int, t_max as int, idx as nat);
            let ghost limit: int = match prev {
                None => t_max as int,
                Some((t, _)) => t,
            };
            let ghost old_t = closest_t;
            let ghost old_best = best;
            let current = &scene_primitives[idx];
            let roots = current.ray_intersection(*self);
            match roots {
                None => {},
                Some((t1, t2)) => {
                    if crate::util::in_range(t1, t_min, t_max) && t1 < closest_t {
                        closest_t = t1;
                        best = Some(idx);
                    }
                    if t1 != t2 && crate::util::in_range(t2, t_min, t_max) && t2 < closest_t {
                        closest_t = t2;
                        best = Some(idx);
                    }
                },
            }
            proof {
                let p = gprims[idx as int];
                assert(spec_nearest_upto(
                    gprims,
                    *self,
                    t_min as int,
                    t_max as int,
                    (idx + 1) as nat,
                ) == if has_valid_root(p, *self, t_min as int, limit) {
                    Some::<(int, int)>(
                        (min_valid_root(p, *self, t_min as int, limit), idx as int),
                    )
                } else {
                    prev
                });
                assert(old_t as int == limit);
                if has_valid_root(p, *self, t_min as int, limit) {
                    assert(best == Some(idx) && closest_t as int == min_valid_root(
                        p,
                        *self,
                        t_min as int,
                        limit,
                    ));
                } else {
                    assert(best == old_best && closest_t == old_t);
                }
            }
            idx = idx + 1;
        }

        match best {
            None => None,
            Some(bi) => {
                let point = self.point_at_scale(closest_t);
                Some((point, scene_primitives[bi].clone()))
            },
        }
    }
}


/// Build a ray from an origin and a direction.
pub fn new_ray(origin: V3, direction: V3) -> (r: Ray)
    ensures
        r.origin == origin,
        r.direction == direction,
{
    Ray { origin, direction }
}

/// The reflection of `ray` about `surface_normal`.
pub fn reflect_ray(ray: V3, surface_normal: V3) -> (r: V3)
    requires
        fits3(ray),
        fits3(surface_normal),
    ensures
        r == reflect3(ray, surface_normal),
        fits3(r),
{
    let d = dot(surface_normal, ray);
    surface_normal.scaled(2 * SCALE).scaled(d).minus(ray)
}

/// The direction from `point` toward the light: the displacement up to a
/// point light, or the fixed direction of a directional light.
pub open spec fn light_dir3(point: V3, l: Light) -> V3 {
    match l {
        Light::Point(t) => sub3(t.0, point),
        Light::Directional(t) => t.0,
    }
}

/// How far along the shadow ray to search for a blocker: up to the light
/// itself for a point light (`1` in the ray's own parametric units, since
/// the direction already spans the full displacement), unbounded for a
/// directional light.
pub open spec fn shadow_limit(l: Light) -> int {
    match l {
        Light::Point(_) => SCALE as int,
        Light::Directional(_) => INF as int,
    }
}

/// Some primitive blocks the path from `point` toward the light.
pub open spec fn shadowed(prims: Seq<Primitive>, point: V3, l: Light) -> bool {
    spec_nearest(
        prims,
        Ray { origin: point, direction: light_dir3(point, l) },
        EPSILON as int,
        shadow_limit(l),
    ) is Some
}

/// Distance falloff of a point light: one over the square root of the
/// distance (a deliberate design choice, softer than inverse-square).
/// Directional lights do not attenuate.
pub open spec fn attenuation(point: V3, l: Light) -> int {
    match l {
        Light::Point(t) => {
            let d = crate::vec3::len3(sub3(t.0, point));
            let sq = crate::fx::fx_sqrt(d);
            if sq == 0 {
                0
            } else {
                crate::fx::fx_div(SCALE as int, sq)
            }
        },
        Light::Directional(_) => SCALE as int,
    }
}

/// Diffuse contribution of one light: `att * intensity * (n.l) / (|n| |l|)`
/// when the surface faces the light, zero otherwise (or when the
/// denominator rounds to zero).
pub open spec fn diffuse_term(n: V3, ldir: V3, att: int, intensity: int) -> int {
    let ndl = dot3(n, ldir);
    if ndl > 0 {
        let denom = crate::fx::fx_mul(crate::vec3::len3(n), crate::vec3::len3(ldir));
        if denom == 0 {
            0
        } else {
            crate::fx::fx_mul(crate::fx::fx_mul(att, intensity), crate::fx::fx_div(ndl, denom))
        }
    } else {
        0
    }
}

/// Specular contribution of one light:
/// `intensity * ((r.v) / (|r| |v|)) ^ exponent` with `r` the light
/// direction reflected about the normal and `v` pointing back toward the
/// camera at the origin; zero for non-specular surfaces (exponent `-1`),
/// when the highlight faces away, or when the denominator rounds to zero.
pub open spec fn specular_term(prim: Primitive, point: V3, n: V3, ldir: V3, intensity: int) -> int {
    if prim.spec_specular() != -1 {
        let p2c = scale3(point, -(SCALE as int));
        let rv = reflect3(ldir, n);
        let rdv = dot3(rv, p2c);
        if rdv > 0 {
            let denom = crate::fx::fx_mul(crate::vec3::len3(rv), crate::vec3::len3(p2c));
            if denom == 0 {
                0
            } else {
                crate::fx::fx_mul(
                    intensity,
                    crate::fx::fx_pow(
                        crate::fx::fx_div(rdv, denom),
                        prim.spec_specular() as nat,
                    ),
                )
            }
        } else {
            0
        }
    } else {
        0
    }
}

/// What one light adds to the lighting factor at `point` on `prim`:
/// nothing at all when the light is shadowed (both diffuse and specular
/// are skipped), the saturated sum of the diffuse and specular terms
/// otherwise.
pub open spec fn light_contribution(
    prims: Seq<Primitive>,
    point: V3,
    prim: Primitive,
    l: Light,
) -> int {
    if shadowed(prims, point, l) {
        0
    } else {
        let n = prim.spec_normal(point);
        let ldir = light_dir3(point, l);
        let inten = l.spec_contents().1 as int;
        sat(
            diffuse_term(n, ldir, attenuation(point, l), inten) + specular_term(
                prim,
                point,
                n,
                ldir,
                inten,
            ),
        )
    }
}

/// The lighting factor after the first `n` lights: the ambient level plus
/// each light's contribution, saturated as it accumulates.
pub open spec fn lighting_upto(
    prims: Seq<Primitive>,
    lights: Seq<Light>,
    ambient: int,
    point: V3,
    prim: Primitive,
    n: nat,
) -> int
    decreases n,
{
    if n == 0 {
        ambient
    } else {
        sat(
            lighting_upto(prims, lights, ambient, point, prim, (n - 1) as nat)
                + light_contribution(prims, point, prim, lights[n - 1]),
        )
    }
}

/// The full lighting factor at `point` on `prim` under `scene`'s lights.
pub open spec fn spec_lighting(scene: &Scene, point: V3, prim: Primitive) -> int {
    lighting_upto(
        scene.primitives@,
        scene.lights@,
        scene.ambient_light as int,
        point,
        prim,
        scene.lights@.len(),
    )
}

/// A shadowed light contributes nothing: neither its diffuse nor its
/// specular term reaches the point.
pub proof fn lemma_shadow_blocks_light(prims: Seq<Primitive>, point: V3, prim: Primitive, l: Light)
    requires
        shadowed(prims, point, l),
    ensures
        light_contribution(prims, point, prim, l) == 0,
{
}

/// When every light is shadowed, only the ambient level remains.
pub proof fn lemma_all_shadowed_ambient(
    prims: Seq<Primitive>,
    lights: Seq<Light>,
    ambient: int,
    point: V3,
    prim: Primitive,
    n: nat,
)
    requires
        fits(ambient),
        forall|i: int| 0 <= i < n ==> shadowed(prims, point, #[trigger] lights[i]),
    ensures
        lighting_upto(prims, lights, ambient, point, prim, n) == ambient,
    decreases n,
{
    if n > 0 {
        lemma_all_shadowed_ambient(prims, lights, ambient, point, prim, (n - 1) as nat);
    }
}

/// The background color a ray that hits nothing resolves to: white.
pub open spec fn background3() -> V3 {
    V3 { x: 16711680, y: 16711680, z: 16711680 }
}

/// The background color a ray that hits nothing resolves to: white.
pub fn background_color() -> (r: V3)
    ensures
        r == background3(),
        fits3(r),
{
    V3 { x: 16711680, y: 16711680, z: 16711680 }
}

/// The locally shaded color at a hit: the primitive's base color scaled by
/// the lighting factor. At the degenerate hit exactly on a sphere's center
/// the normal (and with it the lighting) is undefined, and the base color
/// stands unshaded.
pub open spec fn local_color_at(scene: &Scene, prim: Primitive, point: V3) -> V3 {
    if prim.normal_defined(point) {
        scale3(prim.spec_color(), spec_lighting(scene, point, prim))
    } else {
        prim.spec_color()
    }
}

/// Pure local shading of a ray: the locally shaded color of its nearest
/// hit, or the background color when it hits nothing.
pub open spec fn spec_local_color(scene: &Scene, ray: Ray, t_min: int, t_max: int) -> V3 {
    match spec_nearest(scene.primitives@, ray, t_min, t_max) {
        None => background3(),
        Some((t, i)) => local_color_at(scene, scene.primitives@[i], point_at(ray, t)),
    }
}

/// The recursively traced color of a ray: pure local shading while depth
/// remains and the surface reflects, blended with the traced color of the
/// reflected ray, `local * (1 - reflectivity) + reflected * reflectivity`.
pub open spec fn spec_trace(scene: &Scene, ray: Ray, t_min: int, t_max: int, depth: int) -> V3
    decreases (if depth < 0 { 0int } else { depth }),
{
    match spec_nearest(scene.primitives@, ray, t_min, t_max) {
        None => background3(),
        Some((t, i)) => {
            let prim = scene.primitives@[i];
            let point = point_at(ray, t);
            let local = local_color_at(scene, prim, point);
            if depth <= 0 || prim.spec_reflective() <= 0 || !prim.normal_defined(point) {
                local
            } else {
                let rdir = reflect3(
                    scale3(ray.direction, -(SCALE as int)),
                    prim.spec_normal(point),
                );
                let reflected = spec_trace(
                    scene,
                    Ray { origin: point, direction: rdir },
                    EPSILON as int,
                    INF as int,
                    depth - 1,
                );
                add3(
                    scale3(local, SCALE - prim.spec_reflective()),
                    scale3(reflected, prim.spec_reflective() as int),
                )
            }
        },
    }
}

/// With the recursion depth exhausted, tracing is pure local shading, no
/// matter how reflective the surface is.
pub proof fn lemma_depth_exhausted_is_local(
    scene: &Scene,
    ray: Ray,
    t_min: int,
    t_max: int,
    depth: int,
)
    requires
        depth <= 0,
    ensures
        spec_trace(scene, ray, t_min, t_max, depth) == spec_local_color(scene, ray, t_min, t_max),
{
}

/// With no reflective primitive anywhere in the scene, tracing degenerates
/// to pure local shading at every depth.
pub proof fn lemma_no_reflectivity_is_local(
    scene: &Scene,
    ray: Ray,
    t_min: int,
    t_max: int,
    depth: int,
)
    requires
        forall|i: int|
            0 <= i < scene.primitives@.len() ==> (#[trigger] scene.primitives@[i]).spec_reflective()
                <= 0,
    ensures
        spec_trace(scene, ray, t_min, t_max, depth) == spec_local_color(scene, ray, t_min, t_max),
{
    lemma_nearest_minimal(scene.primitives@, ray, t_min, t_max, scene.primitives@.len());
}

/// With no reflective primitive in the scene, the traced color does not
/// depend on the recursion depth at all.
pub proof fn lemma_no_reflectivity_ignores_depth(
    scene: &Scene,
    ray: Ray,
    t_min: int,
    t_max: int,
    d1: int,
    d2: int,
)
    requires
        forall|i: int|
            0 <= i < scene.primitives@.len() ==> (#[trigger] scene.primitives@[i]).spec_reflective()
                <= 0,
    ensures
        spec_trace(scene, ray, t_min, t_max, d1) == spec_trace(scene, ray, t_min, t_max, d2),
{
    lemma_no_reflectivity_is_local(scene, ray, t_min, t_max, d1);
    lemma_no_reflectivity_is_local(scene, ray, t_min, t_max, d2);
}

/// A ray with no primitive root in range resolves to the background color
/// at every depth.
pub proof fn lemma_miss_is_background(
    scene: &Scene,
    ray: Ray,
    t_min: int,
    t_max: int,
    depth: int,
)
    requires
        forall|i: int|
            0 <= i < scene.primitives@.len() ==> !has_valid_root(
                #[trigger] scene.primitives@[i],
                ray,
                t_min,
                t_max,
            ),
    ensures
        spec_trace(scene, ray, t_min, t_max, depth) == background3(),
{
    lemma_nearest_minimal(scene.primitives@, ray, t_min, t_max, scene.primitives@.len());
    if let Some((t, i)) = spec_nearest(scene.primitives@, ray, t_min, t_max) {
        assert(is_valid_root(scene.primitives@[i], ray, t_min, t_max, t));
        assert(has_valid_root(scene.primitives@[i], ray, t_min, t_max));
    }
}

/// The recursively traced color of a ray. Resolves the nearest hit; where
/// there is none, returns the background color. Otherwise shades locally
/// and, while `recursion_depth` remains and the surface reflects, blends
/// in the traced color of the reflected ray.
pub fn trace_ray(scene: &Scene, ray: Ray, t_min: i64, t_max: i64, recursion_depth: i32) -> (r: V3)
    requires
        scene.wf(),
        fits_ray(ray),
    ensures
        r == spec_trace(scene, ray, t_min as int, t_max as int, recursion_depth as int),
        fits3(r),
    decreases (if recursion_depth < 0 { 0int } else { recursion_depth as int }),
{
    let temp = ray.closest_point(&scene.primitives, t_min, t_max);
    match temp {
        None => background_color(),
        Some((point, primitive)) => {
            let current_reflective = primitive.reflective();
            if !primitive.normal_ok(point) {
                return primitive.color();
            }
            let lighting = compute_lighting(scene, point, &primitive);
            let local_color = primitive.color().scaled(lighting);
            if recursion_depth <= 0 || current_reflective <= 0 {
                return local_color;
            }
            let normal = primitive.normal_at_point(point);
            let reflected_dir = reflect_ray(ray.direction.scaled(-SCALE), normal);
            let reflected = new_ray(point, reflected_dir);
            let reflected_color = trace_ray(scene, reflected, EPSILON, INF, recursion_depth - 1);
            local_color.scaled(SCALE - current_reflective).plus(
                reflected_color.scaled(current_reflective),
            )
        },
    }
}

/// The lighting factor at `point` on `primitive`: the ambient level, plus,
/// for each unshadowed light, its diffuse term and (on specular surfaces)
/// its specular highlight.
pub fn compute_lighting(scene: &Scene, point: V3, primitive: &Primitive) -> (r: i64)
    requires
        scene.wf(),
        fits3(point),
        primitive.wf(),
        primitive.normal_defined(point),
    ensures
        r as int == spec_lighting(scene, point, *primitive),
        fits(r as int),
{
    let mut lighting_factor: i64 = scene.ambient_light;
    let normal = primitive.normal_at_point(point);
    let mut li: usize = 0;

    while li < scene.lights.len()
        invariant
            scene.wf(),
            fits3(point),
            primitive.wf(),
            primitive.normal_defined(point),
            normal == primitive.spec_normal(point),
            fits3(normal),
            li <= scene.lights@.len(),
            lighting_factor as int == lighting_upto(
                scene.primitives@,
                scene.lights@,
                scene.ambient_light as int,
                point,
                *primitive,
                li as nat,
            ),
            fits(lighting_factor as int),
        decreases scene.lights@.len() - li,
    {
        let light = scene.lights[li];
        let ghost gl = scene.lights@[li as int];
        let (light_dir, t_max): (V3, i64) = match light {
            Light::Point(t) => (t.0.minus(point), SCALE),
            Light::Directional(t) => (t.0, INF),
        };
        proof {
            assert(gl.wf());
            assert(light_dir == light_dir3(point, gl));
            assert(t_max as int == shadow_limit(gl));
        }

        let shadow = new_ray(point, light_dir);
        let blocked = shadow.closest_point(&scene.primitives, EPSILON, t_max);
        if blocked.is_some() {
            proof {
                assert(shadowed(scene.primitives@, point, gl));
                assert(light_contribution(scene.primitives@, point, *primitive, gl) == 0);
            }
            li = li + 1;
            continue;
        }

        let intensity = light.contents().1;
        let distance_factor: i64 = match light {
            Light::Point(t) => {
                let d = t.0.minus(point).length();
                let sq = crate::fx::sqrt_fx(d);
                if sq == 0 {
                    0
                } else {
                    crate::fx::div_fx(SCALE, sq)
                }
            },
            Light::Directional(_) => SCALE,
        };
        proof {
            assert(distance_factor as int == attenuation(point, gl));
        }

        let mut diffuse_part: i64 = 0;

        // diffuse reflection
        let n_dot_l = dot(normal, light_dir);
        if n_dot_l > 0 {
            let denom = crate::fx::mul_fx(normal.length(), light_dir.length());
            if denom != 0 {
                diffuse_part = crate::fx::mul_fx(
                    crate::fx::mul_fx(distance_factor, intensity),
                    crate::fx::div_fx(n_dot_l, denom),
                );
            }
        }
        proof {
            assert(diffuse_part as int == diffuse_term(
                normal,
                light_dir,
                attenuation(point, gl),
                gl.spec_contents().1 as int,
            ));
        }

        // specular reflection
        let mut specular_part: i64 = 0;
        if primitive.specular() != -1 {
            let point_to_camera = point.scaled(-SCALE);
            let rv = reflect_ray(light_dir, normal);
            let r_dot_v = dot(rv, point_to_camera);
            if r_dot_v > 0 {
                let denom = crate::fx::mul_fx(rv.length(), point_to_camera.length());
                if denom != 0 {
                    specular_part = crate::fx::mul_fx(
                        intensity,
                        crate::fx::pow_fx(
                            crate::fx::div_fx(r_dot_v, denom),
                            primitive.specular() as u32,
                        ),
                    );
                }
            }
        }
        proof {
            assert(specular_part as int == specular_term(
                *primitive,
                point,
                normal,
                light_dir,
                gl.spec_contents().1 as int,
            ));
            assert(light_contribution(scene.primitives@, point, *primitive, gl) == sat(
                diffuse_part + specular_part,
            ));
        }

        let total = crate::fx::saturate(diffuse_part as i128 + specular_part as i128);
        lighting_factor = crate::fx::saturate(lighting_factor as i128 + total as i128);
        li = li + 1;
    }
    lighting_factor
}

} // verus!
