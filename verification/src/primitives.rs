//! Geometric primitives: a closed shape union (currently spheres) with a
//! capability trait for ray intersection and surface normals.
use crate::fx::{fits, fx_mul, fx_sqrt, mul_fx, sat, saturate, sqrt_fx, tdiv, SCALE};
use crate::ray::{fits_ray, Ray};
use crate::vec3::{dot, dot3, fits3, lemma_mul_fits, sub3, unit3, V3};
use vstd::math::abs;
use vstd::prelude::*;

verus! {

/// Capability set every renderable shape offers: parametric intersection
/// roots against a ray, and the surface normal at a point on the shape.
pub trait Collideable {
    /// The shape's own well-formedness condition.
    spec fn wf(&self) -> bool;

    /// The intersection roots `ray_intersection` returns.
    spec fn spec_roots(&self, ray: Ray) -> Option<(i64, i64)>;

    /// Whether the surface normal is defined at `point`.
    spec fn normal_defined(&self, point: V3) -> bool;

    /// The unit surface normal `normal_at_point` returns.
    spec fn spec_normal(&self, point: V3) -> V3;

    /// Parametric distances at which `ray` meets the shape: none, or two
    /// (possibly equal) roots.
    fn ray_intersection(&self, ray: Ray) -> (r: Option<(i64, i64)>)
        requires
            self.wf(),
            fits_ray(ray),
        ensures
            r == self.spec_roots(ray),
            r matches Some(ts) ==> fits(ts.0 as int) && fits(ts.1 as int),
    ;

    /// The unit surface normal at `point`, which must lie where the normal
    /// is defined (for a sphere: anywhere but its center).
    fn normal_at_point(&self, point: V3) -> (r: V3)
        requires
            self.wf(),
            fits3(point),
            self.normal_defined(point),
        ensures
            r == self.spec_normal(point),
            fits3(r),
    ;
}

/// A sphere with its material: base color, specular exponent (`-1` meaning
/// non-specular) and reflectivity in `[0, SCALE]`.
#[derive(Debug, Clone, Copy, PartialEq, Eq, Structural)]
pub struct Sphere {
    pub center: V3,
    pub radius: i64,
    pub color: V3,
    pub specular: i64,
    pub reflective: i64,
}

/// The roots of `|O + tD - C|^2 = r^2` in fixed point: with `co = O - C`,
/// `a = D.D`, `b = 2 co.D`, `c = co.co - r^2`, the two roots of the
/// quadratic when the discriminant is nonnegative. A direction so short
/// that `a` rounds to zero is degenerate and yields no intersection.
pub open spec fn sphere_roots(s: Sphere, ray: Ray) -> Option<(i64, i64)> {
    let co = sub3(ray.origin, s.center);
    let a = dot3(ray.direction, ray.direction);
    let b = sat(2 * dot3(co, ray.direction));
    let c = sat(dot3(co, co) - fx_mul(s.radius as int, s.radius as int));
    let disc = sat(fx_mul(b, b) - sat(4 * fx_mul(a, c)));
    if a == 0 || disc < 0 {
        None
    } else {
        let rhs = fx_sqrt(disc);
        let two_a = sat(2 * a);
        let t1 = sat(tdiv((rhs - b) * SCALE as int, two_a));
        let t2 = sat(tdiv((-b - rhs) * SCALE as int, two_a));
        Some((t1 as i64, t2 as i64))
    }
}

/// A unit axis ray meets a sphere dead ahead — center `(0, 0, dd)` and
/// radius `rr` in whole units, `rr < dd` — at exactly `dd + rr` and
/// `dd - rr`: two roots symmetric about the center's distance, `2 * rr`
/// apart. (Sub-unit geometry obeys the same law up to fixed-point
/// rounding.)
pub proof fn lemma_axis_sphere_roots(dd: i64, rr: i64, s: Sphere, ray: Ray)
    requires
        1 <= rr < dd <= 0x200000,
        s.center == (V3 { x: 0, y: 0, z: (dd * SCALE) as i64 }),
        s.radius == rr * SCALE,
        ray.origin == (V3 { x: 0, y: 0, z: 0 }),
        ray.direction == (V3 { x: 0, y: 0, z: SCALE }),
    ensures
        sphere_roots(s, ray) == Some((((dd + rr) * SCALE) as i64, ((dd - rr) * SCALE) as i64)),
        sphere_roots(s, ray) matches Some((t1, t2)) ==> t1 + t2 == 2 * dd * SCALE && t1 - t2 == 2
            * rr * SCALE,
{
    let sc: int = SCALE as int;
    let d: int = dd * sc;
    let rad: int = rr * sc;
    assert(0 < d <= 0x2000000000000 && 0 < rad < d) by (nonlinear_arith)
        requires 1 <= rr < dd <= 0x200000, sc == 65536, d == dd * sc, rad == rr * sc,
    ;

    let co = sub3(ray.origin, s.center);
    assert(co == (V3 { x: 0, y: 0, z: (-d) as i64 }));

    // a = D.D = SCALE exactly
    let a = dot3(ray.direction, ray.direction);
    assert(a == sc) by {
        assert(ray.direction.z * ray.direction.z == 0x100000000int) by (nonlinear_arith)
            requires ray.direction.z == 65536,
        ;
        assert(tdiv(0x100000000int, sc) == 0x10000int) by {
            assert(abs(0x100000000int) as int / abs(sc as int) as int == 0x10000int);
        }
    }

    // co.D = -d exactly
    assert(dot3(co, ray.direction) == -d) by {
        assert(co.z * ray.direction.z == -d * sc);
        assert(tdiv(-d * sc, sc) == -d) by {
            assert(-d * sc < 0) by (nonlinear_arith)
                requires d > 0, sc > 0,
            ;
            assert(abs(-d * sc) == d * sc) by (nonlinear_arith)
                requires d > 0, sc > 0,
            ;
            assert(d * sc == sc * d) by (nonlinear_arith);
            vstd::arithmetic::div_mod::lemma_div_multiples_vanish(d, sc);
        }
        assert(sat(-d) == -d);
    }
    let b = sat(2 * dot3(co, ray.direction));
    assert(b == -2 * d);

    // co.co = dd * dd * SCALE and rad^2 / SCALE = rr * rr * SCALE, exactly
    assert(dot3(co, co) == dd * dd * sc) by {
        assert((-d) * (-d) == (dd * dd * sc) * sc && 0 <= dd * dd * sc <= 0x400000000000000int)
            by (nonlinear_arith)
            requires d == dd * sc, 1 <= dd <= 0x200000, sc == 65536,
        ;
        vstd::arithmetic::div_mod::lemma_div_multiples_vanish(dd * dd * sc, sc);
        assert(tdiv((dd * dd * sc) * sc, sc) == dd * dd * sc) by {
            assert((dd * dd * sc) * sc >= 0 && (dd * dd * sc) * sc == sc * (dd * dd * sc))
                by (nonlinear_arith)
                requires dd * dd * sc >= 0, sc > 0,
            ;
        }
    }
    assert(fx_mul(s.radius as int, s.radius as int) == rr * rr * sc) by {
        assert(rad * rad == (rr * rr * sc) * sc && 0 <= rr * rr * sc <= 0x400000000000000int)
            by (nonlinear_arith)
            requires rad == rr * sc, 1 <= rr <= 0x200000, sc == 65536,
        ;
        vstd::arithmetic::div_mod::lemma_div_multiples_vanish(rr * rr * sc, sc);
        assert(tdiv((rr * rr * sc) * sc, sc) == rr * rr * sc) by {
            assert((rr * rr * sc) * sc >= 0 && (rr * rr * sc) * sc == sc * (rr * rr * sc))
                by (nonlinear_arith)
                requires rr * rr * sc >= 0, sc > 0,
            ;
        }
    }
    assert(0 < dd * dd * sc - rr * rr * sc <= 0x4000000000000000int && dd * dd * sc - rr * rr
        * sc == (dd * dd - rr * rr) * sc) by (nonlinear_arith)
        requires 1 <= rr < dd <= 0x200000, sc == 65536,
    ;
    let c = sat(dot3(co, co) - fx_mul(s.radius as int, s.radius as int));
    assert(c == (dd * dd - rr * rr) * sc && 0 < c <= 0x400000000000000000int);

    // discriminant = 4 rr^2 SCALE exactly
    assert(fx_mul(b, b) == 4 * dd * dd * sc) by {
        assert(b * b == (4 * dd * dd * sc) * sc && 0 <= 4 * dd * dd * sc
            <= 0x4000000000000000int) by (nonlinear_arith)
            requires b == -2 * (dd * sc), 1 <= dd <= 0x200000, sc == 65536,
        ;
        vstd::arithmetic::div_mod::lemma_div_multiples_vanish(4 * dd * dd * sc, sc);
        assert(tdiv((4 * dd * dd * sc) * sc, sc) == 4 * dd * dd * sc) by {
            assert((4 * dd * dd * sc) * sc >= 0 && (4 * dd * dd * sc) * sc == sc * (4 * dd * dd
                * sc)) by (nonlinear_arith)
                requires 4 * dd * dd * sc >= 0, sc > 0,
            ;
        }
    }
    assert(fx_mul(a, c) == (dd * dd - rr * rr) * sc) by {
        assert(a * c == ((dd * dd - rr * rr) * sc) * sc && 0 <= (dd * dd - rr * rr) * sc
            <= 0x4000000000000000int) by (nonlinear_arith)
            requires a == sc, c == (dd * dd - rr * rr) * sc, 1 <= rr < dd <= 0x200000, sc == 65536,
        ;
        vstd::arithmetic::div_mod::lemma_div_multiples_vanish((dd * dd - rr * rr) * sc, sc);
        assert(tdiv(((dd * dd - rr * rr) * sc) * sc, sc) == (dd * dd - rr * rr) * sc) by {
            assert(((dd * dd - rr * rr) * sc) * sc >= 0 && ((dd * dd - rr * rr) * sc) * sc == sc
                * ((dd * dd - rr * rr) * sc)) by (nonlinear_arith)
                requires (dd * dd - rr * rr) * sc >= 0, sc > 0,
            ;
        }
    }
    assert(0 <= 4 * ((dd * dd - rr * rr) * sc) <= 0x4000000000000000int && 4 * dd * dd * sc - 4
        * ((dd * dd - rr * rr) * sc) == 4 * rr * rr * sc && 0 <= 4 * rr * rr * sc
        <= 0x4000000000000000int) by (nonlinear_arith)
        requires 1 <= rr < dd <= 0x200000, sc == 65536,
    ;
    let disc = sat(fx_mul(b, b) - sat(4 * fx_mul(a, c)));
    assert(disc == 4 * rr * rr * sc);

    // sqrt of the discriminant = 2 rad exactly
    assert(fx_sqrt(disc) == 2 * rad) by {
        assert(disc * sc == (2 * rad) * (2 * rad) && 0 <= 2 * rad && (2 * rad) * (2 * rad) < (2
            * rad + 1) * (2 * rad + 1)) by (nonlinear_arith)
            requires disc == 4 * rr * rr * sc, rad == rr * sc, 1 <= rr, sc == 65536,
        ;
        crate::fx::lemma_isqrt_unique((disc * sc) as nat, (2 * rad) as nat);
        assert(sat(2 * rad) == 2 * rad);
    }
    let rhs = fx_sqrt(disc);
    let two_a = sat(2 * a);
    assert(two_a == 2 * sc);

    // the two roots
    assert(tdiv((rhs - b) * sc, two_a) == d + rad) by {
        assert((rhs - b) * sc == (2 * sc) * (d + rad) && (2 * sc) * (d + rad) >= 0)
            by (nonlinear_arith)
            requires rhs == 2 * rad, b == -2 * d, sc == 65536, d >= 0, rad >= 0,
        ;
        vstd::arithmetic::div_mod::lemma_div_multiples_vanish(d + rad, 2 * sc);
    }
    assert(tdiv((-b - rhs) * sc, two_a) == d - rad) by {
        assert((-b - rhs) * sc == (2 * sc) * (d - rad) && (2 * sc) * (d - rad) >= 0)
            by (nonlinear_arith)
            requires rhs == 2 * rad, b == -2 * d, sc == 65536, d - rad > 0,
        ;
        vstd::arithmetic::div_mod::lemma_div_multiples_vanish(d - rad, 2 * sc);
    }
    assert(sat(d + rad) == d + rad && sat(d - rad) == d - rad);
    assert(d + rad == (dd + rr) * sc && d - rad == (dd - rr) * sc) by (nonlinear_arith)
        requires d == dd * sc, rad == rr * sc,
    ;
    assert(a != 0 && disc >= 0);
}

impl Collideable for Sphere {
    open spec fn wf(&self) -> bool {
        &&& fits3(self.center)
        &&& fits(self.radius as int)
        &&& fits3(self.color)
        &&& -1 <= self.specular <= 0xffffffff
        &&& 0 <= self.reflective <= SCALE
    }

    open spec fn spec_roots(&self, ray: Ray) -> Option<(i64, i64)> {
        sphere_roots(*self, ray)
    }

    open spec fn normal_defined(&self, point: V3) -> bool {
        point != self.center
    }

    open spec fn spec_normal(&self, point: V3) -> V3 {
        unit3(sub3(point, self.center))
    }

    fn ray_intersection(&self, ray: Ray) -> (r: Option<(i64, i64)>) {
        let co = ray.origin.minus(self.center);
        let a = dot(ray.direction, ray.direction);
        let b = saturate(2 * (dot(co, ray.direction) as i128));
        let c = saturate(dot(co, co) as i128 - mul_fx(self.radius, self.radius) as i128);
        let disc = saturate(mul_fx(b, b) as i128 - saturate(4 * (mul_fx(a, c) as i128)) as i128);
        if a == 0 || disc < 0 {
            return None;
        }
        let rhs = sqrt_fx(disc);
        let two_a = saturate(2 * (a as i128));
        proof {
            lemma_mul_fits(rhs as int - b as int, SCALE as int, 0x8000000000000000int);
            lemma_mul_fits(-(b as int) - rhs as int, SCALE as int, 0x8000000000000000int);
            crate::vec3::lemma_dot_self_nonneg(ray.direction);
            assert(a >= 1);
            assert(two_a >= 2);
        }
        let t1 = saturate(crate::fx::tdiv128(
            (rhs as i128 - b as i128) * SCALE as i128,
            two_a as i128,
        ));
        let t2 = saturate(crate::fx::tdiv128(
            (-(b as i128) - rhs as i128) * SCALE as i128,
            two_a as i128,
        ));
        Some((t1, t2))
    }

    fn normal_at_point(&self, point: V3) -> (r: V3) {
        point.minus(self.center).normalize()
    }
}

/// The closed union of shape variants the rest of the tracer works with.
#[derive(Debug, Clone, Copy, PartialEq, Eq, Structural)]
pub enum Primitive {
    Sphere(Sphere),
}

impl Primitive {
    /// The base color of the underlying shape.
    pub open spec fn spec_color(&self) -> V3 {
        match self {
            Primitive::Sphere(s) => s.color,
        }
    }

    /// The specular exponent of the underlying shape.
    pub open spec fn spec_specular(&self) -> i64 {
        match self {
            Primitive::Sphere(s) => s.specular,
        }
    }

    /// The reflectivity of the underlying shape.
    pub open spec fn spec_reflective(&self) -> i64 {
        match self {
            Primitive::Sphere(s) => s.reflective,
        }
    }

    /// The base color of the underlying shape.
    pub fn color(&self) -> (r: V3)
        ensures
            r == self.spec_color(),
    {
        match self {
            Primitive::Sphere(s) => s.color,
        }
    }

    /// The specular exponent of the underlying shape.
    pub fn specular(&self) -> (r: i64)
        ensures
            r == self.spec_specular(),
    {
        match self {
            Primitive::Sphere(s) => s.specular,
        }
    }

    /// Whether the surface normal is defined at `point` (for a sphere:
    /// anywhere but its center).
    pub fn normal_ok(&self, point: V3) -> (r: bool)
        ensures
            r == self.normal_defined(point),
    {
        match self {
            Primitive::Sphere(s) => !(point == s.center),
        }
    }

    /// The reflectivity of the underlying shape.
    pub fn reflective(&self) -> (r: i64)
        ensures
            r == self.spec_reflective(),
    {
        match self {
            Primitive::Sphere(s) => s.reflective,
        }
    }
}

impl Collideable for Primitive {
    open spec fn wf(&self) -> bool {
        match self {
            Primitive::Sphere(s) => s.wf(),
        }
    }

    open spec fn spec_roots(&self, ray: Ray) -> Option<(i64, i64)> {
        match self {
            Primitive::Sphere(s) => s.spec_roots(ray),
        }
    }

    open spec fn normal_defined(&self, point: V3) -> bool {
        match self {
            Primitive::Sphere(s) => s.normal_defined(point),
        }
    }

    open spec fn spec_normal(&self, point: V3) -> V3 {
        match self {
            Primitive::Sphere(s) => s.spec_normal(point),
        }
    }

    fn ray_intersection(&self, ray: Ray) -> (r: Option<(i64, i64)>) {
        match self {
            Primitive::Sphere(s) => s.ray_intersection(ray),
        }
    }

    fn normal_at_point(&self, point: V3) -> (r: V3) {
        match self {
            Primitive::Sphere(s) => s.normal_at_point(point),
        }
    }
}

/// Build a sphere primitive. Reflectivity runs from `0` (matte) to `SCALE`
/// (a mirror); a specular exponent of `-1` marks a non-specular surface,
/// and any other value is a nonnegative integer exponent.
pub fn new_sphere(center: V3, radius: i64, color: V3, specular: i64, reflective: i64) -> (r:
    Primitive)
    requires
        fits3(center),
        fits(radius as int),
        fits3(color),
        -1 <= specular <= 0xffffffff,
        0 <= reflective <= SCALE,
    ensures
        r == Primitive::Sphere(Sphere { center, radius, color, specular, reflective }),
        r.wf(),
{
    Primitive::Sphere(Sphere { center, radius, color, specular, reflective })
}

} // verus!
