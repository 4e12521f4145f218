use raytracer::fx::{div_fx, mul_fx, pow_fx, sqrt_fx, tdiv64, EPSILON, FX_MAX, INF, SCALE};
use raytracer::primitives::{new_sphere, Collideable, Primitive, Sphere};
use raytracer::ray::{new_ray, reflect_ray, Ray};
use raytracer::util::{in_range, middle_to_topleft, pixel_target, quantize_channel, topleft_to_middle, v3_to_rgb};
use raytracer::vec3::{cross, dot, new_vec, V3};

fn fx(units: i64) -> i64 {
    units * SCALE
}

#[test]
fn mul_fx_is_exact_on_whole_units() {
    assert_eq!(mul_fx(fx(3), fx(2)), fx(6));
    assert_eq!(mul_fx(fx(-3), fx(2)), fx(-6));
    assert_eq!(mul_fx(fx(3), 0), 0);
}

#[test]
fn mul_fx_saturates() {
    assert_eq!(mul_fx(FX_MAX, FX_MAX), FX_MAX);
    assert_eq!(mul_fx(FX_MAX, -FX_MAX), -FX_MAX);
}

#[test]
fn div_fx_is_exact_on_whole_units() {
    assert_eq!(div_fx(fx(6), fx(2)), fx(3));
    assert_eq!(div_fx(fx(1), fx(2)), SCALE / 2);
    assert_eq!(div_fx(fx(-6), fx(2)), fx(-3));
}

#[test]
fn tdiv64_rounds_toward_zero() {
    assert_eq!(tdiv64(7, 2), 3);
    assert_eq!(tdiv64(-7, 2), -3);
    assert_eq!(tdiv64(0, 5), 0);
}

#[test]
fn sqrt_fx_is_exact_on_perfect_squares() {
    assert_eq!(sqrt_fx(fx(4)), fx(2));
    assert_eq!(sqrt_fx(fx(9)), fx(3));
    assert_eq!(sqrt_fx(0), 0);
    // sqrt(2) in fixed point, rounded down: floor(sqrt(2) * 65536)
    assert_eq!(sqrt_fx(fx(2)), 92681);
}

#[test]
fn pow_fx_matches_repeated_multiplication() {
    assert_eq!(pow_fx(fx(2), 0), fx(1));
    assert_eq!(pow_fx(fx(2), 10), fx(1024));
    // (1/2)^2 == 1/4
    assert_eq!(pow_fx(SCALE / 2, 2), SCALE / 4);
}

#[test]
fn vector_arithmetic_is_componentwise() {
    let a = new_vec(fx(1), fx(2), fx(3));
    let b = new_vec(fx(4), fx(-5), fx(6));
    assert_eq!(a.plus(b), new_vec(fx(5), fx(-3), fx(9)));
    assert_eq!(a.minus(b), new_vec(fx(-3), fx(7), fx(-3)));
    assert_eq!(a.scaled(fx(2)), new_vec(fx(2), fx(4), fx(6)));
    assert_eq!(b.divided(fx(2)), new_vec(fx(2), -fx(5) / 2, fx(3)));
}

#[test]
fn dot_and_cross_products() {
    let a = new_vec(fx(1), fx(2), fx(3));
    let b = new_vec(fx(4), fx(-5), fx(6));
    assert_eq!(dot(a, b), fx(4 - 10 + 18));
    let c = cross(new_vec(fx(1), 0, 0), new_vec(0, fx(1), 0));
    assert_eq!(c, new_vec(0, 0, fx(1)));
}

#[test]
fn length_of_pythagorean_triple() {
    let v = new_vec(fx(3), fx(4), 0);
    assert_eq!(v.length(), fx(5));
    assert_eq!(new_vec(0, 0, 0).length(), 0);
}

#[test]
fn normalize_scales_to_unit_length() {
    let v = new_vec(fx(3), fx(4), 0);
    let n = v.normalize();
    // 3/5 and 4/5 in fixed point, truncated toward zero
    assert_eq!(n, new_vec(39321, 52428, 0));
    let axis = new_vec(0, fx(-7), 0).normalize();
    assert_eq!(axis, new_vec(0, -SCALE, 0));
}

#[test]
fn reflect_ray_mirrors_about_the_normal() {
    let n = new_vec(0, SCALE, 0);
    assert_eq!(reflect_ray(new_vec(0, SCALE, 0), n), new_vec(0, SCALE, 0));
    assert_eq!(reflect_ray(new_vec(SCALE, SCALE, 0), n), new_vec(-SCALE, SCALE, 0));
}

#[test]
fn in_range_is_strict() {
    assert!(in_range(5, 0, 10));
    assert!(!in_range(0, 0, 10));
    assert!(!in_range(10, 0, 10));
    assert!(!in_range(-1, 0, 10));
}

// For a sphere centered on the ray's axis at distance 5 with radius 2,
// the two roots are symmetric around 5 and separated by twice the radius.
#[test]
fn axis_sphere_roots_are_symmetric() {
    let s = Sphere {
        center: V3 { x: 0, y: 0, z: fx(5) },
        radius: fx(2),
        color: V3 { x: 0, y: 0, z: 0 },
        specular: -1,
        reflective: 0,
    };
    let ray = new_ray(new_vec(0, 0, 0), new_vec(0, 0, SCALE));
    let (t1, t2) = s.ray_intersection(ray).unwrap();
    assert_eq!((t1, t2), (fx(7), fx(3)));
    assert_eq!(t1 + t2, 2 * fx(5));
    assert_eq!(t1 - t2, 2 * fx(2));
}

#[test]
fn tangent_ray_yields_equal_roots() {
    let s = new_sphere(new_vec(0, -fx(1), fx(3)), fx(1), new_vec(fx(255), 0, 0), 500, 0);
    let ray = new_ray(new_vec(0, 0, 0), new_vec(0, 0, SCALE));
    let (t1, t2) = s.ray_intersection(ray).unwrap();
    assert_eq!(t1, t2);
    assert_eq!(t1, fx(3));
}

#[test]
fn missing_ray_yields_no_roots() {
    let s = new_sphere(new_vec(0, 0, fx(5)), fx(1), new_vec(0, 0, 0), -1, 0);
    // pointed the other way: the quadratic still has roots (both negative)
    let away = new_ray(new_vec(0, 0, 0), new_vec(0, 0, -SCALE));
    let (t1, t2) = s.ray_intersection(away).unwrap();
    assert!(t1 < 0 && t2 < 0);
    // pointed far to the side: no real roots at all
    let aside = new_ray(new_vec(0, 0, 0), new_vec(0, SCALE, 0));
    assert!(aside.closest_point(&vec![s], EPSILON, INF).is_none());
    assert!(s.ray_intersection(aside).is_none());
}

#[test]
fn degenerate_direction_yields_no_intersection() {
    let s = new_sphere(new_vec(0, 0, fx(5)), fx(1), new_vec(0, 0, 0), -1, 0);
    let degenerate = new_ray(new_vec(0, 0, 0), new_vec(0, 0, 0));
    assert!(s.ray_intersection(degenerate).is_none());
}

#[test]
fn sphere_normal_points_outward() {
    let s = new_sphere(new_vec(0, 0, fx(5)), fx(1), new_vec(0, 0, 0), -1, 0);
    let n = s.normal_at_point(new_vec(0, 0, fx(4)));
    assert_eq!(n, new_vec(0, 0, -SCALE));
}

#[test]
fn primitive_accessors_expose_material() {
    let p = new_sphere(new_vec(0, 0, 0), fx(1), new_vec(fx(10), fx(20), fx(30)), 500, SCALE / 2);
    assert_eq!(p.color(), new_vec(fx(10), fx(20), fx(30)));
    assert_eq!(p.specular(), 500);
    assert_eq!(p.reflective(), SCALE / 2);
    let Primitive::Sphere(s) = p;
    assert_eq!(s.radius, fx(1));
}

#[test]
fn quantize_clamps_and_rounds() {
    assert_eq!(quantize_channel(-fx(5)), 0);
    assert_eq!(quantize_channel(fx(300)), 255);
    assert_eq!(quantize_channel(fx(127) + SCALE / 2), 128); // exactly half rounds up
    assert_eq!(quantize_channel(fx(127) + SCALE / 2 - 1), 127);
    assert_eq!(quantize_channel(0), 0);
    assert_eq!(quantize_channel(fx(255)), 255);
}

#[test]
fn v3_to_rgb_quantizes_each_channel() {
    let c = v3_to_rgb(V3 { x: -fx(5), y: fx(127) + SCALE / 2, z: fx(300) });
    assert_eq!(c.0, [0u8, 128u8, 255u8]);
}

#[test]
fn coordinate_transforms_are_inverse() {
    assert_eq!(middle_to_topleft(100, 50, -3, 7), (47, 18));
    assert_eq!(topleft_to_middle(100, 50, 47, 18), (-3, 7));
    assert_eq!(topleft_to_middle(100, 50, 0, 0), (-50, 25));
}

#[test]
fn pixel_target_accepts_interior_and_rejects_outside() {
    assert_eq!(pixel_target(100, 50, 0, 0), Ok((50, 24)));
    assert_eq!(pixel_target(100, 50, -50, 24), Ok((0, 0)));
    // off the right edge
    assert_eq!(pixel_target(100, 50, 50, 0), Err((100, 25)));
    // off the top edge: converted row 0 means raster row -1
    assert_eq!(pixel_target(100, 50, 0, 25), Err((50, 0)));
}

#[test]
fn rays_keep_their_fields() {
    let r = new_ray(new_vec(fx(1), fx(2), fx(3)), new_vec(0, 0, SCALE));
    assert_eq!(r.origin, new_vec(fx(1), fx(2), fx(3)));
    assert_eq!(r.direction, new_vec(0, 0, SCALE));
    assert_eq!(r.point_at_scale(fx(2)), new_vec(fx(1), fx(2), fx(5)));
}

#[test]
fn new_vec_saturates_components() {
    let v = new_vec(i64::MAX, i64::MIN, 7);
    assert_eq!(v, V3 { x: FX_MAX, y: -FX_MAX, z: 7 });
    let _ = Ray { origin: v, direction: v };
}

#[test]
fn canvas_draw_pixel_stores_the_quantized_color() {
    let mut canvas = raytracer::util::Canvas::new(8, 4);
    assert_eq!(canvas.width(), 8);
    assert_eq!(canvas.height(), 4);
    assert_eq!(canvas.get_pixel(0, 0), (0, 0, 0));
    let color = v3_to_rgb(V3 { x: fx(255), y: fx(128), z: fx(7) });
    // center-origin (0, 0) lands one row above the vertical middle
    assert_eq!(raytracer::util::draw_pixel(&mut canvas, 0, 0, color), Ok(()));
    assert_eq!(canvas.get_pixel(4, 1), (255, 128, 7));
    // off the canvas: reported, not written
    assert_eq!(raytracer::util::draw_pixel(&mut canvas, 99, 0, color), Err((103, 2)));
    assert_eq!(canvas.get_pixel(4, 1), (255, 128, 7));
}
