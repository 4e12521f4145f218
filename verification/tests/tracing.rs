use raytracer::fx::{EPSILON, INF, SCALE};
use raytracer::primitives::new_sphere;
use raytracer::ray::{background_color, compute_lighting, new_ray, trace_ray};
use raytracer::sampling::{generate_pixel, needs_refinement, Mat3, MAX_COLOR_DIFFERENCE};
use raytracer::scene::{init_scene, new_scene, Light};
use raytracer::vec3::{new_vec, V3};

fn fx(units: i64) -> i64 {
    units * SCALE
}

fn identity_rotation() -> Mat3 {
    Mat3 {
        r0: new_vec(SCALE, 0, 0),
        r1: new_vec(0, SCALE, 0),
        r2: new_vec(0, 0, SCALE),
    }
}

// A ray pointed away from every primitive yields no nearest hit and the
// background color.
#[test]
fn miss_returns_background() {
    let mut scene = new_scene();
    scene.primitives.push(new_sphere(new_vec(0, 0, fx(5)), fx(1), new_vec(fx(255), 0, 0), -1, 0));
    let away = new_ray(new_vec(0, 0, 0), new_vec(0, 0, -SCALE));
    assert!(away.closest_point(&scene.primitives, EPSILON, INF).is_none());
    let color = trace_ray(&scene, away, EPSILON, INF, 3);
    assert_eq!(color, background_color());
    assert_eq!(color, new_vec(fx(255), fx(255), fx(255)));
}

// Nearest-hit selects the smallest valid root across overlapping primitives.
#[test]
fn nearest_hit_takes_the_smaller_root() {
    let near = new_sphere(new_vec(0, 0, fx(5)), fx(1), new_vec(fx(1), 0, 0), -1, 0);
    let far = new_sphere(new_vec(0, 0, fx(9)), fx(2), new_vec(0, fx(1), 0), -1, 0);
    let prims = vec![far, near];
    let ray = new_ray(new_vec(0, 0, 0), new_vec(0, 0, SCALE));
    let (point, prim) = ray.closest_point(&prims, EPSILON, INF).unwrap();
    // near sphere's first root is at t = 4, well before the far sphere's 7
    assert_eq!(point, new_vec(0, 0, fx(4)));
    assert_eq!(prim, near);
}

// Among equal roots the earliest primitive in the collection wins.
#[test]
fn nearest_hit_tie_goes_to_the_first_primitive() {
    let first = new_sphere(new_vec(0, 0, fx(5)), fx(1), new_vec(fx(1), 0, 0), -1, 0);
    let second = new_sphere(new_vec(0, 0, fx(5)), fx(1), new_vec(0, fx(1), 0), -1, 0);
    let prims = vec![first, second];
    let ray = new_ray(new_vec(0, 0, 0), new_vec(0, 0, SCALE));
    let (_, prim) = ray.closest_point(&prims, EPSILON, INF).unwrap();
    assert_eq!(prim, first);
}

// The range is open: roots at or beyond t_max (or at or below t_min) do
// not count.
#[test]
fn nearest_hit_range_is_strict() {
    let s = new_sphere(new_vec(0, 0, fx(5)), fx(1), new_vec(fx(1), 0, 0), -1, 0);
    let prims = vec![s];
    let ray = new_ray(new_vec(0, 0, 0), new_vec(0, 0, SCALE));
    assert!(ray.closest_point(&prims, EPSILON, fx(4)).is_none());
    assert!(ray.closest_point(&prims, EPSILON, fx(4) + 1).is_some());
    assert!(ray.closest_point(&prims, fx(6), INF).is_none());
}

// A primitive strictly between the shaded point and a point light blocks
// both the diffuse and the specular contribution; ambient remains.
#[test]
fn shadowed_point_keeps_only_ambient() {
    let mut scene = new_scene();
    scene.ambient_light = 13107; // 0.2
    let shaded = new_sphere(new_vec(0, 0, fx(5)), fx(1), new_vec(fx(255), 0, 0), 500, 0);
    let blocker = new_sphere(new_vec(0, 0, fx(2)), fx(1), new_vec(0, fx(255), 0), -1, 0);
    scene.primitives.push(shaded);
    scene.primitives.push(blocker);
    scene.lights.push(Light::Point((new_vec(0, 0, 0), fx(1))));
    let point = new_vec(0, 0, fx(4));
    let lit = compute_lighting(&scene, point, &shaded);
    assert_eq!(lit, 13107);
}

// The same configuration without the blocker gains a diffuse term with an
// exactly computable value.
#[test]
fn unshadowed_point_light_adds_diffuse() {
    let mut scene = new_scene();
    scene.ambient_light = 13107;
    let shaded = new_sphere(new_vec(0, 0, fx(5)), fx(1), new_vec(fx(255), 0, 0), -1, 0);
    scene.primitives.push(shaded);
    scene.lights.push(Light::Point((new_vec(0, 0, 0), fx(1))));
    let point = new_vec(0, 0, fx(4));
    // attenuation 1/sqrt(4) = 1/2, intensity 1, cosine exactly 1
    assert_eq!(compute_lighting(&scene, point, &shaded), 13107 + SCALE / 2);
}

// Reflectivity 0 makes trace independent of recursion depth.
#[test]
fn zero_reflectivity_ignores_depth() {
    let mut scene = new_scene();
    scene.ambient_light = fx(1) / 2;
    scene.primitives.push(new_sphere(new_vec(0, 0, fx(5)), fx(1), new_vec(fx(200), fx(40), 0), 500, 0));
    scene.lights.push(Light::Point((new_vec(0, fx(10), 0), fx(2))));
    let ray = new_ray(new_vec(0, 0, 0), new_vec(0, 0, SCALE));
    let c0 = trace_ray(&scene, ray, EPSILON, INF, 0);
    let c1 = trace_ray(&scene, ray, EPSILON, INF, 1);
    let c8 = trace_ray(&scene, ray, EPSILON, INF, 8);
    assert_eq!(c0, c1);
    assert_eq!(c0, c8);
}

// With depth exhausted, even a perfect mirror returns pure local shading.
#[test]
fn depth_zero_is_pure_local_shading() {
    let mut scene = new_scene();
    scene.ambient_light = 13107;
    let mirror = new_sphere(new_vec(0, 0, fx(5)), fx(1), new_vec(0, 0, fx(255)), 500, SCALE);
    scene.primitives.push(mirror);
    scene.lights.push(Light::Point((new_vec(0, 0, 0), fx(1))));
    let ray = new_ray(new_vec(0, 0, 0), new_vec(0, 0, SCALE));
    let traced = trace_ray(&scene, ray, EPSILON, INF, 0);
    let hit_point = new_vec(0, 0, fx(4));
    let local = mirror.color().scaled(compute_lighting(&scene, hit_point, &mirror));
    assert_eq!(traced, local);
}

// A mirror with depth left blends in the reflected color; with depth 0 it
// does not, so the two differ in this scene.
#[test]
fn mirror_with_depth_blends_reflection() {
    let mut scene = new_scene();
    scene.ambient_light = 13107;
    let mirror = new_sphere(new_vec(0, 0, fx(5)), fx(1), new_vec(0, 0, fx(255)), -1, SCALE);
    let red_wall = new_sphere(new_vec(0, 0, -fx(10)), fx(2), new_vec(fx(255), 0, 0), -1, 0);
    scene.primitives.push(mirror);
    scene.primitives.push(red_wall);
    let ray = new_ray(new_vec(0, 0, 0), new_vec(0, 0, SCALE));
    let shallow = trace_ray(&scene, ray, EPSILON, INF, 0);
    let deep = trace_ray(&scene, ray, EPSILON, INF, 3);
    // with reflectivity 1 the blend keeps none of the local color
    assert_ne!(shallow, deep);
    // the mirror faces back toward the red wall along -z
    assert!(deep.x > deep.z);
}

// End-to-end: the central camera ray of the three-sphere scene hits the
// red sphere first and returns a color dominated by the red channel,
// reduced from full brightness by a shading factor below one.
#[test]
fn central_pixel_of_sample_scene_is_red() {
    let mut scene = new_scene();
    scene.canvas_width = 1920;
    scene.canvas_height = 1080;
    scene.viewframe_width = fx(2);
    scene.viewframe_height = 73728; // 1.125
    scene.viewframe_distance = fx(1);
    scene.camera = new_vec(0, 0, 0);
    scene.recursion_limit = 3;
    scene.ambient_light = 13107; // 0.2
    scene.primitives.push(new_sphere(new_vec(0, -fx(1), fx(3)), fx(1), new_vec(fx(255), 0, 0), 500, 0));
    scene.primitives.push(new_sphere(new_vec(fx(2), 0, fx(4)), fx(1), new_vec(0, 0, fx(255)), 500, SCALE));
    scene.primitives.push(new_sphere(new_vec(-fx(2), 0, fx(4)), fx(1), new_vec(0, fx(255), 0), 10, 0));
    scene.primitives.push(new_sphere(new_vec(0, -fx(5001), 0), fx(5000), new_vec(fx(255), fx(255), 0), 1000, 0));
    scene.lights.push(Light::Point((new_vec(-fx(10), fx(10), -fx(10)), fx(2))));
    scene.lights.push(Light::Directional((new_vec(fx(1), fx(4), fx(4)), 13107)));

    let ray = new_ray(new_vec(0, 0, 0), new_vec(0, 0, SCALE));
    let (point, prim) = ray.closest_point(&scene.primitives, EPSILON, INF).unwrap();
    assert_eq!(prim.color(), new_vec(fx(255), 0, 0));
    assert_eq!(point, new_vec(0, 0, fx(3)));

    let color = trace_ray(&scene, ray, EPSILON, INF, scene.recursion_limit);
    assert!(color.x > 0);
    assert!(color.x < fx(255));
    assert!(color.x > color.y && color.x > color.z);
    assert_eq!((color.y, color.z), (0, 0));

    // the same ray through the pixel driver at one sample per pixel
    let rot = identity_rotation();
    let pixel = generate_pixel(&scene, (0, 0), &rot, 1);
    assert_eq!(pixel, color);
}

// Supersampling averages the sub-sample colors exactly: with every
// sub-sample tracing to the same known color, the mean is that color.
#[test]
fn supersampling_averages_uniform_samples_exactly() {
    let mut scene = new_scene();
    scene.canvas_width = 4;
    scene.canvas_height = 4;
    scene.viewframe_width = fx(2);
    scene.viewframe_height = fx(2);
    scene.viewframe_distance = fx(1);
    scene.recursion_limit = 1;
    let rot = identity_rotation();
    // empty scene: all four sub-samples are the white background
    let pixel = generate_pixel(&scene, (0, 0), &rot, 2);
    assert_eq!(pixel, new_vec(fx(255), fx(255), fx(255)));
    // a giant enclosing matte sphere: all sub-samples shade to ambient * color
    scene.ambient_light = SCALE / 4;
    scene.primitives.push(new_sphere(new_vec(0, 0, 0), fx(100), new_vec(fx(200), fx(100), fx(40)), -1, 0));
    let inside = generate_pixel(&scene, (0, 0), &rot, 2);
    assert_eq!(inside, new_vec(fx(50), fx(25), fx(10)));
}

// The refinement test flags a pixel far from one neighbor and leaves a
// uniform neighborhood alone.
#[test]
fn refinement_triggers_on_color_jumps() {
    let flat = vec![new_vec(fx(100), fx(100), fx(100)); 9];
    assert!(!needs_refinement(&flat, 3, 3, 1, 1));

    let mut spike = flat.clone();
    spike[0] = new_vec(fx(100) + MAX_COLOR_DIFFERENCE + SCALE, fx(100), fx(100));
    assert!(needs_refinement(&spike, 3, 3, 1, 1));

    // a jump of exactly the threshold is not enough: the test is strict
    let mut edge = flat.clone();
    edge[2] = new_vec(fx(100) + MAX_COLOR_DIFFERENCE, fx(100), fx(100));
    assert!(!needs_refinement(&edge, 3, 3, 1, 1));
}

#[test]
fn new_scene_is_empty_and_zeroed() {
    let s = new_scene();
    assert!(s.primitives.is_empty());
    assert!(s.lights.is_empty());
    assert_eq!(s.ambient_light, 0);
    assert_eq!(s.recursion_limit, 0);
    assert_eq!(s.camera, new_vec(0, 0, 0));
}

#[test]
fn init_scene_populates_the_sample_scene() {
    let mut s = new_scene();
    init_scene(&mut s);
    assert_eq!(s.primitives.len(), 6);
    assert_eq!(s.lights.len(), 2);
    assert_eq!(s.ambient_light, 13107);
    assert_eq!(s.recursion_limit, 8);
    assert_eq!(s.canvas_width, 38400);
    assert_eq!(s.canvas_height, 21600);
    assert_eq!(s.camera, new_vec(fx(1), 0, 0));
    assert_eq!(s.primitives[0].color(), new_vec(fx(255), 0, 0));
    let (lv, li) = s.lights[0].contents();
    assert_eq!(lv, new_vec(-fx(10), fx(10), -fx(10)));
    assert_eq!(li, fx(2));
}

#[test]
fn light_contents_returns_vector_and_intensity() {
    let p = Light::Point((new_vec(fx(1), fx(2), fx(3)), fx(2)));
    let d = Light::Directional((new_vec(0, fx(1), 0), 13107));
    assert_eq!(p.contents(), (new_vec(fx(1), fx(2), fx(3)), fx(2)));
    assert_eq!(d.contents(), (new_vec(0, fx(1), 0), 13107));
}
