//! The per-pixel driver: mapping a canvas pixel to camera rays through the
//! viewframe (with supersampling on a fixed sub-grid), averaging the traced
//! colors, and the adaptive-refinement test that flags pixels whose color
//! diverges sharply from a neighbor.
use crate::fx::{fits, sat, tdiv, tdiv64, EPSILON, INF, SCALE};
use crate::ray::{fits_ray, spec_trace, trace_ray, Ray};
use crate::scene::Scene;
use crate::vec3::{dot, dot3, fits3, len3, lemma_mul_bound, sub3, add3, V3};
use vstd::math::abs;
use vstd::prelude::*;

verus! {

/// How far (in fixed-point color units) a pixel's color may sit from each
/// of its neighbors before the refinement pass re-renders it.
pub const MAX_COLOR_DIFFERENCE: i64 = 655360;

/// A 3x3 rotation matrix over fixed-point scalars, held as rows. Stands in
/// for the camera orientation applied to every viewframe direction.
#[derive(Debug, Clone, Copy, PartialEq, Eq, Structural)]
pub struct Mat3 {
    pub r0: V3,
    pub r1: V3,
    pub r2: V3,
}

/// All nine entries are in the fixed-point range.
pub open spec fn fits_mat3(m: Mat3) -> bool {
    fits3(m.r0) && fits3(m.r1) && fits3(m.r2)
}

/// Matrix times vector, one fixed-point dot product per row.
pub open spec fn rotate3(m: Mat3, v: V3) -> V3 {
    V3 { x: dot3(m.r0, v) as i64, y: dot3(m.r1, v) as i64, z: dot3(m.r2, v) as i64 }
}

impl Mat3 {
    /// Matrix times vector, one fixed-point dot product per row.
    pub fn rotate(&self, v: V3) -> (r: V3)
        requires
            fits_mat3(*self),
            fits3(v),
        ensures
            r == rotate3(*self, v),
            fits3(r),
    {
        V3 { x: dot(self.r0, v), y: dot(self.r1, v), z: dot(self.r2, v) }
    }
}

/// One viewframe coordinate of a sub-sample: the pixel index times the
/// per-pixel step `span / pixels`, offset by the centered sub-sample index
/// times the per-sample step `span / (pixels * n)`.
pub open spec fn viewframe_coord(span: int, pixels: int, cur: int, n: int, s: int) -> int {
    sat(cur * tdiv(span, pixels) + (s - n / 2) * tdiv(span, pixels * n))
}

/// The rotated direction from the camera through sub-sample `(sx, sy)` of
/// the pixel at `cur`, on an `n * n` sub-grid.
pub open spec fn sample_dir(scene: &Scene, cur: (i32, i32), rot: Mat3, n: int, sx: int, sy: int) -> V3 {
    let vx = viewframe_coord(
        scene.viewframe_width as int,
        scene.canvas_width as int,
        cur.0 as int,
        n,
        sx,
    );
    let vy = viewframe_coord(
        scene.viewframe_height as int,
        scene.canvas_height as int,
        cur.1 as int,
        n,
        sy,
    );
    rotate3(rot, V3 { x: vx as i64, y: vy as i64, z: scene.viewframe_distance })
}

/// The traced color of one sub-sample of the pixel at `cur`.
pub open spec fn sample_color(
    scene: &Scene,
    cur: (i32, i32),
    rot: Mat3,
    n: int,
    sx: int,
    sy: int,
) -> V3 {
    spec_trace(
        scene,
        Ray { origin: scene.camera, direction: sample_dir(scene, cur, rot, n, sx, sy) },
        EPSILON as int,
        INF as int,
        scene.recursion_limit as int,
    )
}

/// The saturating sum of the first `k` sub-sample colors, in row-major
/// order over the `n * n` sub-grid.
pub open spec fn sample_sum(scene: &Scene, cur: (i32, i32), rot: Mat3, n: int, k: nat) -> V3
    decreases k,
{
    if k == 0 {
        V3 { x: 0, y: 0, z: 0 }
    } else {
        add3(
            sample_sum(scene, cur, rot, n, (k - 1) as nat),
            sample_color(scene, cur, rot, n, ((k - 1) as int) / n, ((k - 1) as int) % n),
        )
    }
}

/// Componentwise division by a sample count.
pub open spec fn mean3(v: V3, cnt: int) -> V3 {
    V3 {
        x: tdiv(v.x as int, cnt) as i64,
        y: tdiv(v.y as int, cnt) as i64,
        z: tdiv(v.z as int, cnt) as i64,
    }
}

/// The color of the pixel at `cur`: the arithmetic mean of the traced
/// colors of all `n * n` sub-samples.
pub open spec fn spec_pixel(scene: &Scene, cur: (i32, i32), rot: Mat3, n: int) -> V3 {
    mean3(sample_sum(scene, cur, rot, n, (n * n) as nat), n * n)
}

/// One viewframe coordinate of a sub-sample.
fn viewframe_coord_fx(span: i64, pixels: i64, cur: i64, n: i64, s: i64) -> (r: i64)
    requires
        1 <= pixels <= 0x7fffffff,
        1 <= n <= 127,
        0 <= s <= n,
        fits(span as int),
        -0x80000000 <= cur <= 0x7fffffff,
    ensures
        r as int == viewframe_coord(span as int, pixels as int, cur as int, n as int, s as int),
        fits(r as int),
{
    let step = tdiv64(span, pixels);
    proof {
        lemma_mul_bound(pixels as int, n as int, 0x80000000int, 128int);
        assert(pixels * n >= 1) by (nonlinear_arith)
            requires pixels as int >= 1, n as int >= 1,
        ;
    }
    let sub = tdiv64(span, pixels * n);
    let half = (n as u64 / 2) as i64;
    proof {
        lemma_mul_bound(cur as int, step as int, 0x80000000int, 0x4000000000000000int);
        lemma_mul_bound(
            s - half as int,
            sub as int,
            128int,
            0x4000000000000000int,
        );
    }
    crate::fx::saturate((cur as i128) * (step as i128) + ((s - half) as i128) * (sub as i128))
}

/// The color of the pixel at `current`, averaged over an
/// `n_samples * n_samples` sub-grid of rays through the viewframe: sample
/// `(sx, sy)` is offset by `sx - n/2` (and likewise in y) per-sample steps,
/// every sample is traced, and the colors are averaged with equal weight.
pub fn generate_pixel(scene: &Scene, current: (i32, i32), rotation: &Mat3, n_samples: i8) -> (r: V3)
    requires
        scene.wf(),
        n_samples >= 1,
        scene.canvas_width >= 1,
        scene.canvas_height >= 1,
        fits_mat3(*rotation),
    ensures
        r == spec_pixel(scene, current, *rotation, n_samples as int),
        fits3(r),
{
    let n: i64 = n_samples as i64;
    proof {
        lemma_mul_bound(n as int, n as int, 127int, 127int);
        assert(n * n >= 1) by (nonlinear_arith)
            requires n as int >= 1,
        ;
    }
    let cnt: i64 = n * n;
    let mut final_color = V3 { x: 0i64, y: 0i64, z: 0i64 };
    let mut sx: i64 = 0;

    while sx < n
        invariant
            scene.wf(),
            fits_mat3(*rotation),
            scene.canvas_width >= 1,
            scene.canvas_height >= 1,
            1 <= n <= 127,
            0 <= sx <= n,
            fits3(final_color),
            final_color == sample_sum(scene, current, *rotation, n as int, (sx * n) as nat),
        decreases n - sx,
    {
        let mut sy: i64 = 0;
        proof {
            lemma_mul_bound(sx as int, n as int, 127int, 127int);
            assert(0 <= sx * n) by (nonlinear_arith)
                requires 0 <= sx as int, 0 <= n as int,
            ;
        }
        while sy < n
            invariant
                scene.wf(),
                fits_mat3(*rotation),
                scene.canvas_width >= 1,
                scene.canvas_height >= 1,
                1 <= n <= 127,
                0 <= sx < n,
                0 <= sy <= n,
                0 <= sx * n <= 16129,
                fits3(final_color),
                final_color == sample_sum(
                    scene,
                    current,
                    *rotation,
                    n as int,
                    (sx * n + sy) as nat,
                ),
            decreases n - sy,
        {
            let vx = viewframe_coord_fx(
                scene.viewframe_width,
                scene.canvas_width as i64,
                current.0 as i64,
                n,
                sx,
            );
            let vy = viewframe_coord_fx(
                scene.viewframe_height,
                scene.canvas_height as i64,
                current.1 as i64,
                n,
                sy,
            );
            let dir = rotation.rotate(V3 { x: vx, y: vy, z: scene.viewframe_distance });
            let ray = Ray { origin: scene.camera, direction: dir };
            let draw_color = trace_ray(scene, ray, EPSILON, INF, scene.recursion_limit);
            final_color = final_color.plus(draw_color);
            proof {
                let k: int = sx * n + sy;
                vstd::arithmetic::div_mod::lemma_fundamental_div_mod_converse(
                    k,
                    n as int,
                    sx as int,
                    sy as int,
                );
                assert(sample_sum(scene, current, *rotation, n as int, (k + 1) as nat) == add3(
                    sample_sum(scene, current, *rotation, n as int, k as nat),
                    sample_color(scene, current, *rotation, n as int, sx as int, sy as int),
                ));
            }
            sy = sy + 1;
        }
        proof {
            assert((sx + 1) * n == sx * n + n) by (nonlinear_arith);
        }
        sx = sx + 1;
    }
    proof {
        assert(cnt >= 1) by (nonlinear_arith)
            requires n as int >= 1, cnt as int == (n as int) * (n as int),
        ;
    }
    V3 {
        x: tdiv64(final_color.x, cnt),
        y: tdiv64(final_color.y, cnt),
        z: tdiv64(final_color.z, cnt),
    }
}

/// The two colors sit farther apart than the refinement threshold.
pub open spec fn color_far(a: V3, b: V3) -> bool {
    len3(sub3(a, b)) > MAX_COLOR_DIFFERENCE
}

/// Whether the pixel at `(x, y)` of a row-major `w * h` color buffer
/// diverges from any of its eight neighbors by more than the refinement
/// threshold; such a pixel is re-rendered at a higher sample count. Only
/// interior pixels (all eight neighbors present) are ever asked.
pub fn needs_refinement(img: &Vec<V3>, w: usize, h: usize, x: usize, y: usize) -> (r: bool)
    requires
        3 <= w,
        3 <= h,
        img@.len() == w * h,
        1 <= x < w - 1,
        1 <= y < h - 1,
    ensures
        r == exists|dx: int, dy: int|
            -1 <= dx <= 1 && -1 <= dy <= 1 && !(dx == 0 && dy == 0) && color_far(
                img@[y * w + x],
                #[trigger] img@[(y + dy) * w + (x + dx)],
            ),
{
    let image_len = img.len();
    proof {
        assert(w * h <= usize::MAX);
        assert((y as int) * (w as int) + (x as int) < (w as int) * (h as int)) by (nonlinear_arith)
            requires
                1 <= y as int, y as int <= h as int - 2, 1 <= x as int, x as int <= w as int - 2,
                3 <= w as int, 3 <= h as int,
        ;
    }
    let center = img[y * w + x];
    let mut dxi: usize = 0;
    let mut found = false;

    while dxi < 3
        invariant
            3 <= w,
            3 <= h,
            img@.len() == w * h,
            1 <= x < w - 1,
            1 <= y < h - 1,
            w * h <= usize::MAX,
            center == img@[y * w + x],
            0 <= dxi <= 3,
            found == exists|dx: int, dy: int|
                -1 <= dx < dxi - 1 && -1 <= dy <= 1 && !(dx == 0 && dy == 0) && color_far(
                    img@[y * w + x],
                    #[trigger] img@[(y + dy) * w + (x + dx)],
                ),
        decreases 3 - dxi,
    {
        let mut dyi: usize = 0;
        while dyi < 3
            invariant
                3 <= w,
                3 <= h,
                img@.len() == w * h,
                1 <= x < w - 1,
                1 <= y < h - 1,
                w * h <= usize::MAX,
                center == img@[y * w + x],
                0 <= dxi < 3,
                0 <= dyi <= 3,
                found == exists|dx: int, dy: int|
                    (-1 <= dx < dxi - 1 && -1 <= dy <= 1 || dx == dxi - 1 && -1 <= dy < dyi - 1)
                        && !(dx == 0 && dy == 0) && color_far(
                        img@[y * w + x],
                        #[trigger] img@[(y + dy) * w + (x + dx)],
                    ),
            decreases 3 - dyi,
        {
            if !(dxi == 1 && dyi == 1) {
                let nx = x + dxi - 1;
                let ny = y + dyi - 1;
                proof {
                    assert((ny as int) * (w as int) + (nx as int) < (w as int) * (h as int))
                        by (nonlinear_arith)
                        requires
                            0 <= ny as int, ny as int <= h as int - 1, 0 <= nx as int,
                            (nx as int) < w as int, 3 <= w as int, 3 <= h as int,
                    ;
                }
                let neighbor = img[ny * w + nx];
                let diff = center.minus(neighbor);
                if diff.length() > MAX_COLOR_DIFFERENCE {
                    found = true;
                    proof {
                        assert(color_far(
                            img@[y * w + x],
                            img@[(y as int + (dyi - 1)) * w + (x as int + (dxi - 1))],
                        ));
                    }
                }
            }
            dyi = dyi + 1;
        }
        dxi = dxi + 1;
    }
    found
}

} // verus!
