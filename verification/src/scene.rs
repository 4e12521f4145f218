//! The scene description: primitives, lights, ambient light and the
//! camera/viewframe configuration. Built once, then read-only while
//! rendering.
use crate::fx::fits;
use crate::primitives::{new_sphere, Collideable, Primitive, Sphere};
use crate::vec3::{fits3, new_vec, V3};
use vstd::prelude::*;

verus! {

/// A light source: a point light at a position, or a directional light
/// along a fixed direction; each with an intensity.
#[derive(Debug, Clone, Copy)]
pub enum Light {
    Point((V3, i64)),
    Directional((V3, i64)),
}

impl Light {
    /// The light's position-or-direction and its intensity.
    pub open spec fn spec_contents(&self) -> (V3, i64) {
        match self {
            Light::Point(t) => *t,
            Light::Directional(t) => *t,
        }
    }

    /// The light's vector and intensity are in the fixed-point range.
    pub open spec fn wf(&self) -> bool {
        fits3(self.spec_contents().0) && fits(self.spec_contents().1 as int)
    }

    /// The light's position-or-direction and its intensity.
    pub fn contents(&self) -> (r: (V3, i64))
        ensures
            r == self.spec_contents(),
    {
        match self {
            Light::Point(t) => (t.0, t.1),
            Light::Directional(t) => (t.0, t.1),
        }
    }
}

/// Everything a render needs: the shapes, the lights, the ambient level,
/// and the camera/viewframe/recursion configuration.
pub struct Scene {
    pub primitives: Vec<Primitive>,
    pub lights: Vec<Light>,
    pub ambient_light: i64,
    pub canvas_width: i32,
    pub canvas_height: i32,
    pub viewframe_width: i64,
    pub viewframe_height: i64,
    pub viewframe_distance: i64,
    pub camera: V3,
    pub recursion_limit: i32,
}

impl Scene {
    /// Every primitive and light is well-formed and every scalar field is
    /// in the fixed-point range.
    pub open spec fn wf(&self) -> bool {
        &&& forall|i: int|
            0 <= i < self.primitives@.len() ==> (#[trigger] self.primitives@[i]).wf()
        &&& forall|i: int| 0 <= i < self.lights@.len() ==> (#[trigger] self.lights@[i]).wf()
        &&& fits(self.ambient_light as int)
        &&& fits(self.viewframe_width as int)
        &&& fits(self.viewframe_height as int)
        &&& fits(self.viewframe_distance as int)
        &&& fits3(self.camera)
    }
}

/// An empty, zeroed scene for the caller to fill in.
pub fn new_scene() -> (r: Scene)
    ensures
        r.primitives@ =~= Seq::<Primitive>::empty(),
        r.lights@ =~= Seq::<Light>::empty(),
        r.ambient_light == 0,
        r.canvas_width == 0,
        r.canvas_height == 0,
        r.viewframe_width == 0,
        r.viewframe_height == 0,
        r.viewframe_distance == 0,
        r.camera == (V3 { x: 0, y: 0, z: 0 }),
        r.recursion_limit == 0,
        r.wf(),
{
    Scene {
        primitives: Vec::new(),
        lights: Vec::new(),
        ambient_light: 0,
        canvas_width: 0,
        canvas_height: 0,
        viewframe_width: 0,
        viewframe_height: 0,
        viewframe_distance: 0,
        camera: new_vec(0, 0, 0),
        recursion_limit: 0,
    }
}

/// Populate the sample scene: six spheres (four small, one large backdrop,
/// one ground), one point light and one directional light, ambient `0.2`.
pub fn init_scene(scene: &mut Scene)
    ensures
        final(scene).wf(),
        final(scene).primitives@.len() == 6,
        final(scene).lights@.len() == 2,
        final(scene).canvas_width == 38400,
        final(scene).canvas_height == 21600,
        final(scene).recursion_limit == 8,
        final(scene).viewframe_width == 131072,
        final(scene).viewframe_height == 73728,
        final(scene).viewframe_distance == 65536,
        final(scene).camera == (V3 { x: 65536, y: 0, z: 0 }),
        final(scene).ambient_light == 13107,
        final(scene).primitives@[0] == Primitive::Sphere(
            (Sphere {
                center: V3 { x: 0i64, y: -65536i64, z: 196608i64 },
                radius: 65536,
                color: V3 { x: 16711680, y: 0, z: 0 },
                specular: 500,
                reflective: 0,
            }),
        ),
        final(scene).primitives@[1] == Primitive::Sphere(
            (Sphere {
                center: V3 { x: 131072, y: 0, z: 262144 },
                radius: 65536,
                color: V3 { x: 0, y: 0, z: 16711680 },
                specular: 500,
                reflective: 65536,
            }),
        ),
        final(scene).primitives@[2] == Primitive::Sphere(
            (Sphere {
                center: V3 { x: -131072i64, y: 0i64, z: 262144i64 },
                radius: 65536,
                color: V3 { x: 0, y: 16711680, z: 0 },
                specular: 10,
                reflective: 0,
            }),
        ),
        final(scene).lights@[0] == Light::Point((V3 { x: -655360i64, y: 655360i64, z: -655360i64 }, 131072i64)),
        final(scene).lights@[1] == Light::Directional(
            (V3 { x: 65536, y: 262144, z: 262144 }, 13107),
        ),
{
    scene.canvas_width = 38400;
    scene.canvas_height = 21600;
    scene.recursion_limit = 8;
    scene.viewframe_width = 131072;
    scene.viewframe_height = 73728;
    scene.viewframe_distance = 65536;
    scene.camera = new_vec(65536, 0, 0);

    scene.primitives = Vec::new();
    scene.primitives.push(
        new_sphere(new_vec(0, -65536, 196608), 65536, new_vec(16711680, 0, 0), 500, 0),
    );
    scene.primitives.push(
        new_sphere(new_vec(131072, 0, 262144), 65536, new_vec(0, 0, 16711680), 500, 65536),
    );
    scene.primitives.push(
        new_sphere(new_vec(-131072, 0, 262144), 65536, new_vec(0, 16711680, 0), 10, 0),
    );
    scene.primitives.push(
        new_sphere(new_vec(0, 196608, 393216), 131072, new_vec(16711680, 0, 16711680), 500, 65536),
    );
    scene.primitives.push(
        new_sphere(
            new_vec(0, 0, -321126),
            327680,
            new_vec(13107200, 15073280, 16711680),
            1000,
            0,
        ),
    );
    scene.primitives.push(
        new_sphere(
            new_vec(0, -327745536, 0),
            327680000,
            new_vec(16711680, 16711680, 0),
            1000,
            0,
        ),
    );

    scene.ambient_light = 13107;
    scene.lights = Vec::new();
    scene.lights.push(Light::Point((new_vec(-655360, 655360, -655360), 131072)));
    scene.lights.push(Light::Directional((new_vec(65536, 262144, 262144), 13107)));
}

} // verus!
