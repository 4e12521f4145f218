//! A recursive Whitted-style ray tracer over fixed-point arithmetic: sphere
//! intersection, nearest-hit selection, local Phong-like shading with shadow
//! tests, depth-bounded reflection, and a supersampling pixel driver with an
//! adaptive-refinement test. Every function carries a contract relating it
//! to the spec-level model, and the selection, shadowing and recursion laws
//! are proved alongside.
pub mod fx;
pub mod primitives;
pub mod ray;
pub mod sampling;
pub mod scene;
pub mod util;
pub mod vec3;
