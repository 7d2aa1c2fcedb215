//! Integer-level logic of a Monte Carlo path tracer for scenes of spheres.
//!
//! The geometry and colour arithmetic of the renderer work on floating-point
//! numbers; this crate holds the decisions that surround that arithmetic:
//! which root of the ray/sphere quadratic is the hit, which sphere is the
//! nearest one along a ray, when a light path escapes or is absorbed, and how
//! the pixels of the image are laid out for independent workers.
pub mod intersect;
pub mod raster;
pub mod tracer;

pub use intersect::{choose_root, Root};
pub use raster::{pixel_at, pixel_index};
pub use tracer::{nearest, Action, Path};
