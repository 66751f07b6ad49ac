//! Procedural voxel terrain: a fractal height field, shaped by a remapping
//! curve and a radial falloff, turned into a mesh of stacked cubes, together
//! with the per-frame folding of live configuration updates.
//!
//! Every length, height and coordinate is carried in fixed point, as an
//! integer count of thousandths of a unit.
use vstd::prelude::*;

pub mod camera_configuration;
pub mod color;
pub mod configuration;
pub mod fixed;
pub mod height_grid;
pub mod relief;
pub mod routes;
pub mod terrain_configuration;
pub mod visualization;
pub mod voxel_mesh;

verus! {

} // verus!
