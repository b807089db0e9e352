//! Voxel chunk meshing library.
//!
//! Converts fixed-size 3D grids of typed blocks ("chunks") into triangle mesh
//! buffers: per-block, per-face culling decisions, quad emission with
//! per-vertex ambient occlusion, and a per-chunk scheduling state machine
//! that dispatches meshing work and applies completed results under a
//! per-poll budget.
//!
//! All coordinates in emitted geometry are fixed-point integers measured in
//! sub-block units (see [`UNITS_PER_BLOCK`]); a host renderer divides by the
//! unit to recover block-local positions.

pub mod block;
pub mod chunk;
pub mod direction;
pub mod level;
pub mod lsystem;
pub mod mesh_data;
pub mod mesher;
pub mod scheduler;

use vstd::prelude::*;

verus! {

/// Number of fixed-point sub-block units per block edge. A vertex coordinate
/// of `UNITS_PER_BLOCK` lies exactly one block length from the origin; a
/// bottom-slab height is a fraction of this unit.
pub const UNITS_PER_BLOCK: u32 = 256;

} // verus!
