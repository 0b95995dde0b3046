//! A bounded isometric voxel world: deterministic terrain generation from a
//! seed and pre-quantized noise fields, plus incremental visibility
//! determination for a scrolling isometric viewpoint.
//!
//! All geometry is integral. Column heights arrive in 1/256ths of a voxel,
//! viewpoint offsets in tenths of a world unit, and screen coordinates are
//! produced in tenths of a pixel, so that every computation of the core is
//! exact. The surrounding program samples its noise generator, quantizes the
//! samples into these units, and hands them in.

use vstd::prelude::*;

pub mod grid;
pub mod rng;
pub mod template;
pub mod terrain;
pub mod visibility;
pub mod world;
pub mod voxel;

verus! {

/// World extent along the north/south axis, in voxels.
pub const WORLD_SIZE_X: usize = 128;

/// World extent along the vertical axis, in voxels.
pub const WORLD_SIZE_Y: usize = 64;

/// World extent along the east/west axis, in voxels.
pub const WORLD_SIZE_Z: usize = 128;

/// On-screen footprint of one voxel tile, in pixels.
pub const BLOCK_FULL_SIZE: usize = 84;

} // verus!
