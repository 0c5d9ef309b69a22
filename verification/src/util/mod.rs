//! Constants and containers shared by the world model and the renderer.

use vstd::prelude::*;

pub mod region_map;

verus! {

/// Side length of a region, in blocks.
pub const REGION_DIM: u8 = 16;

/// Number of blocks in a well-formed region.
pub const REGION_LEN: usize = 256;

} // verus!
