//! The camera converts region coordinates to positions on screen.

use crate::util::REGION_DIM;
use vstd::prelude::*;

verus! {

/// The visible window onto the region grid.
pub struct Camera {
    /// Region shown in the top-left corner of the screen.
    pub world_offset: (i32, i32, i32),
    /// Offset inside that region, in tiles, for smooth scrolling.
    pub region_offset: (u8, u8),
    /// Size of the visible window, in tiles.
    pub tiles_dims: (u32, u32),
}

impl Camera {
    /// Screen position of region `coord`, in tiles: the distance from the
    /// camera's region along each axis, scaled by the region size, plus the
    /// scroll offset. The depth coordinate is not projected.
    pub open spec fn screen_position(&self, coord: (i32, i32, i32)) -> (int, int) {
        (
            (coord.0 - self.world_offset.0) * REGION_DIM + self.region_offset.0,
            (coord.1 - self.world_offset.1) * REGION_DIM + self.region_offset.1,
        )
    }

    /// Whether the screen position of `coord` can be held in a pair of `i32`.
    pub open spec fn on_screen_grid(&self, coord: (i32, i32, i32)) -> bool {
        let p = self.screen_position(coord);
        i32::MIN <= p.0 <= i32::MAX && i32::MIN <= p.1 <= i32::MAX
    }

    /// Computes the screen position of a region.
    pub fn get_screen_coords(&self, coord: (i32, i32, i32)) -> (pos: (i32, i32))
        requires
            self.on_screen_grid(coord),
        ensures
            (pos.0 as int, pos.1 as int) == self.screen_position(coord),
    {
        let (x, y, _) = coord;
        let x_offset: i64 = (x as i64 - self.world_offset.0 as i64) * (REGION_DIM as i64)
            + self.region_offset.0 as i64;
        let y_offset: i64 = (y as i64 - self.world_offset.1 as i64) * (REGION_DIM as i64)
            + self.region_offset.1 as i64;
        (x_offset as i32, y_offset as i32)
    }
}

} // verus!
