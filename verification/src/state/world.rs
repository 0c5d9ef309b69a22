//! The world: regions of blocks, stamped with the tick of their last change.

use crate::gfx::camera::Camera;
use crate::state::map_builder::{
    debug_rooms, generated_regions, lemma_generated_regions_plain, Rect, DEBUG_gen_regions,
};
use crate::util::region_map::RegionMap;
use crate::util::REGION_LEN;
use vstd::prelude::*;

verus! {

/// Identifies one world among those a client may hold.
#[derive(Clone, Copy, Debug, PartialEq, Eq, Structural)]
pub struct WorldId(pub u32);

/// Identifies a material in the material table.
#[derive(Clone, Copy, Debug, PartialEq, Eq, Structural)]
pub struct MaterialId(pub u32);

/// A step of the simulation. Ticks only ever grow while a world runs.
#[derive(Clone, Copy, Debug, PartialEq, Eq, PartialOrd, Ord, Structural)]
pub struct Tick(pub u64);

impl std::ops::Add<u64> for Tick {
    type Output = Self;

    fn add(self, offset: u64) -> (later: Self) {
        Tick(self.0 + offset)
    }
}

impl vstd::std_specs::ops::AddSpecImpl<u64> for Tick {
    open spec fn obeys_add_spec() -> bool {
        true
    }

    open spec fn add_req(self, offset: u64) -> bool {
        self.0 + offset <= u64::MAX
    }

    open spec fn add_spec(self, offset: u64) -> Self {
        Tick((self.0 + offset) as u64)
    }
}

impl std::ops::Sub<u64> for Tick {
    type Output = Self;

    fn sub(self, offset: u64) -> (earlier: Self) {
        Tick(self.0 - offset)
    }
}

impl vstd::std_specs::ops::SubSpecImpl<u64> for Tick {
    open spec fn obeys_sub_spec() -> bool {
        true
    }

    open spec fn sub_req(self, offset: u64) -> bool {
        offset <= self.0
    }

    open spec fn sub_spec(self, offset: u64) -> Self {
        Tick((self.0 - offset) as u64)
    }
}

/// How a block is filled.
#[derive(Clone, Copy, Debug, PartialEq, Eq, Structural)]
pub enum BlockFill {
    /// This block is filled solid.
    Solid(MaterialId),
    /// This block is filled in only at the bottom.
    Floor(MaterialId),
    /// This block is filled in only at the top.
    Ceiling(MaterialId),
    /// This block is filled at the top and the bottom.
    FloorCeiling(MaterialId, MaterialId),
    /// This block is completely empty.
    Empty,
}

/// One cell of a region.
#[derive(Clone, Copy, Debug, PartialEq, Eq, Structural)]
pub struct Block {
    pub fill: BlockFill,
}

/// A square of blocks in row-major order. A region with any other number of
/// blocks than `REGION_LEN` is malformed; it can be stored, and is never drawn.
#[derive(Clone, Debug)]
pub struct Region {
    pub blocks: Vec<Block>,
}

impl View for Region {
    type V = Seq<Block>;

    open spec fn view(&self) -> Seq<Block> {
        self.blocks@
    }
}

impl Region {
    /// Whether the region has exactly one block per cell.
    pub open spec fn is_well_formed(&self) -> bool {
        self@.len() == REGION_LEN
    }
}

/// What a [`CachedRegion`] holds, as plain values.
pub struct CachedRegionView {
    pub blocks: Seq<Block>,
    pub last_update_tick: Tick,
}

/// A region as the world holds it in memory.
#[derive(Clone, Debug)]
pub struct CachedRegion {
    pub region: Region,
    /// The last tick on which this region was changed in world memory.
    pub last_update_tick: Tick,
}

impl View for CachedRegion {
    type V = CachedRegionView;

    open spec fn view(&self) -> CachedRegionView {
        CachedRegionView { blocks: self.region@, last_update_tick: self.last_update_tick }
    }
}

/// The contents of a store of regions, as plain values.
pub open spec fn region_views(regions: Map<(i32, i32, i32), CachedRegion>) -> Map<
    (i32, i32, i32),
    CachedRegionView,
> {
    regions.map_values(|r: CachedRegion| r@)
}

/// The world: the regions that are resident in memory, and the current tick.
#[derive(Clone, Debug)]
pub struct World {
    pub id: WorldId,
    /// Regions currently loaded into memory.
    pub regions: RegionMap<CachedRegion>,
    /// The current tick of the simulated world.
    pub current_tick: Tick,
}

impl World {
    /// The region resident at `offset`, if any, as plain values.
    pub open spec fn lookup(&self, offset: (i32, i32, i32)) -> Option<CachedRegionView> {
        if self.regions@.contains_key(offset) {
            Some(self.regions@[offset]@)
        } else {
            None
        }
    }

    /// A world is consistent when its clock has started and no resident
    /// region is stamped later than the current tick.
    pub open spec fn is_consistent(&self) -> bool {
        &&& self.current_tick.0 >= 1
        &&& forall|c: (i32, i32, i32)| #[trigger]
            self.regions@.contains_key(c) ==> self.regions@[c].last_update_tick.0
                <= self.current_tick.0
    }

    /// A world holding a freshly generated debug map that fills a window of
    /// 128 by 36 tiles, with its clock at tick 1.
    pub fn new() -> (world: Self)
        ensures
            world.id == WorldId(0),
            world.current_tick == Tick(1),
            exists|rooms: Seq<Rect>|
                debug_rooms(rooms, 128, 36) && region_views(world.regions@)
                    == #[trigger] generated_regions(rooms, 128, 36),
            world.is_consistent(),
    {
        let camera = Camera { world_offset: (0, 0, 0), region_offset: (0, 0), tiles_dims: (128, 36) };
        let world = Self { id: WorldId(0), regions: DEBUG_gen_regions(&camera), current_tick: Tick(1) };
        proof {
            let rooms = choose|rooms: Seq<Rect>|
                debug_rooms(rooms, 128, 36) && region_views(world.regions@)
                    == #[trigger] generated_regions(rooms, 128, 36);
            assert forall|c: (i32, i32, i32)| #[trigger]
                world.regions@.contains_key(c) implies world.regions@[c].last_update_tick.0
                <= 1 by {
                assert(region_views(world.regions@).contains_key(c));
                assert(region_views(world.regions@)[c] == world.regions@[c]@);
                lemma_generated_regions_plain(rooms, 128, 36, c, 0);
            }
        }
        world
    }

    /// Looks a region up in memory, without loading it.
    pub fn get_cached_region(&self, offset: (i32, i32, i32)) -> (found: Option<&CachedRegion>)
        ensures
            match found {
                Some(r) => self.lookup(offset) == Some(r@),
                None => self.lookup(offset).is_none(),
            },
            found.is_some() ==> self.regions@.contains_key(offset) && *found.unwrap()
                == self.regions@[offset],
    {
        self.regions.get(offset)
    }
}

} // verus!
