//! The region render cache and the frame renderer.
//!
//! For each region in view the renderer keeps the visual form it last built,
//! stamped with the world tick it was built at. A read of a region compares
//! that stamp with the tick of the region's last change in the world and
//! reuses, rebuilds or, where the region is not in memory, stores an empty
//! placeholder that the next read will not trust.

use crate::gfx::camera::Camera;
use crate::gfx::draw::{region_section, section_of, DrawSection, DrawSectionView};
use crate::gfx::glyph_gfx::{Color, GfxGlyph, GfxGlyphView, GfxRegion, GfxTile, GfxTileView};
use crate::state::world;
use crate::state::world::{Block, BlockFill, Region, Tick, World, WorldId};
use crate::util::region_map::RegionMap;
use crate::util::{REGION_DIM, REGION_LEN};
use std::collections::HashSet;
use vstd::prelude::*;

verus! {

broadcast use vstd::std_specs::hash::group_hash_axioms;

/// A toggle that changes how blocks are drawn.
#[derive(Copy, Clone, Debug, Hash, PartialEq, Eq, Structural)]
pub enum RenderModifier {
    GravityInverse,
}

impl RenderModifier {
    /// The number that stands for the modifier in a set.
    pub open spec fn code(self) -> u8 {
        match self {
            RenderModifier::GravityInverse => 0,
        }
    }

    fn to_code(self) -> (code: u8)
        ensures
            code == self.code(),
    {
        match self {
            RenderModifier::GravityInverse => 0,
        }
    }
}

/// The set of render modifiers that are switched on.
#[derive(Debug)]
pub struct RenderModifierSet {
    codes: HashSet<u8>,
}

impl View for RenderModifierSet {
    type V = Set<RenderModifier>;

    closed spec fn view(&self) -> Set<RenderModifier> {
        Set::new(|m: RenderModifier| self.codes@.contains(m.code()))
    }
}

impl RenderModifierSet {
    /// The set with every modifier switched off.
    pub fn new() -> (set: Self)
        ensures
            set@ == Set::<RenderModifier>::empty(),
    {
        let set = RenderModifierSet { codes: HashSet::new() };
        assert(set@ =~= Set::<RenderModifier>::empty());
        set
    }

    /// Whether `modifier` is switched on.
    pub fn contains(&self, modifier: RenderModifier) -> (on: bool)
        ensures
            on == self@.contains(modifier),
    {
        let code = modifier.to_code();
        self.codes.contains(&code)
    }

    /// Switches `modifier` on, and says whether it was off.
    pub fn insert(&mut self, modifier: RenderModifier) -> (fresh: bool)
        ensures
            final(self)@ == old(self)@.insert(modifier),
            fresh == !old(self)@.contains(modifier),
    {
        let fresh = self.codes.insert(modifier.to_code());
        assert(self@ =~= old(self)@.insert(modifier));
        fresh
    }

    /// Switches `modifier` off, and says whether it was on.
    pub fn remove(&mut self, modifier: RenderModifier) -> (present: bool)
        ensures
            final(self)@ == old(self)@.remove(modifier),
            present == old(self)@.contains(modifier),
    {
        let code = modifier.to_code();
        let present = self.codes.remove(&code);
        assert(self@ =~= old(self)@.remove(modifier));
        present
    }
}

/// Whether the visual mapping covers `fill`.
pub open spec fn is_mapped(fill: BlockFill) -> bool {
    fill is Solid || fill is Floor
}

/// Whether the visual mapping covers every block of `blocks`.
pub open spec fn all_mapped(blocks: Seq<Block>) -> bool {
    forall|i: int| 0 <= i < blocks.len() ==> is_mapped(#[trigger] blocks[i].fill)
}

/// How a block of fill `fill` is drawn under `modifiers`: solid rock as a red
/// `#` on green, floor as a blue `.` on black. No modifier changes the
/// mapping yet. Nothing is said of a fill that the mapping does not cover.
pub open spec fn tile_view(fill: BlockFill, modifiers: Set<RenderModifier>) -> GfxTileView {
    match fill {
        BlockFill::Solid(_) => GfxTileView {
            glyph: GfxGlyphView { glyph: "#"@, render_offset: (0, 0) },
            fg: Color { r: 255, g: 0, b: 0, a: 255 },
            bg: Color { r: 0, g: 255, b: 0, a: 255 },
        },
        BlockFill::Floor(_) => GfxTileView {
            glyph: GfxGlyphView { glyph: "."@, render_offset: (0, 0) },
            fg: Color { r: 0, g: 0, b: 255, a: 255 },
            bg: Color { r: 0, g: 0, b: 0, a: 255 },
        },
        _ => arbitrary(),
    }
}

/// The visual form of a region: the tile of each block, in the blocks' order.
pub open spec fn visual_of(blocks: Seq<Block>, modifiers: Set<RenderModifier>) -> Seq<GfxTileView> {
    blocks.map_values(|b: Block| tile_view(b.fill, modifiers))
}

/// Whether every block of `region` has a visual form.
pub fn has_visual(region: &Region) -> (mapped: bool)
    ensures
        mapped == all_mapped(region@),
{
    let mut i: usize = 0;
    while i < region.blocks.len()
        invariant
            i <= region.blocks.len(),
            forall|j: int| 0 <= j < i ==> is_mapped(#[trigger] region@[j].fill),
        decreases region.blocks.len() - i,
    {
        match region.blocks[i].fill {
            BlockFill::Solid(_) => {},
            BlockFill::Floor(_) => {},
            _ => {
                assert(!is_mapped(region@[i as int].fill));
                return false;
            },
        }
        i += 1;
    }
    true
}

/// Builds the visual form of a region. The region may have any number of
/// blocks; each must have a fill that the visual mapping covers.
pub fn gen_gfx_region(region: &Region, render_modifiers: &RenderModifierSet) -> (gfx: GfxRegion)
    requires
        all_mapped(region@),
    ensures
        gfx@ == visual_of(region@, render_modifiers@),
{
    let mut tiles: Vec<GfxTile> = Vec::with_capacity(REGION_LEN);
    let mut i: usize = 0;
    while i < region.blocks.len()
        invariant
            all_mapped(region@),
            i <= region.blocks.len(),
            tiles@.len() == i,
            forall|j: int|
                0 <= j < i ==> (#[trigger] tiles@[j])@ == tile_view(
                    region@[j].fill,
                    render_modifiers@,
                ),
        decreases region.blocks.len() - i,
    {
        assert(is_mapped(region@[i as int].fill));
        match region.blocks[i].fill {
            BlockFill::Solid(_m_id) => tiles.push(
                GfxTile {
                    glyph: GfxGlyph::new("#"),
                    fg: Color { r: 255, g: 0, b: 0, a: 255 },
                    bg: Color { r: 0, g: 255, b: 0, a: 255 },
                },
            ),
            BlockFill::Floor(_m_id) => tiles.push(
                GfxTile {
                    glyph: GfxGlyph::new("."),
                    fg: Color { r: 0, g: 0, b: 255, a: 255 },
                    bg: Color { r: 0, g: 0, b: 0, a: 255 },
                },
            ),
            _ => unreached(),
        }
        i += 1;
    }
    let gfx = GfxRegion { tiles };
    assert(gfx@ =~= visual_of(region@, render_modifiers@));
    gfx
}

/// What a read of the cache does with a region.
#[derive(Clone, Copy, Debug, PartialEq, Eq, Structural)]
pub enum CacheAction {
    /// The cached visual form is at least as new as the data: hand it out.
    Reuse,
    /// There is data and no visual form as new as it: build one.
    Rebuild,
    /// There is no data: store an empty form that the next read will not
    /// trust.
    Placeholder,
}

/// The rule of the cache. `cached` is the tick of the visual form in the
/// cache, if there is one; `data` is the tick of the region's last change in
/// the world, if the region is in memory.
pub open spec fn cache_action_spec(cached: Option<Tick>, data: Option<Tick>) -> CacheAction {
    match data {
        None => CacheAction::Placeholder,
        Some(changed) => match cached {
            Some(built) => if changed.0 > built.0 {
                CacheAction::Rebuild
            } else {
                CacheAction::Reuse
            },
            None => CacheAction::Rebuild,
        },
    }
}

/// Decides what a read of the cache does.
#[verifier::when_used_as_spec(cache_action_spec)]
pub fn cache_action(cached: Option<Tick>, data: Option<Tick>) -> (action: CacheAction)
    ensures
        action == cache_action_spec(cached, data),
{
    match data {
        None => CacheAction::Placeholder,
        Some(changed) => match cached {
            Some(built) => if changed.0 > built.0 {
                CacheAction::Rebuild
            } else {
                CacheAction::Reuse
            },
            None => CacheAction::Rebuild,
        },
    }
}

/// What a [`CachedRegion`] holds, as plain values.
pub struct CachedRegionView {
    pub tick: Tick,
    pub region: Seq<GfxTileView>,
}

/// A visual form in the cache, with the tick it was built at.
#[derive(Clone, Debug)]
pub struct CachedRegion {
    pub tick: Tick,
    pub region: GfxRegion,
}

impl View for CachedRegion {
    type V = CachedRegionView;

    open spec fn view(&self) -> CachedRegionView {
        CachedRegionView { tick: self.tick, region: self.region@ }
    }
}

/// The tick of a cache entry, if there is one.
pub open spec fn built_at(entry: Option<CachedRegionView>) -> Option<Tick> {
    match entry {
        Some(e) => Some(e.tick),
        None => None,
    }
}

/// The tick of a region's last change, if the region is in memory.
pub open spec fn changed_at(data: Option<world::CachedRegionView>) -> Option<Tick> {
    match data {
        Some(d) => Some(d.last_update_tick),
        None => None,
    }
}

/// The cache entry of a region after a read, given the entry `prior` before
/// it, the region's `data` in the world, the world's current tick `now` and
/// the modifiers that are on. A rebuilt entry is stamped with `now`, not with
/// the tick of the data; a placeholder is stamped one tick before `now`.
pub open spec fn refreshed(
    prior: Option<CachedRegionView>,
    data: Option<world::CachedRegionView>,
    now: Tick,
    modifiers: Set<RenderModifier>,
) -> CachedRegionView {
    match cache_action(built_at(prior), changed_at(data)) {
        CacheAction::Reuse => prior.unwrap(),
        CacheAction::Rebuild => CachedRegionView {
            tick: now,
            region: visual_of(data.unwrap().blocks, modifiers),
        },
        CacheAction::Placeholder => CachedRegionView {
            tick: Tick((now.0 - 1) as u64),
            region: Seq::empty(),
        },
    }
}

/// Whether a read can be served: a region that has to be rebuilt must have
/// a visual form for each block, and a placeholder needs a tick before the
/// current one to be stamped with.
pub open spec fn can_refresh(
    prior: Option<CachedRegionView>,
    data: Option<world::CachedRegionView>,
    now: Tick,
) -> bool {
    match cache_action(built_at(prior), changed_at(data)) {
        CacheAction::Reuse => true,
        CacheAction::Rebuild => all_mapped(data.unwrap().blocks),
        CacheAction::Placeholder => now.0 >= 1,
    }
}

/// Number of regions drawn beyond each edge of the window, so that a region
/// is built before it scrolls into view.
pub const OFF_SCREEN_RENDER_HEURISTIC: i32 = 2;

/// Number of regions along an axis of the window that is `tiles` long: one
/// more than fit whole, and the margin on both sides.
pub open spec fn window_span(tiles: u32) -> int {
    tiles / (REGION_DIM as u32) + 1 + 2 * OFF_SCREEN_RENDER_HEURISTIC
}

/// Column of the region grid at which the camera's window starts.
pub open spec fn window_left(camera: Camera) -> int {
    camera.world_offset.0 - OFF_SCREEN_RENDER_HEURISTIC
}

/// Row of the region grid at which the camera's window starts.
pub open spec fn window_top(camera: Camera) -> int {
    camera.world_offset.1 - OFF_SCREEN_RENDER_HEURISTIC
}

/// Whether region `c` is in the camera's window: at the camera's depth, and
/// inside the rectangle of regions on screen widened by the margin.
pub open spec fn in_window(camera: Camera, c: (i32, i32, i32)) -> bool {
    &&& c.2 == camera.world_offset.2
    &&& window_left(camera) <= c.0 < window_left(camera) + window_span(camera.tiles_dims.0)
    &&& window_top(camera) <= c.1 < window_top(camera) + window_span(camera.tiles_dims.1)
}

/// Whether the window and the screen positions of its regions can be counted
/// in `i32`: its first and last column and row, and the position of its last
/// column and row on screen.
pub open spec fn window_in_range(camera: Camera) -> bool {
    &&& i32::MIN <= window_left(camera)
    &&& window_left(camera) + window_span(camera.tiles_dims.0) <= i32::MAX
    &&& i32::MIN <= window_top(camera)
    &&& window_top(camera) + window_span(camera.tiles_dims.1) <= i32::MAX
    &&& (window_span(camera.tiles_dims.0) - 1 - OFF_SCREEN_RENDER_HEURISTIC) * REGION_DIM
        + camera.region_offset.0 <= i32::MAX
    &&& (window_span(camera.tiles_dims.1) - 1 - OFF_SCREEN_RENDER_HEURISTIC) * REGION_DIM
        + camera.region_offset.1 <= i32::MAX
}

/// In a window that is in range, every region has a place on screen.
pub proof fn lemma_window_on_screen_grid(camera: Camera, c: (i32, i32, i32))
    requires
        window_in_range(camera),
        in_window(camera, c),
    ensures
        camera.on_screen_grid(c),
{
}

/// Draws one world: holds the camera, the render modifiers that are on and
/// the cache of visual forms.
pub struct WorldRenderer {
    world_id: WorldId,
    render_modifiers: RenderModifierSet,
    render_cache: RegionMap<CachedRegion>,
    camera: Camera,
}

impl WorldRenderer {
    /// The world that the renderer was made for.
    pub closed spec fn world_id(&self) -> WorldId {
        self.world_id
    }

    /// The render modifiers that are on.
    pub closed spec fn modifiers(&self) -> Set<RenderModifier> {
        self.render_modifiers@
    }

    /// The cache: the visual form held for each region that has one.
    pub closed spec fn cache(&self) -> Map<(i32, i32, i32), CachedRegionView> {
        self.render_cache@.map_values(|e: CachedRegion| e@)
    }

    /// The camera.
    pub closed spec fn camera(&self) -> Camera {
        self.camera
    }

    /// The cache entry of `offset`, if there is one.
    pub open spec fn cached(&self, offset: (i32, i32, i32)) -> Option<CachedRegionView> {
        if self.cache().contains_key(offset) {
            Some(self.cache()[offset])
        } else {
            None
        }
    }

    /// The cache entry of `offset` after a read of it against `world`.
    pub open spec fn next_entry(&self, world: &World, offset: (i32, i32, i32)) -> CachedRegionView {
        refreshed(self.cached(offset), world.lookup(offset), world.current_tick, self.modifiers())
    }

    /// Whether a read of `offset` against `world` can be served.
    pub open spec fn can_read(&self, world: &World, offset: (i32, i32, i32)) -> bool {
        can_refresh(self.cached(offset), world.lookup(offset), world.current_tick)
    }

    /// A renderer for the world `world_id`, with an empty cache, no modifier
    /// on and the camera at the origin over a window of 128 by 36 tiles.
    pub fn new(world_id: WorldId) -> (renderer: Self)
        ensures
            renderer.world_id() == world_id,
            renderer.modifiers() == Set::<RenderModifier>::empty(),
            renderer.cache() == Map::<(i32, i32, i32), CachedRegionView>::empty(),
            renderer.camera() == (Camera {
                world_offset: (0, 0, 0),
                region_offset: (0, 0),
                tiles_dims: (128, 36),
            }),
    {
        let camera = Camera { world_offset: (0, 0, 0), region_offset: (0, 0), tiles_dims: (128, 36) };
        let renderer = Self {
            world_id,
            render_modifiers: RenderModifierSet::new(),
            render_cache: RegionMap::new(),
            camera,
        };
        assert(renderer.cache() =~= Map::<(i32, i32, i32), CachedRegionView>::empty());
        renderer
    }

    /// Reads the visual form of the region at `offset`: the cached one where
    /// it is at least as new as the region's data, a newly built one where it
    /// is not or where there is none, and an empty placeholder where the
    /// region is not in memory. Only the cache entry of `offset` changes.
    pub fn get_cached_region(&mut self, world: &World, offset: (i32, i32, i32)) -> (entry:
        &CachedRegion)
        requires
            old(self).can_read(world, offset),
        ensures
            entry@ == old(self).next_entry(world, offset),
            final(self).cache() == old(self).cache().insert(
                offset,
                old(self).next_entry(world, offset),
            ),
            final(self).modifiers() == old(self).modifiers(),
            final(self).camera() == old(self).camera(),
            final(self).world_id() == old(self).world_id(),
    {
        let data = world.get_cached_region(offset);
        let built = match self.render_cache.get(offset) {
            Some(e) => Some(e.tick),
            None => None,
        };
        let changed = match data {
            Some(d) => Some(d.last_update_tick),
            None => None,
        };
        match cache_action(built, changed) {
            CacheAction::Reuse => {},
            CacheAction::Rebuild => {
                let region = gen_gfx_region(&data.unwrap().region, &self.render_modifiers);
                self.render_cache.insert(offset, CachedRegion { tick: world.current_tick, region });
            },
            CacheAction::Placeholder => {
                self.render_cache.insert(
                    offset,
                    CachedRegion {
                        // One tick behind, so that the next read tries again.
                        tick: world.current_tick - 1,
                        region: GfxRegion::empty(),
                    },
                );
            },
        }
        assert(self.cache() =~= old(self).cache().insert(
            offset,
            old(self).next_entry(world, offset),
        ));
        self.render_cache.get(offset).unwrap()
    }

    /// Switches a render modifier on. The cache is cleared: its entries do
    /// not record the modifiers they were built under.
    pub fn add_render_modifier(&mut self, render_modifier: RenderModifier)
        ensures
            final(self).cache() == Map::<(i32, i32, i32), CachedRegionView>::empty(),
            final(self).modifiers() == old(self).modifiers().insert(render_modifier),
            final(self).camera() == old(self).camera(),
            final(self).world_id() == old(self).world_id(),
    {
        self.render_cache.clear();
        self.render_modifiers.insert(render_modifier);
        assert(self.cache() =~= Map::<(i32, i32, i32), CachedRegionView>::empty());
    }

    /// Switches a render modifier off. The cache is cleared, as when one is
    /// switched on.
    pub fn remove_render_modifier(&mut self, render_modifier: RenderModifier)
        ensures
            final(self).cache() == Map::<(i32, i32, i32), CachedRegionView>::empty(),
            final(self).modifiers() == old(self).modifiers().remove(render_modifier),
            final(self).camera() == old(self).camera(),
            final(self).world_id() == old(self).world_id(),
    {
        self.render_cache.clear();
        self.render_modifiers.remove(render_modifier);
        assert(self.cache() =~= Map::<(i32, i32, i32), CachedRegionView>::empty());
    }

    /// The draw request that a read of `offset` against `world` gives rise
    /// to, if any: the section of the region's visual form after the read, at
    /// the region's place on screen.
    pub open spec fn drawn(&self, world: &World, offset: (i32, i32, i32)) -> Option<
        DrawSectionView,
    > {
        section_of(self.camera().screen_position(offset), self.next_entry(world, offset).region)
    }

    /// The draw requests of the first `k` regions of row `y` of the window,
    /// from left to right.
    pub open spec fn row_sections(&self, world: &World, y: int, k: int) -> Seq<DrawSectionView>
        decreases k,
    {
        if k <= 0 {
            Seq::empty()
        } else {
            let rest = self.row_sections(world, y, k - 1);
            let c = (
                (window_left(self.camera()) + k - 1) as i32,
                y as i32,
                self.camera().world_offset.2,
            );
            match self.drawn(world, c) {
                Some(section) => rest.push(section),
                None => rest,
            }
        }
    }

    /// The draw requests of the first `j` rows of the window, from top to
    /// bottom.
    pub open spec fn frame_sections(&self, world: &World, j: int) -> Seq<DrawSectionView>
        decreases j,
    {
        if j <= 0 {
            Seq::empty()
        } else {
            self.frame_sections(world, j - 1) + self.row_sections(
                world,
                window_top(self.camera()) + j - 1,
                window_span(self.camera().tiles_dims.0),
            )
        }
    }

    /// The cache after a frame: every region of the window has been read
    /// once, and no other entry has changed.
    pub open spec fn rendered_cache(&self, world: &World) -> Map<(i32, i32, i32), CachedRegionView> {
        Map::new(
            |c: (i32, i32, i32)| self.cache().contains_key(c) || in_window(self.camera(), c),
            |c: (i32, i32, i32)|
                if in_window(self.camera(), c) {
                    self.next_entry(world, c)
                } else {
                    self.cache()[c]
                },
        )
    }

    /// Whether a frame of `world` can be rendered: the renderer was made for
    /// this world, the window is in range, and every region of the window can
    /// be read.
    pub open spec fn can_render(&self, world: &World) -> bool {
        &&& self.world_id() == world.id
        &&& window_in_range(self.camera())
        &&& forall|c: (i32, i32, i32)| #[trigger]
            in_window(self.camera(), c) ==> self.can_read(world, c)
    }

    /// Reads the region at `offset` and makes its draw request. A region
    /// whose visual form is not a full region, such as one that is not in
    /// memory, is read and not drawn.
    pub fn render_offset(&mut self, world: &World, offset: (i32, i32, i32)) -> (section: Option<
        DrawSection,
    >)
        requires
            old(self).can_read(world, offset),
            old(self).camera().on_screen_grid(offset),
        ensures
            match section {
                Some(s) => old(self).drawn(world, offset) == Some(s@),
                None => old(self).drawn(world, offset).is_none(),
            },
            final(self).cache() == old(self).cache().insert(
                offset,
                old(self).next_entry(world, offset),
            ),
            final(self).modifiers() == old(self).modifiers(),
            final(self).camera() == old(self).camera(),
            final(self).world_id() == old(self).world_id(),
    {
        let (tile_x, tile_y) = self.camera.get_screen_coords(offset);
        let region = &self.get_cached_region(world, offset).region;
        region_section(tile_x, tile_y, region)
    }

    /// Renders one frame: reads every region of the camera's window, row by
    /// row and from left to right, and returns the draw requests of those that
    /// have something to draw, in that order.
    pub fn render(&mut self, world: &World) -> (sections: Vec<DrawSection>)
        requires
            old(self).can_render(world),
        ensures
            sections@.map_values(|s: DrawSection| s@) == old(self).frame_sections(
                world,
                window_span(old(self).camera().tiles_dims.1),
            ),
            final(self).cache() == old(self).rendered_cache(world),
            final(self).modifiers() == old(self).modifiers(),
            final(self).camera() == old(self).camera(),
            final(self).world_id() == old(self).world_id(),
    {
        let (base_region_x, base_region_y, z) = self.camera.world_offset;
        let (render_size_x, render_size_y) = self.camera.tiles_dims;

        let regions_wide = ((render_size_x / REGION_DIM as u32) + 1) as i32;
        let regions_tall = ((render_size_y / REGION_DIM as u32) + 1) as i32;

        let base_y = base_region_y - OFF_SCREEN_RENDER_HEURISTIC;
        let final_y = base_region_y + regions_tall + OFF_SCREEN_RENDER_HEURISTIC;

        let base_x = base_region_x - OFF_SCREEN_RENDER_HEURISTIC;
        let final_x = base_region_x + regions_wide + OFF_SCREEN_RENDER_HEURISTIC;

        let ghost camera = self.camera();
        let mut sections: Vec<DrawSection> = Vec::new();
        assert(sections@.map_values(|s: DrawSection| s@) =~= old(self).frame_sections(world, 0));
        for y in base_y..final_y
            invariant
                old(self).can_render(world),
                camera == old(self).camera(),
                z == camera.world_offset.2,
                base_x == window_left(camera),
                final_x == base_x + window_span(camera.tiles_dims.0),
                base_y == window_top(camera),
                final_y == base_y + window_span(camera.tiles_dims.1),
                self.modifiers() == old(self).modifiers(),
                self.camera() == old(self).camera(),
                self.world_id() == old(self).world_id(),
                forall|c: (i32, i32, i32)|
                    #![trigger self.cached(c)]
                    self.cached(c) == if in_window(camera, c) && c.1 < y {
                        Some(old(self).next_entry(world, c))
                    } else {
                        old(self).cached(c)
                    },
                sections@.map_values(|s: DrawSection| s@) == old(self).frame_sections(
                    world,
                    y - base_y,
                ),
        {
            let ghost above = sections@.map_values(|s: DrawSection| s@);
            assert(sections@.map_values(|s: DrawSection| s@) =~= above + old(self).row_sections(
                world,
                y as int,
                0,
            ));
            for x in base_x..final_x
                invariant
                    old(self).can_render(world),
                    camera == old(self).camera(),
                    z == camera.world_offset.2,
                    base_x == window_left(camera),
                    final_x == base_x + window_span(camera.tiles_dims.0),
                    base_y == window_top(camera),
                    final_y == base_y + window_span(camera.tiles_dims.1),
                    base_y <= y < final_y,
                    self.modifiers() == old(self).modifiers(),
                    self.camera() == old(self).camera(),
                    self.world_id() == old(self).world_id(),
                    forall|c: (i32, i32, i32)|
                        #![trigger self.cached(c)]
                        self.cached(c) == if in_window(camera, c) && (c.1 < y || (c.1 == y && c.0
                            < x)) {
                            Some(old(self).next_entry(world, c))
                        } else {
                            old(self).cached(c)
                        },
                    above == old(self).frame_sections(world, y - base_y),
                    sections@.map_values(|s: DrawSection| s@) == above + old(self).row_sections(
                        world,
                        y as int,
                        x - base_x,
                    ),
            {
                let ghost before = *self;
                let ghost drawn_before = sections@.map_values(|s: DrawSection| s@);
                proof {
                    assert(in_window(camera, (x, y, z)));
                    lemma_window_on_screen_grid(camera, (x, y, z));
                    assert(self.cached((x, y, z)) == old(self).cached((x, y, z)));
                }
                let section = self.render_offset(world, (x, y, z));
                let ghost outcome = old(self).drawn(world, (x, y, z));
                proof {
                    assert(before.next_entry(world, (x, y, z)) == old(self).next_entry(
                        world,
                        (x, y, z),
                    ));
                    assert(before.drawn(world, (x, y, z)) == outcome);
                }
                match section {
                    Some(section) => {
                        assert(outcome == Some(section@));
                        sections.push(section);
                        assert(sections@.map_values(|s: DrawSection| s@) =~= drawn_before.push(
                            outcome.unwrap(),
                        ));
                    },
                    None => {
                        assert(outcome.is_none());
                    },
                }
                proof {
                    assert forall|c: (i32, i32, i32)|
                        #![trigger self.cached(c)]
                        self.cached(c) == if in_window(camera, c) && (c.1 < y || (c.1 == y && c.0
                            < x + 1)) {
                            Some(old(self).next_entry(world, c))
                        } else {
                            old(self).cached(c)
                        } by {
                        assert(before.cached(c) == if in_window(camera, c) && (c.1 < y || (c.1 == y
                            && c.0 < x)) {
                            Some(old(self).next_entry(world, c))
                        } else {
                            old(self).cached(c)
                        });
                    }
                    let row = old(self).row_sections(world, y as int, x + 1 - base_x);
                    let row_before = old(self).row_sections(world, y as int, x - base_x);
                    assert(((window_left(camera) + (x + 1 - base_x) - 1) as i32, y as int as i32, z)
                        == (x, y, z));
                    assert(row == match outcome {
                        Some(v) => row_before.push(v),
                        None => row_before,
                    });
                    assert(sections@.map_values(|s: DrawSection| s@) =~= above + row);
                }
            }
            assert(sections@.map_values(|s: DrawSection| s@) =~= old(self).frame_sections(
                world,
                y + 1 - base_y,
            ));
        }
        assert(self.cache() =~= old(self).rendered_cache(world)) by {
            assert forall|c: (i32, i32, i32)|
                self.cache().contains_key(c) == old(self).rendered_cache(world).contains_key(
                    c,
                ) by {
                assert(self.cached(c) == if in_window(camera, c) && c.1 < final_y {
                    Some(old(self).next_entry(world, c))
                } else {
                    old(self).cached(c)
                });
            }
            assert forall|c: (i32, i32, i32)| self.cache().contains_key(c) implies self.cache()[c]
                == old(self).rendered_cache(world)[c] by {
                assert(self.cached(c) == if in_window(camera, c) && c.1 < final_y {
                    Some(old(self).next_entry(world, c))
                } else {
                    old(self).cached(c)
                });
            }
        }
        sections
    }

    /// Tests whether a read of `offset` against `world` can be served.
    pub fn is_readable(&self, world: &World, offset: (i32, i32, i32)) -> (ok: bool)
        ensures
            ok == self.can_read(world, offset),
    {
        let data = world.get_cached_region(offset);
        let built = match self.render_cache.get(offset) {
            Some(e) => Some(e.tick),
            None => None,
        };
        let changed = match data {
            Some(d) => Some(d.last_update_tick),
            None => None,
        };
        match cache_action(built, changed) {
            CacheAction::Reuse => true,
            CacheAction::Rebuild => has_visual(&data.unwrap().region),
            CacheAction::Placeholder => world.current_tick.0 >= 1,
        }
    }

    /// Tests whether a frame of `world` can be rendered.
    pub fn is_renderable(&self, world: &World) -> (ok: bool)
        ensures
            ok == self.can_render(world),
    {
        if self.world_id != world.id {
            return false;
        }
        let (base_region_x, base_region_y, z) = self.camera.world_offset;
        let margin = OFF_SCREEN_RENDER_HEURISTIC as i64;
        let cols: i64 = (self.camera.tiles_dims.0 / REGION_DIM as u32) as i64 + 1 + 2 * margin;
        let rows: i64 = (self.camera.tiles_dims.1 / REGION_DIM as u32) as i64 + 1 + 2 * margin;
        let left: i64 = base_region_x as i64 - margin;
        let top: i64 = base_region_y as i64 - margin;
        if left < i32::MIN as i64 || left + cols > i32::MAX as i64 || top < i32::MIN as i64 || top
            + rows > i32::MAX as i64 {
            return false;
        }
        if (cols - 1 - margin) * (REGION_DIM as i64) + self.camera.region_offset.0 as i64
            > i32::MAX as i64 || (rows - 1 - margin) * (REGION_DIM as i64)
            + self.camera.region_offset.1 as i64 > i32::MAX as i64 {
            return false;
        }
        let ghost camera = self.camera();
        let mut y: i64 = top;
        while y < top + rows
            invariant
                camera == self.camera(),
                self.world_id() == world.id,
                window_in_range(camera),
                z == camera.world_offset.2,
                left == window_left(camera),
                cols == window_span(camera.tiles_dims.0),
                top == window_top(camera),
                rows == window_span(camera.tiles_dims.1),
                top <= y <= top + rows,
                forall|c: (i32, i32, i32)|
                    #![trigger in_window(camera, c)]
                    in_window(camera, c) && c.1 < y ==> self.can_read(world, c),
            decreases top + rows - y,
        {
            let mut x: i64 = left;
            while x < left + cols
                invariant
                    camera == self.camera(),
                    self.world_id() == world.id,
                    window_in_range(camera),
                    z == camera.world_offset.2,
                    left == window_left(camera),
                    cols == window_span(camera.tiles_dims.0),
                    top == window_top(camera),
                    rows == window_span(camera.tiles_dims.1),
                    top <= y < top + rows,
                    left <= x <= left + cols,
                    forall|c: (i32, i32, i32)|
                        #![trigger in_window(camera, c)]
                        in_window(camera, c) && (c.1 < y || (c.1 == y && c.0 < x))
                            ==> self.can_read(world, c),
                decreases left + cols - x,
            {
                if !self.is_readable(world, (x as i32, y as i32, z)) {
                    assert(in_window(camera, (x as i32, y as i32, z)));
                    return false;
                }
                x += 1;
            }
            y += 1;
        }
        true
    }
}

} // verus!
