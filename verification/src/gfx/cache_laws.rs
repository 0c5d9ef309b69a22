//! What holds of the region render cache over any sequence of reads.
//!
//! The laws speak of [`refreshed`], which is what a read stores and hands
//! out, and of [`cache_action`], which says whether the read builds.

use crate::gfx::draw::section_of;
use crate::gfx::world_renderer::{
    cache_action, in_window, is_mapped, refreshed, visual_of, window_in_range, CacheAction,
    CachedRegionView, RenderModifier, WorldRenderer,
};
use crate::state::map_builder::{generated_regions, lemma_generated_regions_plain, Rect};
use crate::state::world;
use crate::state::world::{region_views, Tick, World};
use crate::util::REGION_LEN;
use vstd::prelude::*;

verus! {

/// A read of a region whose data has not changed since its visual form was
/// built builds nothing and hands out the cached form as it is.
pub proof fn law_fresh_entry_is_reused(
    prior: CachedRegionView,
    data: world::CachedRegionView,
    now: Tick,
    modifiers: Set<RenderModifier>,
)
    requires
        data.last_update_tick.0 <= prior.tick.0,
    ensures
        cache_action(Some(prior.tick), Some(data.last_update_tick)) == CacheAction::Reuse,
        refreshed(Some(prior), Some(data), now, modifiers) == prior,
{
}

/// In a renderer, such a read leaves the whole cache as it was.
pub proof fn law_reuse_leaves_cache_unchanged(
    renderer: WorldRenderer,
    world: World,
    offset: (i32, i32, i32),
)
    requires
        renderer.cache().contains_key(offset),
        world.regions@.contains_key(offset),
        world.regions@[offset].last_update_tick.0 <= renderer.cache()[offset].tick.0,
    ensures
        renderer.next_entry(&world, offset) == renderer.cache()[offset],
        renderer.cache().insert(offset, renderer.next_entry(&world, offset)) == renderer.cache(),
{
    assert(renderer.cache().insert(offset, renderer.next_entry(&world, offset))
        =~= renderer.cache());
}

/// Whatever a read of a region found in the cache, a second read of the same
/// data builds nothing and hands out what the first read handed out, at the
/// same tick or a later one and whatever modifiers are then on. The data is
/// stamped no later than the tick of the first read, as it is in a consistent
/// world.
pub proof fn law_second_read_reuses(
    prior: Option<CachedRegionView>,
    data: world::CachedRegionView,
    now: Tick,
    later: Tick,
    modifiers: Set<RenderModifier>,
    later_modifiers: Set<RenderModifier>,
)
    requires
        data.last_update_tick.0 <= now.0,
    ensures
        ({
            let first = refreshed(prior, Some(data), now, modifiers);
            &&& cache_action(Some(first.tick), Some(data.last_update_tick)) == CacheAction::Reuse
            &&& refreshed(Some(first), Some(data), later, later_modifiers) == first
        }),
{
}

/// Once the data of a region is newer than its visual form, the next read
/// rebuilds the form from the data and stamps it with the current tick; a
/// further read at that tick builds nothing.
pub proof fn law_stale_entry_is_rebuilt_once(
    prior: CachedRegionView,
    data: world::CachedRegionView,
    now: Tick,
    modifiers: Set<RenderModifier>,
)
    requires
        data.last_update_tick.0 > prior.tick.0,
        data.last_update_tick.0 <= now.0,
    ensures
        ({
            let first = refreshed(Some(prior), Some(data), now, modifiers);
            &&& cache_action(Some(prior.tick), Some(data.last_update_tick)) == CacheAction::Rebuild
            &&& first == (CachedRegionView {
                tick: now,
                region: visual_of(data.blocks, modifiers),
            })
            &&& cache_action(Some(first.tick), Some(data.last_update_tick)) == CacheAction::Reuse
            &&& refreshed(Some(first), Some(data), now, modifiers) == first
        }),
{
}

/// A read of a region that is not in memory stores an empty form stamped one
/// tick before the current one. The next read does not trust it, even at the
/// same tick: it stores a placeholder again where the region is still absent,
/// and builds where data has arrived that is stamped with the current tick or
/// a later one.
pub proof fn law_placeholder_is_retried(
    prior: Option<CachedRegionView>,
    now: Tick,
    arrived: world::CachedRegionView,
    modifiers: Set<RenderModifier>,
)
    requires
        now.0 >= 1,
        arrived.last_update_tick.0 >= now.0,
    ensures
        ({
            let placeholder = refreshed(prior, None, now, modifiers);
            &&& placeholder == (CachedRegionView {
                tick: Tick((now.0 - 1) as u64),
                region: Seq::empty(),
            })
            &&& cache_action(Some(placeholder.tick), None) == CacheAction::Placeholder
            &&& cache_action(Some(placeholder.tick), Some(arrived.last_update_tick))
                == CacheAction::Rebuild
            &&& refreshed(Some(placeholder), Some(arrived), now, modifiers) == (CachedRegionView {
                tick: now,
                region: visual_of(arrived.blocks, modifiers),
            })
        }),
{
}

/// With an empty cache, as a change of the render modifiers leaves it, the
/// read of any region that is in memory builds its visual form under the
/// modifiers that are then on, whatever the tick of its data.
pub proof fn law_empty_cache_rebuilds(renderer: WorldRenderer, world: World, offset: (i32, i32, i32))
    requires
        renderer.cache() == Map::<(i32, i32, i32), CachedRegionView>::empty(),
        world.regions@.contains_key(offset),
    ensures
        cache_action(None, Some(world.regions@[offset].last_update_tick)) == CacheAction::Rebuild,
        renderer.next_entry(&world, offset) == (CachedRegionView {
            tick: world.current_tick,
            region: visual_of(world.regions@[offset]@.blocks, renderer.modifiers()),
        }),
{
}

/// A region whose data does not have one block per cell is not drawn when
/// its visual form is built from that data.
pub proof fn law_malformed_region_is_not_drawn(
    pos: (int, int),
    prior: Option<CachedRegionView>,
    data: world::CachedRegionView,
    now: Tick,
    modifiers: Set<RenderModifier>,
)
    requires
        data.blocks.len() != REGION_LEN,
        prior matches Some(held) ==> data.last_update_tick.0 > held.tick.0,
    ensures
        section_of(pos, refreshed(prior, Some(data), now, modifiers).region).is_none(),
{
}

/// A world whose regions are those of a generated map can be rendered by any
/// renderer made for it whose window is in range: every block of such a map
/// has a visual form.
pub proof fn law_generated_world_can_render(
    renderer: WorldRenderer,
    world: World,
    rooms: Seq<Rect>,
    width: int,
    height: int,
)
    requires
        region_views(world.regions@) == generated_regions(rooms, width, height),
        world.current_tick.0 >= 1,
        renderer.world_id() == world.id,
        window_in_range(renderer.camera()),
    ensures
        renderer.can_render(&world),
{
    assert forall|c: (i32, i32, i32)| #[trigger]
        in_window(renderer.camera(), c) implies renderer.can_read(&world, c) by {
        if world.regions@.contains_key(c) {
            assert(region_views(world.regions@).contains_key(c));
            assert(region_views(world.regions@)[c] == world.regions@[c]@);
            let blocks = world.regions@[c]@.blocks;
            assert forall|i: int| 0 <= i < blocks.len() implies is_mapped(
                #[trigger] blocks[i].fill,
            ) by {
                lemma_generated_regions_plain(rooms, width, height, c, 0);
                lemma_generated_regions_plain(rooms, width, height, c, i);
            }
        }
    }
}

} // verus!
