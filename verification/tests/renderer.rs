use tileworld::gfx::draw::{region_section, DrawSection, DrawText};
use tileworld::gfx::glyph_gfx::{Color, GfxGlyph, GfxRegion, GfxTile};
use tileworld::gfx::gpu_context::GpuContextError;
use tileworld::gfx::world_renderer::{
    cache_action, gen_gfx_region, has_visual, CacheAction, RenderModifier, RenderModifierSet,
    WorldRenderer, OFF_SCREEN_RENDER_HEURISTIC,
};
use tileworld::state::world::{
    Block, BlockFill, CachedRegion, MaterialId, Region, Tick, World, WorldId,
};
use tileworld::util::region_map::RegionMap;

const RED: Color = Color { r: 255, g: 0, b: 0, a: 255 };
const GREEN: Color = Color { r: 0, g: 255, b: 0, a: 255 };
const BLUE: Color = Color { r: 0, g: 0, b: 255, a: 255 };
const BLACK: Color = Color { r: 0, g: 0, b: 0, a: 255 };

fn region_of(fill: BlockFill, len: usize) -> Region {
    Region { blocks: vec![Block { fill }; len] }
}

fn floor_region() -> Region {
    region_of(BlockFill::Floor(MaterialId(0)), 256)
}

fn solid_region() -> Region {
    region_of(BlockFill::Solid(MaterialId(0)), 256)
}

fn empty_world(tick: u64) -> World {
    World { id: WorldId(0), regions: RegionMap::new(), current_tick: Tick(tick) }
}

fn put(world: &mut World, at: (i32, i32, i32), region: Region, tick: u64) {
    world.regions.insert(at, CachedRegion { region, last_update_tick: Tick(tick) });
}

fn glyphs(region: &GfxRegion) -> Vec<&'static str> {
    region.tiles.iter().map(|t| t.glyph.glyph).collect()
}

fn assert_tile(tile: &GfxTile, glyph: &str, fg: Color, bg: Color) {
    assert_eq!(tile.glyph.glyph, glyph);
    assert_eq!(tile.glyph.render_offset, (0, 0));
    assert_eq!(tile.fg, fg);
    assert_eq!(tile.bg, bg);
}

#[test]
fn glyph_starts_at_the_origin_of_its_cell() {
    let g = GfxGlyph::new("@");
    assert_eq!(g.glyph, "@");
    assert_eq!(g.render_offset, (0, 0));
}

#[test]
fn empty_region_has_no_tiles() {
    assert!(GfxRegion::empty().tiles.is_empty());
}

#[test]
fn gpu_errors_have_their_messages() {
    assert_eq!(GpuContextError::RequestAdapterError.message(), "Adapter request failed!");
    assert_eq!(GpuContextError::RequestDeviceError.message(), "Device request failed!");
    assert_eq!(GpuContextError::SwapChainError.message(), "Swap chain operation failed!");
}

#[test]
fn modifier_set_tracks_membership() {
    let mut set = RenderModifierSet::new();
    assert!(!set.contains(RenderModifier::GravityInverse));
    assert!(set.insert(RenderModifier::GravityInverse));
    assert!(set.contains(RenderModifier::GravityInverse));
    assert!(!set.insert(RenderModifier::GravityInverse));
    assert!(set.remove(RenderModifier::GravityInverse));
    assert!(!set.contains(RenderModifier::GravityInverse));
    assert!(!set.remove(RenderModifier::GravityInverse));
}

#[test]
fn solid_is_a_red_hash_on_green() {
    let gfx = gen_gfx_region(&solid_region(), &RenderModifierSet::new());
    assert_eq!(gfx.tiles.len(), 256);
    for tile in &gfx.tiles {
        assert_tile(tile, "#", RED, GREEN);
    }
}

#[test]
fn floor_is_a_blue_dot_on_black() {
    let gfx = gen_gfx_region(&floor_region(), &RenderModifierSet::new());
    assert_eq!(gfx.tiles.len(), 256);
    for tile in &gfx.tiles {
        assert_tile(tile, ".", BLUE, BLACK);
    }
}

#[test]
fn visual_form_keeps_the_order_and_number_of_blocks() {
    let region = Region {
        blocks: vec![
            Block { fill: BlockFill::Floor(MaterialId(3)) },
            Block { fill: BlockFill::Solid(MaterialId(1)) },
            Block { fill: BlockFill::Solid(MaterialId(2)) },
        ],
    };
    let gfx = gen_gfx_region(&region, &RenderModifierSet::new());
    assert_eq!(glyphs(&gfx), vec![".", "#", "#"]);
    let none = gen_gfx_region(&Region { blocks: Vec::new() }, &RenderModifierSet::new());
    assert!(none.tiles.is_empty());
}

#[test]
fn modifiers_do_not_change_the_visual_form() {
    let mut set = RenderModifierSet::new();
    set.insert(RenderModifier::GravityInverse);
    let gfx = gen_gfx_region(&solid_region(), &set);
    for tile in &gfx.tiles {
        assert_tile(tile, "#", RED, GREEN);
    }
}

#[test]
fn only_solid_and_floor_have_a_visual_form() {
    assert!(has_visual(&solid_region()));
    assert!(has_visual(&floor_region()));
    assert!(has_visual(&Region { blocks: Vec::new() }));
    assert!(!has_visual(&region_of(BlockFill::Ceiling(MaterialId(0)), 256)));
    assert!(!has_visual(&region_of(BlockFill::FloorCeiling(MaterialId(0), MaterialId(1)), 256)));
    assert!(!has_visual(&region_of(BlockFill::Empty, 256)));
    let mut mixed = floor_region();
    mixed.blocks[255] = Block { fill: BlockFill::Empty };
    assert!(!has_visual(&mixed));
}

#[test]
fn cache_rule() {
    assert_eq!(cache_action(None, None), CacheAction::Placeholder);
    assert_eq!(cache_action(Some(Tick(9)), None), CacheAction::Placeholder);
    assert_eq!(cache_action(None, Some(Tick(1))), CacheAction::Rebuild);
    assert_eq!(cache_action(Some(Tick(1)), Some(Tick(2))), CacheAction::Rebuild);
    assert_eq!(cache_action(Some(Tick(2)), Some(Tick(2))), CacheAction::Reuse);
    assert_eq!(cache_action(Some(Tick(3)), Some(Tick(2))), CacheAction::Reuse);
    assert_eq!(cache_action(Some(Tick(0)), Some(Tick(0))), CacheAction::Reuse);
}

#[test]
fn margin_is_two_regions() {
    assert_eq!(OFF_SCREEN_RENDER_HEURISTIC, 2);
}

#[test]
fn end_to_end_scenario() {
    let mut world = empty_world(1);
    put(&mut world, (0, 0, 0), floor_region(), 1);
    let mut renderer = WorldRenderer::new(WorldId(0));

    let first = renderer.get_cached_region(&world, (0, 0, 0));
    assert_eq!(first.tick, Tick(1));
    assert_eq!(first.region.tiles.len(), 256);
    assert!(first.region.tiles.iter().all(|t| t.glyph.glyph == "."));

    // The world advances; the region does not change. A rebuild would stamp
    // the entry with tick 2.
    world.current_tick = Tick(2);
    let second = renderer.get_cached_region(&world, (0, 0, 0));
    assert_eq!(second.tick, Tick(1));
    assert_eq!(glyphs(&second.region), vec!["."; 256]);

    // The region changes at tick 2, to solid rock so that the rebuild shows.
    put(&mut world, (0, 0, 0), solid_region(), 2);
    let third = renderer.get_cached_region(&world, (0, 0, 0));
    assert_eq!(third.tick, Tick(2));
    assert_eq!(glyphs(&third.region), vec!["#"; 256]);

    // A further read at the same tick does not build again.
    assert_eq!(cache_action(Some(Tick(2)), Some(Tick(2))), CacheAction::Reuse);
    let fourth = renderer.get_cached_region(&world, (0, 0, 0));
    assert_eq!(fourth.tick, Tick(2));
    assert_eq!(glyphs(&fourth.region), vec!["#"; 256]);
}

#[test]
fn reuse_hands_out_the_cached_form_even_if_the_data_differs() {
    // The data is swapped without a new stamp: only the stamp is compared,
    // so the read must keep what it built before.
    let mut world = empty_world(3);
    put(&mut world, (1, 1, 0), floor_region(), 2);
    let mut renderer = WorldRenderer::new(WorldId(0));
    assert_eq!(glyphs(&renderer.get_cached_region(&world, (1, 1, 0)).region), vec!["."; 256]);
    put(&mut world, (1, 1, 0), solid_region(), 2);
    for _ in 0..3 {
        let again = renderer.get_cached_region(&world, (1, 1, 0));
        assert_eq!(again.tick, Tick(3));
        assert_eq!(glyphs(&again.region), vec!["."; 256]);
    }
}

#[test]
fn stale_entry_is_rebuilt_and_stamped_with_the_world_tick() {
    let mut world = empty_world(5);
    put(&mut world, (0, 0, 0), floor_region(), 2);
    let mut renderer = WorldRenderer::new(WorldId(0));
    assert_eq!(renderer.get_cached_region(&world, (0, 0, 0)).tick, Tick(5));

    world.current_tick = Tick(9);
    put(&mut world, (0, 0, 0), solid_region(), 7);
    let rebuilt = renderer.get_cached_region(&world, (0, 0, 0));
    // Stamped with the tick of the read, not with that of the data.
    assert_eq!(rebuilt.tick, Tick(9));
    assert_eq!(glyphs(&rebuilt.region), vec!["#"; 256]);

    put(&mut world, (0, 0, 0), floor_region(), 7);
    let kept = renderer.get_cached_region(&world, (0, 0, 0));
    assert_eq!(kept.tick, Tick(9));
    assert_eq!(glyphs(&kept.region), vec!["#"; 256]);
}

#[test]
fn absent_region_gets_a_placeholder_one_tick_behind() {
    let world = empty_world(4);
    let mut renderer = WorldRenderer::new(WorldId(0));
    let placeholder = renderer.get_cached_region(&world, (7, 7, 0));
    assert_eq!(placeholder.tick, Tick(3));
    assert!(placeholder.region.tiles.is_empty());
    let again = renderer.get_cached_region(&world, (7, 7, 0));
    assert_eq!(again.tick, Tick(3));
    assert!(again.region.tiles.is_empty());
}

#[test]
fn placeholder_is_not_trusted_once_data_arrives() {
    let mut world = empty_world(4);
    let mut renderer = WorldRenderer::new(WorldId(0));
    assert!(renderer.get_cached_region(&world, (7, 7, 0)).region.tiles.is_empty());
    // Same world tick; the region arrives, stamped with the current tick.
    put(&mut world, (7, 7, 0), floor_region(), 4);
    let built = renderer.get_cached_region(&world, (7, 7, 0));
    assert_eq!(built.tick, Tick(4));
    assert_eq!(glyphs(&built.region), vec!["."; 256]);
}

#[test]
fn placeholder_replaces_a_form_whose_region_left_memory() {
    let mut world = empty_world(2);
    put(&mut world, (0, 0, 0), floor_region(), 1);
    let mut renderer = WorldRenderer::new(WorldId(0));
    assert_eq!(renderer.get_cached_region(&world, (0, 0, 0)).region.tiles.len(), 256);
    world.regions.clear();
    world.current_tick = Tick(6);
    let gone = renderer.get_cached_region(&world, (0, 0, 0));
    assert_eq!(gone.tick, Tick(5));
    assert!(gone.region.tiles.is_empty());
}

#[test]
fn placeholder_at_tick_one_is_stamped_zero() {
    let world = empty_world(1);
    let mut renderer = WorldRenderer::new(WorldId(0));
    assert_eq!(renderer.get_cached_region(&world, (0, 0, 0)).tick, Tick(0));
}

#[test]
fn reads_do_not_touch_other_entries() {
    let mut world = empty_world(3);
    put(&mut world, (0, 0, 0), floor_region(), 1);
    put(&mut world, (1, 0, 0), solid_region(), 1);
    let mut renderer = WorldRenderer::new(WorldId(0));
    assert_eq!(renderer.get_cached_region(&world, (0, 0, 0)).tick, Tick(3));
    world.current_tick = Tick(8);
    assert_eq!(renderer.get_cached_region(&world, (1, 0, 0)).tick, Tick(8));
    let untouched = renderer.get_cached_region(&world, (0, 0, 0));
    assert_eq!(untouched.tick, Tick(3));
    assert_eq!(glyphs(&untouched.region), vec!["."; 256]);
}

#[test]
fn modifier_change_clears_the_cache() {
    let mut world = empty_world(3);
    put(&mut world, (0, 0, 0), floor_region(), 1);
    put(&mut world, (1, 0, 0), floor_region(), 1);
    let mut renderer = WorldRenderer::new(WorldId(0));
    assert_eq!(renderer.get_cached_region(&world, (0, 0, 0)).tick, Tick(3));
    assert_eq!(renderer.get_cached_region(&world, (1, 0, 0)).tick, Tick(3));

    // Data ticks stay as they are; only the world tick moves, so that a
    // rebuild shows in the stamp.
    world.current_tick = Tick(4);
    assert_eq!(renderer.get_cached_region(&world, (0, 0, 0)).tick, Tick(3));
    renderer.add_render_modifier(RenderModifier::GravityInverse);
    assert_eq!(renderer.get_cached_region(&world, (0, 0, 0)).tick, Tick(4));
    assert_eq!(renderer.get_cached_region(&world, (1, 0, 0)).tick, Tick(4));

    world.current_tick = Tick(5);
    assert_eq!(renderer.get_cached_region(&world, (0, 0, 0)).tick, Tick(4));
    renderer.remove_render_modifier(RenderModifier::GravityInverse);
    assert_eq!(renderer.get_cached_region(&world, (0, 0, 0)).tick, Tick(5));
    assert_eq!(renderer.get_cached_region(&world, (1, 0, 0)).tick, Tick(5));
}

#[test]
fn modifier_change_clears_even_if_the_set_stays_the_same() {
    let mut world = empty_world(3);
    put(&mut world, (0, 0, 0), floor_region(), 1);
    let mut renderer = WorldRenderer::new(WorldId(0));
    assert_eq!(renderer.get_cached_region(&world, (0, 0, 0)).tick, Tick(3));
    world.current_tick = Tick(4);
    renderer.remove_render_modifier(RenderModifier::GravityInverse);
    assert_eq!(renderer.get_cached_region(&world, (0, 0, 0)).tick, Tick(4));
}

#[test]
fn section_lays_tiles_out_in_rows_with_line_breaks() {
    let mut region = floor_region();
    region.blocks[0] = Block { fill: BlockFill::Solid(MaterialId(0)) };
    region.blocks[16 + 2] = Block { fill: BlockFill::Solid(MaterialId(0)) };
    region.blocks[255] = Block { fill: BlockFill::Solid(MaterialId(0)) };
    let gfx = gen_gfx_region(&region, &RenderModifierSet::new());
    let section = region_section(19, 7, &gfx).expect("a full region");
    assert_eq!((section.tile_x, section.tile_y), (19, 7));
    assert_eq!(section.texts.len(), 16 * 17);
    for (i, text) in section.texts.iter().enumerate() {
        let (row, col) = (i / 17, i % 17);
        match text {
            DrawText::LineBreak => assert_eq!(col, 16),
            DrawText::Glyph { glyph, fg } => {
                assert!(col < 16);
                let solid = (row, col) == (0, 0) || (row, col) == (1, 2) || (row, col) == (15, 15);
                assert_eq!(*glyph, if solid { "#" } else { "." });
                assert_eq!(*fg, if solid { RED } else { BLUE });
            }
        }
    }
}

#[test]
fn malformed_region_is_not_drawn() {
    let modifiers = RenderModifierSet::new();
    assert!(region_section(0, 0, &GfxRegion::empty()).is_none());
    let short = gen_gfx_region(&region_of(BlockFill::Floor(MaterialId(0)), 255), &modifiers);
    assert!(region_section(0, 0, &short).is_none());
    let long = gen_gfx_region(&region_of(BlockFill::Floor(MaterialId(0)), 257), &modifiers);
    assert!(region_section(0, 0, &long).is_none());
    let full = gen_gfx_region(&floor_region(), &modifiers);
    assert!(region_section(0, 0, &full).is_some());
}

#[test]
fn render_offset_skips_a_malformed_region_and_still_caches_it() {
    let mut world = empty_world(2);
    put(&mut world, (0, 0, 0), region_of(BlockFill::Floor(MaterialId(0)), 100), 1);
    put(&mut world, (1, 0, 0), floor_region(), 1);
    let mut renderer = WorldRenderer::new(WorldId(0));
    assert!(renderer.render_offset(&world, (0, 0, 0)).is_none());
    let cached = renderer.get_cached_region(&world, (0, 0, 0));
    assert_eq!(cached.tick, Tick(2));
    assert_eq!(cached.region.tiles.len(), 100);
    assert!(renderer.render_offset(&world, (1, 0, 0)).is_some());
}

#[test]
fn render_offset_places_the_section_by_the_camera() {
    let mut world = empty_world(2);
    put(&mut world, (3, 2, 0), solid_region(), 1);
    let mut renderer = WorldRenderer::new(WorldId(0));
    let section = renderer.render_offset(&world, (3, 2, 0)).expect("drawn");
    assert_eq!((section.tile_x, section.tile_y), (48, 32));
    assert_eq!(section.texts.len(), 272);
    assert!(renderer.render_offset(&world, (4, 2, 0)).is_none());
}

fn positions(sections: &[DrawSection]) -> Vec<(i32, i32)> {
    sections.iter().map(|s| (s.tile_x, s.tile_y)).collect()
}

#[test]
fn render_draws_resident_regions_row_by_row() {
    let mut world = empty_world(2);
    put(&mut world, (1, 1, 0), floor_region(), 1);
    put(&mut world, (0, 0, 0), floor_region(), 1);
    put(&mut world, (2, 0, 0), solid_region(), 1);
    put(&mut world, (-2, -2, 0), solid_region(), 1);
    put(&mut world, (10, 4, 0), solid_region(), 1);
    // Outside the window: 128 / 16 + 1 + 2 = 11 and 36 / 16 + 1 + 2 = 5 are
    // the first column and row past it; -3 is before it; depth 1 is not shown.
    put(&mut world, (11, 0, 0), solid_region(), 1);
    put(&mut world, (0, 5, 0), solid_region(), 1);
    put(&mut world, (-3, 0, 0), solid_region(), 1);
    put(&mut world, (0, 0, 1), solid_region(), 1);
    // Malformed: read, not drawn.
    put(&mut world, (5, 1, 0), region_of(BlockFill::Floor(MaterialId(0)), 3), 1);

    let mut renderer = WorldRenderer::new(WorldId(0));
    assert!(renderer.is_renderable(&world));
    let sections = renderer.render(&world);
    assert_eq!(
        positions(&sections),
        vec![(-32, -32), (0, 0), (32, 0), (16, 16), (160, 64)]
    );
    for section in &sections {
        assert_eq!(section.texts.len(), 272);
    }
    match sections[2].texts[0] {
        DrawText::Glyph { glyph, fg } => {
            assert_eq!(glyph, "#");
            assert_eq!(fg, RED);
        }
        DrawText::LineBreak => panic!("a row starts with a tile"),
    }
    match sections[1].texts[0] {
        DrawText::Glyph { glyph, fg } => {
            assert_eq!(glyph, ".");
            assert_eq!(fg, BLUE);
        }
        DrawText::LineBreak => panic!("a row starts with a tile"),
    }
}

#[test]
fn render_reads_every_region_of_the_window_once() {
    let mut world = empty_world(2);
    put(&mut world, (0, 0, 0), floor_region(), 1);
    let mut renderer = WorldRenderer::new(WorldId(0));
    renderer.render(&world);
    // A later read at a later tick shows what the frame stored: forms are
    // reused, placeholders are stamped anew.
    world.current_tick = Tick(10);
    assert_eq!(renderer.get_cached_region(&world, (0, 0, 0)).tick, Tick(2));
    // Absent regions of the window were given placeholders by the frame.
    // Put data stamped 1 there: a placeholder stamped 1 would be trusted.
    for at in [(-2, -2, 0), (10, 4, 0), (3, 3, 0)] {
        put(&mut world, at, floor_region(), 1);
        let entry = renderer.get_cached_region(&world, at);
        assert_eq!(entry.tick, Tick(1));
        assert!(entry.region.tiles.is_empty());
    }
    // Outside the window nothing was stored: the form is built now.
    for at in [(-3, 0, 0), (11, 0, 0), (0, 5, 0), (0, -3, 0), (0, 0, 1)] {
        put(&mut world, at, floor_region(), 1);
        let entry = renderer.get_cached_region(&world, at);
        assert_eq!(entry.tick, Tick(10));
        assert_eq!(entry.region.tiles.len(), 256);
    }
}

#[test]
fn render_twice_draws_the_same_without_rebuilding() {
    let mut world = empty_world(2);
    put(&mut world, (0, 0, 0), floor_region(), 1);
    put(&mut world, (1, 0, 0), solid_region(), 2);
    let mut renderer = WorldRenderer::new(WorldId(0));
    let first = renderer.render(&world);
    world.current_tick = Tick(3);
    let second = renderer.render(&world);
    assert_eq!(positions(&first), vec![(0, 0), (16, 0)]);
    assert_eq!(positions(&second), positions(&first));
    assert_eq!(renderer.get_cached_region(&world, (0, 0, 0)).tick, Tick(2));
    assert_eq!(renderer.get_cached_region(&world, (1, 0, 0)).tick, Tick(2));
}

#[test]
fn render_of_a_new_world_draws_its_27_regions() {
    let world = World::new();
    let mut renderer = WorldRenderer::new(world.id);
    assert!(renderer.is_renderable(&world));
    let sections = renderer.render(&world);
    let mut expected = Vec::new();
    for ry in 0..3 {
        for rx in 0..9 {
            expected.push((rx * 16, ry * 16));
        }
    }
    assert_eq!(positions(&sections), expected);
}

#[test]
fn frame_of_another_world_cannot_be_rendered() {
    let world = empty_world(2);
    let renderer = WorldRenderer::new(WorldId(1));
    assert!(!renderer.is_renderable(&world));
}

#[test]
fn frame_with_an_unmapped_fill_in_view_cannot_be_rendered() {
    let mut world = empty_world(2);
    put(&mut world, (3, 1, 0), region_of(BlockFill::Ceiling(MaterialId(0)), 256), 1);
    let mut renderer = WorldRenderer::new(WorldId(0));
    assert!(!renderer.is_renderable(&world));
    assert!(!renderer.is_readable(&world, (3, 1, 0)));
    assert!(renderer.is_readable(&world, (3, 2, 0)));

    // Out of view it does not matter.
    let mut world = empty_world(2);
    put(&mut world, (30, 1, 0), region_of(BlockFill::Ceiling(MaterialId(0)), 256), 1);
    assert!(renderer.is_renderable(&world));

    // Nor does it where the cached form is still fresh.
    let mut world = empty_world(2);
    put(&mut world, (3, 1, 0), floor_region(), 1);
    renderer.render(&world);
    put(&mut world, (3, 1, 0), region_of(BlockFill::Ceiling(MaterialId(0)), 256), 1);
    assert!(renderer.is_renderable(&world));
    put(&mut world, (3, 1, 0), region_of(BlockFill::Ceiling(MaterialId(0)), 256), 3);
    assert!(!renderer.is_renderable(&world));
}

#[test]
fn placeholder_needs_a_tick_before_the_current_one() {
    let world = empty_world(0);
    let renderer = WorldRenderer::new(WorldId(0));
    assert!(!renderer.is_readable(&world, (0, 0, 0)));
    assert!(!renderer.is_renderable(&world));
    let mut world = empty_world(0);
    put(&mut world, (0, 0, 0), floor_region(), 0);
    assert!(renderer.is_readable(&world, (0, 0, 0)));
}
