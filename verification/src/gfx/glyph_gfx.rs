//! The layer between the world and the glyphs on screen. The world is
//! captured into a scene of tiles here, which can then be drawn without
//! looking at the world again until it changes.

use vstd::prelude::*;

verus! {

/// A colour of four channels, each from 0 (none) to 255 (full).
#[derive(Clone, Copy, Debug, PartialEq, Eq, Structural)]
pub struct Color {
    pub r: u8,
    pub g: u8,
    pub b: u8,
    pub a: u8,
}

/// What a [`GfxGlyph`] holds, as plain values.
pub struct GfxGlyphView {
    pub glyph: Seq<char>,
    pub render_offset: (i32, i32),
}

/// A glyph and where it sits in its cell.
#[derive(Clone, Copy, Debug)]
pub struct GfxGlyph {
    pub glyph: &'static str,
    /// Offset from the cell's origin, in thousandths of a cell. Kept for
    /// animation; every glyph made today sits at the origin.
    pub render_offset: (i32, i32),
}

impl View for GfxGlyph {
    type V = GfxGlyphView;

    open spec fn view(&self) -> GfxGlyphView {
        GfxGlyphView { glyph: self.glyph@, render_offset: self.render_offset }
    }
}

impl GfxGlyph {
    /// The glyph `glyph`, at the origin of its cell.
    pub fn new(glyph: &'static str) -> (g: GfxGlyph)
        ensures
            g@ == (GfxGlyphView { glyph: glyph@, render_offset: (0, 0) }),
    {
        GfxGlyph { glyph, render_offset: (0, 0) }
    }
}

/// What a [`GfxTile`] holds, as plain values.
pub struct GfxTileView {
    pub glyph: GfxGlyphView,
    pub fg: Color,
    pub bg: Color,
}

/// How one block is drawn.
#[derive(Clone, Copy, Debug)]
pub struct GfxTile {
    pub glyph: GfxGlyph,
    pub fg: Color,
    pub bg: Color,
}

impl View for GfxTile {
    type V = GfxTileView;

    open spec fn view(&self) -> GfxTileView {
        GfxTileView { glyph: self.glyph@, fg: self.fg, bg: self.bg }
    }
}

/// How one region is drawn: a tile per block, in the blocks' order, or no
/// tiles at all where there is nothing to draw.
#[derive(Clone, Debug)]
pub struct GfxRegion {
    pub tiles: Vec<GfxTile>,
}

impl View for GfxRegion {
    type V = Seq<GfxTileView>;

    open spec fn view(&self) -> Seq<GfxTileView> {
        self.tiles@.map_values(|t: GfxTile| t@)
    }
}

impl GfxRegion {
    /// The region with nothing to draw. It stands for a region that is not in
    /// memory.
    pub fn empty() -> (r: Self)
        ensures
            r@ == Seq::<GfxTileView>::empty(),
    {
        let r = Self { tiles: Vec::new() };
        assert(r@ =~= Seq::<GfxTileView>::empty());
        r
    }
}

} // verus!
