//! Draw requests: what the renderer hands to the draw surface each frame.
//!
//! A region is drawn as one section of text that flows from the region's
//! place on screen: its tiles row by row, with a line break after each row.

use crate::gfx::glyph_gfx::{Color, GfxRegion, GfxTileView};
use crate::util::{REGION_DIM, REGION_LEN};
use vstd::prelude::*;

verus! {

/// What a [`DrawText`] holds, as plain values.
pub enum DrawTextView {
    Glyph { glyph: Seq<char>, fg: Color },
    LineBreak,
}

/// One piece of text of a section.
#[derive(Clone, Copy, Debug)]
pub enum DrawText {
    /// A tile's glyph in the tile's foreground colour, at the glyph scale of
    /// the draw surface.
    Glyph { glyph: &'static str, fg: Color },
    /// The end of a row of tiles.
    LineBreak,
}

impl View for DrawText {
    type V = DrawTextView;

    open spec fn view(&self) -> DrawTextView {
        match self {
            DrawText::Glyph { glyph, fg } => DrawTextView::Glyph { glyph: glyph@, fg: *fg },
            DrawText::LineBreak => DrawTextView::LineBreak,
        }
    }
}

/// What a [`DrawSection`] holds, as plain values.
pub struct DrawSectionView {
    pub tile_x: i32,
    pub tile_y: i32,
    pub texts: Seq<DrawTextView>,
}

/// The draw request for one region.
#[derive(Clone, Debug)]
pub struct DrawSection {
    /// Where the section starts on screen, in tiles. The draw surface scales
    /// it by the size of a glyph.
    pub tile_x: i32,
    pub tile_y: i32,
    pub texts: Vec<DrawText>,
}

impl View for DrawSection {
    type V = DrawSectionView;

    open spec fn view(&self) -> DrawSectionView {
        DrawSectionView {
            tile_x: self.tile_x,
            tile_y: self.tile_y,
            texts: self.texts@.map_values(|t: DrawText| t@),
        }
    }
}

/// Number of pieces of text in a row of a section: the tiles and the line
/// break.
pub open spec fn row_texts() -> int {
    REGION_DIM + 1
}

/// The texts of a section over `tiles`: for each row the glyphs of its tiles
/// from left to right, then a line break.
pub open spec fn section_texts(tiles: Seq<GfxTileView>) -> Seq<DrawTextView> {
    Seq::new(
        (REGION_DIM * row_texts()) as nat,
        |i: int|
            if i % row_texts() == REGION_DIM as int {
                DrawTextView::LineBreak
            } else {
                let tile = tiles[(i / row_texts()) * REGION_DIM + i % row_texts()];
                DrawTextView::Glyph { glyph: tile.glyph.glyph, fg: tile.fg }
            },
    )
}

/// The section that draws `tiles` at `pos`, or none where `tiles` is not a
/// full region: a malformed or empty region is not drawn.
pub open spec fn section_of(pos: (int, int), tiles: Seq<GfxTileView>) -> Option<DrawSectionView> {
    if tiles.len() == REGION_LEN {
        Some(
            DrawSectionView {
                tile_x: pos.0 as i32,
                tile_y: pos.1 as i32,
                texts: section_texts(tiles),
            },
        )
    } else {
        None
    }
}

/// Makes the draw request for `region` at the screen position
/// `(tile_x, tile_y)`.
pub fn region_section(tile_x: i32, tile_y: i32, region: &GfxRegion) -> (section: Option<
    DrawSection,
>)
    ensures
        match section {
            Some(s) => section_of((tile_x as int, tile_y as int), region@) == Some(s@),
            None => section_of((tile_x as int, tile_y as int), region@).is_none(),
        },
{
    // Do not attempt to draw a region whose tiles are malformed.
    if region.tiles.len() != REGION_LEN {
        return None;
    }
    let ghost want = section_texts(region@);
    let mut texts: Vec<DrawText> = Vec::new();
    for y in 0..REGION_DIM
        invariant
            region.tiles@.len() == REGION_LEN,
            want == section_texts(region@),
            texts@.len() == y * row_texts(),
            forall|i: int| 0 <= i < texts@.len() ==> (#[trigger] texts@[i])@ == want[i],
    {
        for x in 0..REGION_DIM
            invariant
                0 <= y < REGION_DIM,
                region.tiles@.len() == REGION_LEN,
                want == section_texts(region@),
                texts@.len() == y * row_texts() + x,
                forall|i: int| 0 <= i < texts@.len() ==> (#[trigger] texts@[i])@ == want[i],
        {
            let idx = (y as usize * REGION_DIM as usize) + x as usize;
            let tile = &region.tiles[idx];
            let text = DrawText::Glyph { glyph: tile.glyph.glyph, fg: tile.fg };
            proof {
                let i = y * row_texts() + x;
                assert(i % row_texts() == x && i / row_texts() == y);
                assert(text@ == want[i]);
            }
            texts.push(text);
        }
        proof {
            let i = y * row_texts() + REGION_DIM;
            assert(i % row_texts() == REGION_DIM as int);
            assert(DrawText::LineBreak@ == want[i]);
        }
        texts.push(DrawText::LineBreak);
    }
    let section = DrawSection { tile_x, tile_y, texts };
    assert(section@.texts =~= want);
    Some(section)
}

} // verus!
