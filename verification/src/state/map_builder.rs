//! Generation of a debug map: rectangular rooms carved out of solid rock on a
//! flat grid of tiles, then cut into regions.

use crate::gfx::camera::Camera;
use crate::state::world::{
    region_views, Block, BlockFill, CachedRegion, CachedRegionView, MaterialId, Region, Tick,
};
use crate::util::region_map::RegionMap;
use crate::util::{REGION_DIM, REGION_LEN};
use rand::distributions::{Distribution, Uniform};
use vstd::prelude::*;

verus! {

/// Draws a number from `low..high` with `rand`: a `Uniform` distribution over
/// the half-open range, sampled with the thread's generator. `Uniform::from`
/// panics on an empty range, which `requires` leaves out. The contract claims
/// only that the sample lies in the range; which number comes back is left
/// open.
#[verifier::external_body]
fn sample_uniform(low: u32, high: u32) -> (n: u32)
    requires
        low < high,
    ensures
        low <= n < high,
{
    Uniform::from(low..high).sample(&mut rand::thread_rng())
}

/// An axis-aligned rectangle of tiles, from `(x1, y1)` up to but not including
/// `(x2, y2)`.
#[derive(Clone, Copy, Debug, PartialEq, Eq, Structural)]
pub struct Rect {
    pub x1: i32,
    pub y1: i32,
    pub x2: i32,
    pub y2: i32,
}

/// Position of tile `(x, y)` in a row-major grid that is `width` tiles wide.
pub open spec fn cell_index(width: int, x: int, y: int) -> int {
    y * width + x
}

impl Rect {
    /// The comparison that decides whether a new room is turned away because of an
    /// existing one: the two extents cross on the x axis, and on the y axis
    /// `self` starts after `other` ends and ends before `other` starts.
    pub open spec fn overlaps_spec(&self, other: Rect) -> bool {
        self.x1 < other.x2 && self.x2 > other.x1 && self.y1 > other.y2 && self.y2 < other.y1
    }

    /// Whether the rectangle has a tile at position `idx` of a grid `width`
    /// tiles wide.
    pub open spec fn covers_index(&self, width: int, idx: int) -> bool {
        exists|x: int, y: int|
            self.x1 <= x < self.x2 && self.y1 <= y < self.y2 && #[trigger] cell_index(width, x, y)
                == idx
    }

    /// Whether every tile of the rectangle has a position inside a grid of
    /// `width` by `height` tiles.
    pub open spec fn fits_grid(&self, width: int, height: int) -> bool {
        forall|x: int, y: int|
            self.x1 <= x < self.x2 && self.y1 <= y < self.y2 ==> 0 <= #[trigger] cell_index(
                width,
                x,
                y,
            ) < width * height
    }

    /// Whether the rectangle lies in the quadrant of non-negative coordinates
    /// and inside `width` by `height`.
    pub open spec fn within(&self, width: int, height: int) -> bool {
        0 <= self.x1 && 0 <= self.y1 && self.x2 <= width && self.y2 <= height
    }

    /// A rectangle inside the grid has all its tiles inside the grid.
    pub proof fn lemma_within_fits_grid(&self, width: int, height: int)
        requires
            self.within(width, height),
        ensures
            self.fits_grid(width, height),
    {
        assert forall|x: int, y: int|
            self.x1 <= x < self.x2 && self.y1 <= y < self.y2 implies 0 <= #[trigger] cell_index(
            width,
            x,
            y,
        ) < width * height by {
            assert(0 <= y * width && y * width + width <= height * width) by (nonlinear_arith)
                requires
                    0 <= y < height,
                    0 <= width,
            ;
            assert(height * width == width * height) by (nonlinear_arith);
        }
    }

    #[verifier::when_used_as_spec(overlaps_spec)]
    pub fn overlaps(&self, other: Rect) -> (b: bool)
        ensures
            b == self.overlaps_spec(other),
    {
        self.x1 < other.x2 && self.x2 > other.x1 && self.y1 > other.y2 && self.y2 < other.y1
    }
}

/// Whether any of `rooms` has a tile at position `idx` of a grid `width` tiles
/// wide.
pub open spec fn carved(rooms: Seq<Rect>, width: int, idx: int) -> bool {
    exists|k: int| 0 <= k < rooms.len() && (#[trigger] rooms[k]).covers_index(width, idx)
}

/// Whether `candidate` is turned away by one of `rooms`.
pub open spec fn blocked_by(rooms: Seq<Rect>, candidate: Rect) -> bool {
    exists|k: int| 0 <= k < rooms.len() && (#[trigger] rooms[k]).overlaps_spec(candidate)
}

/// The block at `(x, y)` of region `(rx, ry)` of the map that `rooms` make on
/// a grid of `width` by `height` tiles. The tile's position is counted as if
/// the region's row ran on in the grid's row-major order, whether or not the
/// tile's column is inside the grid: floor where the position is on the grid
/// and carved, solid rock elsewhere.
pub open spec fn block_at(
    rooms: Seq<Rect>,
    width: int,
    height: int,
    rx: int,
    ry: int,
    x: int,
    y: int,
) -> Block {
    let idx = cell_index(width, rx * REGION_DIM + x, ry * REGION_DIM + y);
    if idx < width * height && carved(rooms, width, idx) {
        Block { fill: BlockFill::Floor(MaterialId(0)) }
    } else {
        Block { fill: BlockFill::Solid(MaterialId(0)) }
    }
}

/// The blocks of region `(rx, ry)` of that map, in row-major order.
pub open spec fn region_blocks(rooms: Seq<Rect>, width: int, height: int, rx: int, ry: int) -> Seq<
    Block,
> {
    Seq::new(
        REGION_LEN as nat,
        |i: int| block_at(rooms, width, height, rx, ry, i % (REGION_DIM as int), i / (REGION_DIM as int)),
    )
}

/// Number of regions along an axis that is `tiles` long: one more than fit
/// whole.
pub open spec fn regions_along(tiles: int) -> int {
    tiles / (REGION_DIM as int) + 1
}

/// The regions of that map: one for each place of the region grid at depth 0,
/// each stamped with tick 1.
pub open spec fn generated_regions(rooms: Seq<Rect>, width: int, height: int) -> Map<
    (i32, i32, i32),
    CachedRegionView,
> {
    Map::new(
        |c: (i32, i32, i32)|
            c.2 == 0 && 0 <= c.0 < regions_along(width) && 0 <= c.1 < regions_along(height),
        |c: (i32, i32, i32)|
            CachedRegionView {
                blocks: region_blocks(rooms, width, height, c.0 as int, c.1 as int),
                last_update_tick: Tick(1),
            },
    )
}

/// The part of `room` that has been carved when its rows before `y_done` are
/// done and row `y_done` is done up to column `x_done`.
spec fn carved_part(room: Rect, width: int, y_done: int, x_done: int, idx: int) -> bool {
    exists|x: int, y: int|
        room.x1 <= x < room.x2 && room.y1 <= y < room.y2 && (y < y_done || (y == y_done && x
            < x_done)) && #[trigger] cell_index(width, x, y) == idx
}

proof fn lemma_carved_part_step(room: Rect, width: int, y: int, x: int, idx: int)
    requires
        room.x1 <= x < room.x2,
        room.y1 <= y < room.y2,
    ensures
        carved_part(room, width, y, x + 1, idx) <==> (carved_part(room, width, y, x, idx) || idx
            == cell_index(width, x, y)),
{
    if carved_part(room, width, y, x + 1, idx) {
        let (a, b) = choose|a: int, b: int|
            room.x1 <= a < room.x2 && room.y1 <= b < room.y2 && (b < y || (b == y && a < x + 1))
                && #[trigger] cell_index(width, a, b) == idx;
        if !(b == y && a == x) {
            assert(cell_index(width, a, b) == idx);
            assert(carved_part(room, width, y, x, idx));
        }
    }
    if carved_part(room, width, y, x, idx) {
        let (a, b) = choose|a: int, b: int|
            room.x1 <= a < room.x2 && room.y1 <= b < room.y2 && (b < y || (b == y && a < x))
                && #[trigger] cell_index(width, a, b) == idx;
        assert(cell_index(width, a, b) == idx);
        assert(carved_part(room, width, y, x + 1, idx));
    }
    if idx == cell_index(width, x, y) {
        assert(carved_part(room, width, y, x + 1, idx));
    }
}

proof fn lemma_carved_part_next_row(room: Rect, width: int, y: int, x: int, idx: int)
    requires
        x >= room.x2,
    ensures
        carved_part(room, width, y, x, idx) <==> carved_part(room, width, y + 1, room.x1 as int, idx),
{
    if carved_part(room, width, y, x, idx) {
        let (a, b) = choose|a: int, b: int|
            room.x1 <= a < room.x2 && room.y1 <= b < room.y2 && (b < y || (b == y && a < x))
                && #[trigger] cell_index(width, a, b) == idx;
        assert(cell_index(width, a, b) == idx);
        assert(carved_part(room, width, y + 1, room.x1 as int, idx));
    }
    if carved_part(room, width, y + 1, room.x1 as int, idx) {
        let (a, b) = choose|a: int, b: int|
            room.x1 <= a < room.x2 && room.y1 <= b < room.y2 && (b < y + 1 || (b == y + 1 && a
                < room.x1)) && #[trigger] cell_index(width, a, b) == idx;
        assert(cell_index(width, a, b) == idx);
        assert(carved_part(room, width, y, x, idx));
    }
}

proof fn lemma_carved_part_none(room: Rect, width: int, idx: int)
    ensures
        !carved_part(room, width, room.y1 as int, room.x1 as int, idx),
{
}

proof fn lemma_carved_part_all(room: Rect, width: int, y: int, idx: int)
    requires
        y >= room.y2,
    ensures
        carved_part(room, width, y, room.x1 as int, idx) <==> room.covers_index(width, idx),
{
    if carved_part(room, width, y, room.x1 as int, idx) {
        let (a, b) = choose|a: int, b: int|
            room.x1 <= a < room.x2 && room.y1 <= b < room.y2 && (b < y || (b == y && a < room.x1))
                && #[trigger] cell_index(width, a, b) == idx;
        assert(cell_index(width, a, b) == idx);
    }
    if room.covers_index(width, idx) {
        let (a, b) = choose|a: int, b: int|
            room.x1 <= a < room.x2 && room.y1 <= b < room.y2 && #[trigger] cell_index(width, a, b)
                == idx;
        assert(cell_index(width, a, b) == idx);
        assert(carved_part(room, width, y, room.x1 as int, idx));
    }
}

proof fn lemma_carved_take_next(rooms: Seq<Rect>, width: int, k: int, idx: int)
    requires
        0 <= k < rooms.len(),
    ensures
        carved(rooms.take(k + 1), width, idx) <==> (carved(rooms.take(k), width, idx)
            || rooms[k].covers_index(width, idx)),
{
    let shorter = rooms.take(k);
    let longer = rooms.take(k + 1);
    if carved(longer, width, idx) {
        let j = choose|j: int| 0 <= j < longer.len() && (#[trigger] longer[j]).covers_index(width, idx);
        if j < k {
            assert(shorter[j].covers_index(width, idx));
        }
    }
    if carved(shorter, width, idx) {
        let j = choose|j: int| 0 <= j < shorter.len() && (#[trigger] shorter[j]).covers_index(width, idx);
        assert(longer[j].covers_index(width, idx));
    }
    if rooms[k].covers_index(width, idx) {
        assert(longer[k].covers_index(width, idx));
    }
}

/// Collects rooms on a grid of `width` by `height` tiles.
pub struct MapBuilder {
    pub width: u32,
    pub height: u32,
    pub rooms: Vec<Rect>,
}

impl MapBuilder {
    /// The room that `add_room` is asked to add.
    pub open spec fn candidate(x: i32, y: i32, width: u32, height: u32) -> Rect {
        Rect { x1: x, y1: y, x2: (x + width) as i32, y2: (y + height) as i32 }
    }

    /// Whether `add_room` accepts the room: it must end inside the grid and no
    /// room collected so far may turn it away.
    pub open spec fn accepts(&self, x: i32, y: i32, width: u32, height: u32) -> bool {
        &&& x + width <= self.width
        &&& y + height <= self.height
        &&& !blocked_by(self.rooms@, Self::candidate(x, y, width, height))
    }

    /// Adds the room with corner `(x, y)` and the given size, if it is
    /// accepted, and says whether it was.
    pub fn add_room(&mut self, x: i32, y: i32, width: u32, height: u32) -> (added: bool)
        requires
            x + width <= i32::MAX,
            y + height <= i32::MAX,
        ensures
            added == old(self).accepts(x, y, width, height),
            added ==> final(self).rooms@ == old(self).rooms@.push(
                Self::candidate(x, y, width, height),
            ),
            !added ==> final(self).rooms@ == old(self).rooms@,
            final(self).width == old(self).width,
            final(self).height == old(self).height,
    {
        let r = Rect {
            x1: x,
            y1: y,
            x2: (x as i64 + width as i64) as i32,
            y2: (y as i64 + height as i64) as i32,
        };
        if r.x2 as i64 > self.width as i64 || r.y2 as i64 > self.height as i64 {
            return false;
        }
        let mut k: usize = 0;
        while k < self.rooms.len()
            invariant
                *self == *old(self),
                r == Self::candidate(x, y, width, height),
                x + width <= self.width,
                y + height <= self.height,
                k <= self.rooms.len(),
                forall|j: int| 0 <= j < k ==> !(#[trigger] self.rooms@[j]).overlaps_spec(r),
            decreases self.rooms.len() - k,
        {
            if self.rooms[k].overlaps(r) {
                assert(self.rooms@[k as int].overlaps_spec(r));
                return false;
            }
            k += 1;
        }
        self.rooms.push(r);
        true
    }

    /// Adds a room of random place and size: up to 201 draws of a corner on
    /// the grid, a width in `4..12` and a height in `3..6`, until one is
    /// accepted. Says whether a room was added.
    pub fn add_random_room(&mut self) -> (added: bool)
        requires
            old(self).width > 0,
            old(self).height > 0,
            old(self).width + 10 <= i32::MAX,
            old(self).height + 4 <= i32::MAX,
        ensures
            final(self).width == old(self).width,
            final(self).height == old(self).height,
            !added ==> final(self).rooms@ == old(self).rooms@,
            added ==> exists|x: i32, y: i32, w: u32, h: u32|
                {
                    &&& 0 <= x < old(self).width
                    &&& 0 <= y < old(self).height
                    &&& 4 <= w < 12
                    &&& 3 <= h < 6
                    &&& old(self).accepts(x, y, w, h)
                    &&& final(self).rooms@ == old(self).rooms@.push(
                        #[trigger] Self::candidate(x, y, w, h),
                    )
                },
    {
        let mut tries: u32 = 0;
        loop
            invariant
                self.rooms@ == old(self).rooms@,
                self.width == old(self).width,
                self.height == old(self).height,
                self.width > 0,
                self.height > 0,
                self.width + 10 <= i32::MAX,
                self.height + 4 <= i32::MAX,
                tries <= 200,
            decreases 200 - tries,
        {
            let rand_x = sample_uniform(0, self.width);
            let rand_y = sample_uniform(0, self.height);
            let rand_width = sample_uniform(4, 12);
            let rand_height = sample_uniform(3, 6);
            if self.add_room(rand_x as i32, rand_y as i32, rand_width, rand_height) {
                return true;
            } else if tries >= 200 {
                return false;
            } else {
                tries += 1;
            }
        }
    }

    /// Whether `build` can lay the rooms out: the grid has no more tiles than
    /// a `u32` counts, and every tile of every room has a position on it.
    pub open spec fn can_build(&self) -> bool {
        &&& self.width * self.height <= u32::MAX
        &&& forall|k: int|
            0 <= k < self.rooms@.len() ==> (#[trigger] self.rooms@[k]).fits_grid(
                self.width as int,
                self.height as int,
            )
    }

    /// Marks the tiles of every room on a flat grid, in row-major order.
    fn carve(&self) -> (flat: Vec<bool>)
        requires
            self.can_build(),
        ensures
            flat@.len() == self.width * self.height,
            forall|idx: int|
                0 <= idx < flat@.len() ==> flat@[idx] == carved(self.rooms@, self.width as int, idx),
    {
        let width = self.width;
        let cells: usize = (self.width * self.height) as usize;
        let mut flat: Vec<bool> = vec![false; cells];
        let mut k: usize = 0;
        proof {
            assert(self.rooms@.take(0).len() == 0);
        }
        while k < self.rooms.len()
            invariant
                self.can_build(),
                width == self.width,
                cells == self.width * self.height,
                k <= self.rooms.len(),
                flat@.len() == cells,
                forall|idx: int|
                    0 <= idx < cells ==> flat@[idx] == carved(
                        self.rooms@.take(k as int),
                        width as int,
                        idx,
                    ),
            decreases self.rooms.len() - k,
        {
            let room = self.rooms[k];
            let ghost before = self.rooms@.take(k as int);
            let mut y: i32 = room.y1;
            proof {
                assert forall|idx: int| 0 <= idx < cells implies flat@[idx] == (carved(
                    before,
                    width as int,
                    idx,
                ) || carved_part(room, width as int, y as int, room.x1 as int, idx)) by {
                    lemma_carved_part_none(room, width as int, idx);
                }
            }
            while y < room.y2
                invariant
                    room == self.rooms@[k as int],
                    room.fits_grid(width as int, self.height as int),
                    width == self.width,
                    cells == self.width * self.height,
                    cells <= u32::MAX,
                    room.y1 <= y,
                    flat@.len() == cells,
                    forall|idx: int|
                        0 <= idx < cells ==> flat@[idx] == (carved(before, width as int, idx)
                            || carved_part(room, width as int, y as int, room.x1 as int, idx)),
                decreases room.y2 - y,
            {
                let mut x: i32 = room.x1;
                while x < room.x2
                    invariant
                        room.fits_grid(width as int, self.height as int),
                        width == self.width,
                        cells == self.width * self.height,
                        cells <= u32::MAX,
                        room.y1 <= y < room.y2,
                        room.x1 <= x,
                        flat@.len() == cells,
                        forall|idx: int|
                            0 <= idx < cells ==> flat@[idx] == (carved(before, width as int, idx)
                                || carved_part(room, width as int, y as int, x as int, idx)),
                    decreases room.x2 - x,
                {
                    assert(0 <= cell_index(width as int, x as int, y as int) < cells);
                    assert(-0x8000_0000_0000_0000 <= (y as int) * (width as int)
                        < 0x8000_0000_0000_0000) by (nonlinear_arith)
                        requires
                            -0x8000_0000 <= y < 0x8000_0000,
                            0 <= width < 0x1_0000_0000,
                    ;
                    let idx: i64 = y as i64 * width as i64 + x as i64;
                    let ghost prior = flat@;
                    flat.set(idx as usize, true);
                    proof {
                        assert forall|i: int| 0 <= i < cells implies flat@[i] == (carved(
                            before,
                            width as int,
                            i,
                        ) || carved_part(room, width as int, y as int, x + 1, i)) by {
                            lemma_carved_part_step(room, width as int, y as int, x as int, i);
                        }
                    }
                    x += 1;
                }
                proof {
                    assert forall|idx: int| 0 <= idx < cells implies flat@[idx] == (carved(
                        before,
                        width as int,
                        idx,
                    ) || carved_part(room, width as int, y + 1, room.x1 as int, idx)) by {
                        lemma_carved_part_next_row(room, width as int, y as int, x as int, idx);
                    }
                }
                y += 1;
            }
            proof {
                assert forall|idx: int| 0 <= idx < cells implies flat@[idx] == carved(
                    self.rooms@.take(k + 1),
                    width as int,
                    idx,
                ) by {
                    lemma_carved_part_all(room, width as int, y as int, idx);
                    lemma_carved_take_next(self.rooms@, width as int, k as int, idx);
                }
            }
            k += 1;
        }
        proof {
            assert(self.rooms@.take(k as int) =~= self.rooms@);
        }
        flat
    }

    /// Cuts region `(rx, ry)` out of the flat grid.
    fn cut_region(&self, flat: &Vec<bool>, rx: u32, ry: u32) -> (region: Region)
        requires
            self.width * self.height <= u32::MAX,
            flat@.len() == self.width * self.height,
            forall|idx: int|
                0 <= idx < flat@.len() ==> flat@[idx] == carved(self.rooms@, self.width as int, idx),
            rx < regions_along(self.width as int),
            ry < regions_along(self.height as int),
        ensures
            region@ == region_blocks(
                self.rooms@,
                self.width as int,
                self.height as int,
                rx as int,
                ry as int,
            ),
    {
        let mut blocks: Vec<Block> = Vec::with_capacity(REGION_LEN);
        let ghost want = region_blocks(
            self.rooms@,
            self.width as int,
            self.height as int,
            rx as int,
            ry as int,
        );
        for y in 0..REGION_DIM
            invariant
                self.width * self.height <= u32::MAX,
                ry < regions_along(self.height as int),
                flat@.len() == self.width * self.height,
                forall|idx: int|
                    0 <= idx < flat@.len() ==> flat@[idx] == carved(
                        self.rooms@,
                        self.width as int,
                        idx,
                    ),
                want == region_blocks(
                    self.rooms@,
                    self.width as int,
                    self.height as int,
                    rx as int,
                    ry as int,
                ),
                blocks@.len() == y * REGION_DIM,
                forall|i: int| 0 <= i < blocks@.len() ==> blocks@[i] == want[i],
        {
            for x in 0..REGION_DIM
                invariant
                    0 <= y < REGION_DIM,
                    self.width * self.height <= u32::MAX,
                    ry < regions_along(self.height as int),
                    flat@.len() == self.width * self.height,
                    forall|idx: int|
                        0 <= idx < flat@.len() ==> flat@[idx] == carved(
                            self.rooms@,
                            self.width as int,
                            idx,
                        ),
                    want == region_blocks(
                        self.rooms@,
                        self.width as int,
                        self.height as int,
                        rx as int,
                        ry as int,
                    ),
                    blocks@.len() == y * REGION_DIM + x,
                    forall|i: int| 0 <= i < blocks@.len() ==> blocks@[i] == want[i],
            {
                let global_y: u64 = ry as u64 * (REGION_DIM as u64) + y as u64;
                let global_x: u64 = rx as u64 * (REGION_DIM as u64) + x as u64;
                assert(0 <= (global_y as int) * (self.width as int) <= self.height * self.width
                    + 15 * self.width) by (nonlinear_arith)
                    requires
                        0 <= global_y <= self.height + 15,
                        0 <= self.width,
                ;
                assert(self.height * self.width == self.width * self.height) by (nonlinear_arith);
                let idx: u64 = global_y * (self.width as u64) + global_x;
                let open = idx < flat.len() as u64 && flat[idx as usize];
                let block = if open {
                    Block { fill: BlockFill::Floor(MaterialId(0)) }
                } else {
                    Block { fill: BlockFill::Solid(MaterialId(0)) }
                };
                proof {
                    let i = y * REGION_DIM + x;
                    assert(i % (REGION_DIM as int) == x && i / (REGION_DIM as int) == y);
                    assert(idx == cell_index(
                        self.width as int,
                        rx * REGION_DIM + x,
                        ry * REGION_DIM + y,
                    ));
                    assert(block == want[i]);
                }
                blocks.push(block);
            }
        }
        assert(blocks@ =~= want);
        Region { blocks }
    }

    /// Lays the rooms out on the grid and cuts the grid into regions.
    pub fn build(self) -> (map: RegionMap<CachedRegion>)
        requires
            self.can_build(),
        ensures
            region_views(map@) == generated_regions(
                self.rooms@,
                self.width as int,
                self.height as int,
            ),
    {
        let flat = self.carve();
        let regions_wide: u32 = self.width / (REGION_DIM as u32) + 1;
        let regions_tall: u32 = self.height / (REGION_DIM as u32) + 1;
        let ghost want = generated_regions(self.rooms@, self.width as int, self.height as int);
        let mut map: RegionMap<CachedRegion> = RegionMap::new();
        for ry in 0..regions_tall
            invariant
                self.width * self.height <= u32::MAX,
                flat@.len() == self.width * self.height,
                forall|idx: int|
                    0 <= idx < flat@.len() ==> flat@[idx] == carved(
                        self.rooms@,
                        self.width as int,
                        idx,
                    ),
                regions_wide == regions_along(self.width as int),
                regions_tall == regions_along(self.height as int),
                want == generated_regions(self.rooms@, self.width as int, self.height as int),
                forall|c: (i32, i32, i32)| #[trigger]
                    map@.contains_key(c) <==> (want.contains_key(c) && c.1 < ry),
                forall|c: (i32, i32, i32)| #[trigger] map@.contains_key(c) ==> map@[c]@ == want[c],
        {
            for rx in 0..regions_wide
                invariant
                    ry < regions_tall,
                    self.width * self.height <= u32::MAX,
                    flat@.len() == self.width * self.height,
                    forall|idx: int|
                        0 <= idx < flat@.len() ==> flat@[idx] == carved(
                            self.rooms@,
                            self.width as int,
                            idx,
                        ),
                    regions_wide == regions_along(self.width as int),
                    regions_tall == regions_along(self.height as int),
                    want == generated_regions(self.rooms@, self.width as int, self.height as int),
                    forall|c: (i32, i32, i32)| #[trigger]
                        map@.contains_key(c) <==> (want.contains_key(c) && (c.1 < ry || (c.1 == ry
                            && c.0 < rx))),
                    forall|c: (i32, i32, i32)| #[trigger]
                        map@.contains_key(c) ==> map@[c]@ == want[c],
            {
                let region = self.cut_region(&flat, rx, ry);
                map.insert((rx as i32, ry as i32, 0), CachedRegion { region, last_update_tick: Tick(1) });
            }
        }
        assert(region_views(map@) =~= want);
        map
    }
}

/// What holds of the rooms of a debug map on a grid of `width` by `height`
/// tiles: there are at most 20, each lies on the grid, is 4 to 11 tiles wide
/// and 3 to 5 tiles tall.
pub open spec fn debug_rooms(rooms: Seq<Rect>, width: int, height: int) -> bool {
    &&& rooms.len() <= 20
    &&& forall|k: int|
        0 <= k < rooms.len() ==> {
            let r = #[trigger] rooms[k];
            &&& r.within(width, height)
            &&& 4 <= r.x2 - r.x1 < 12
            &&& 3 <= r.y2 - r.y1 < 6
        }
}

/// Every region of a generated map is well formed and holds nothing but
/// floor and solid rock.
pub proof fn lemma_generated_regions_plain(
    rooms: Seq<Rect>,
    width: int,
    height: int,
    c: (i32, i32, i32),
    i: int,
)
    requires
        generated_regions(rooms, width, height).contains_key(c),
        0 <= i < REGION_LEN,
    ensures
        generated_regions(rooms, width, height)[c].blocks.len() == REGION_LEN,
        generated_regions(rooms, width, height)[c].last_update_tick == Tick(1),
        generated_regions(rooms, width, height)[c].blocks[i].fill == BlockFill::Floor(MaterialId(0))
            || generated_regions(rooms, width, height)[c].blocks[i].fill == BlockFill::Solid(
            MaterialId(0),
        ),
{
}

/// Generates a map that fills the camera's window: 20 attempts to add a
/// random room, then the regions of what was collected.
#[allow(non_snake_case)]
pub fn DEBUG_gen_regions(camera: &Camera) -> (regions: RegionMap<CachedRegion>)
    requires
        camera.tiles_dims.0 > 0,
        camera.tiles_dims.1 > 0,
        camera.tiles_dims.0 + 10 <= i32::MAX,
        camera.tiles_dims.1 + 4 <= i32::MAX,
        camera.tiles_dims.0 * camera.tiles_dims.1 <= u32::MAX,
    ensures
        exists|rooms: Seq<Rect>|
            debug_rooms(rooms, camera.tiles_dims.0 as int, camera.tiles_dims.1 as int)
                && region_views(regions@) == #[trigger] generated_regions(
                rooms,
                camera.tiles_dims.0 as int,
                camera.tiles_dims.1 as int,
            ),
{
    let (num_tiles_x, num_tiles_y) = camera.tiles_dims;
    let mut map_builder = MapBuilder { width: num_tiles_x, height: num_tiles_y, rooms: Vec::new() };
    for n in 0..20u32
        invariant
            map_builder.width == num_tiles_x,
            map_builder.height == num_tiles_y,
            num_tiles_x > 0,
            num_tiles_y > 0,
            num_tiles_x + 10 <= i32::MAX,
            num_tiles_y + 4 <= i32::MAX,
            map_builder.rooms@.len() <= n,
            debug_rooms(map_builder.rooms@, num_tiles_x as int, num_tiles_y as int),
    {
        map_builder.add_random_room();
    }
    proof {
        assert forall|k: int| 0 <= k < map_builder.rooms@.len() implies (
        #[trigger] map_builder.rooms@[k]).fits_grid(num_tiles_x as int, num_tiles_y as int) by {
            map_builder.rooms@[k].lemma_within_fits_grid(num_tiles_x as int, num_tiles_y as int);
        }
    }
    let ghost rooms = map_builder.rooms@;
    let regions = map_builder.build();
    assert(region_views(regions@) == generated_regions(
        rooms,
        camera.tiles_dims.0 as int,
        camera.tiles_dims.1 as int,
    ));
    regions
}

} // verus!
