use vstd::prelude::*;

use crate::geometry::Point;
use crate::{NUM_TILES, SCREEN_HEIGHT, SCREEN_WIDTH};

verus! {

/// The kind of one grid cell: every tile is a wall or a floor.
#[derive(Clone, Copy, PartialEq, Eq, Structural, Debug)]
pub enum TileType {
    Wall,
    Floor,
}

/// The dungeon grid: a row-major sequence of tiles of fixed size.
pub struct DungeonMap {
    pub tiles: Vec<TileType>,
}

impl View for DungeonMap {
    type V = Seq<TileType>;

    open spec fn view(&self) -> Seq<TileType> {
        self.tiles@
    }
}

/// True when `p` lies on the grid.
pub open spec fn spec_in_bounds(p: Point) -> bool {
    0 <= p.x < SCREEN_WIDTH && 0 <= p.y < SCREEN_HEIGHT
}

/// Linear index of an in-bounds coordinate: the grid is stored row by row.
pub open spec fn spec_idx(p: Point) -> int {
    p.y * SCREEN_WIDTH + p.x
}

/// The tile under an in-bounds coordinate.
pub open spec fn tile_at(tiles: Seq<TileType>, p: Point) -> TileType {
    tiles[spec_idx(p)]
}

/// True when an entity may stand on `p`: on the grid and on a floor tile.
pub open spec fn spec_can_enter(tiles: Seq<TileType>, p: Point) -> bool {
    spec_in_bounds(p) && tile_at(tiles, p) == TileType::Floor
}

/// An in-bounds coordinate indexes into a full tile sequence.
pub proof fn lemma_idx_in_range(p: Point)
    requires
        spec_in_bounds(p),
    ensures
        0 <= spec_idx(p) < NUM_TILES,
{
}

/// Distinct in-bounds coordinates have distinct linear indices.
pub proof fn lemma_idx_injective(p: Point, q: Point)
    requires
        spec_in_bounds(p),
        spec_in_bounds(q),
        spec_idx(p) == spec_idx(q),
    ensures
        p == q,
{
    assert(SCREEN_WIDTH * (p.y - q.y) == q.x - p.x);
}

/// Linear index of the tile at `(x, y)`.
pub fn map_idx(x: i32, y: i32) -> (idx: usize)
    requires
        0 <= x < SCREEN_WIDTH,
        0 <= y < SCREEN_HEIGHT,
    ensures
        idx == spec_idx(Point { x, y }),
{
    (y * SCREEN_WIDTH + x) as usize
}

impl DungeonMap {
    /// A map holds exactly one tile for every cell of the fixed grid.
    pub open spec fn wf(self) -> bool {
        self.tiles@.len() == NUM_TILES
    }

    /// A fresh map consisting entirely of floor tiles.
    pub fn new() -> (m: DungeonMap)
        ensures
            m.wf(),
            forall|i: int| 0 <= i < NUM_TILES ==> m@[i] == TileType::Floor,
    {
        let mut tiles: Vec<TileType> = Vec::new();
        let mut i: usize = 0;
        while i < NUM_TILES
            invariant
                i <= NUM_TILES,
                tiles@.len() == i,
                forall|j: int| 0 <= j < i ==> tiles@[j] == TileType::Floor,
            decreases NUM_TILES - i,
        {
            tiles.push(TileType::Floor);
            i = i + 1;
        }
        DungeonMap { tiles }
    }

    /// Bounds query: false for any coordinate off the grid.
    pub fn in_bounds(&self, point: Point) -> (r: bool)
        ensures
            r == spec_in_bounds(point),
    {
        point.x >= 0 && point.x < SCREEN_WIDTH && point.y >= 0 && point.y < SCREEN_HEIGHT
    }

    /// Walkability query: in bounds and on a floor tile.
    pub fn can_enter_tile(&self, point: Point) -> (r: bool)
        requires
            self.wf(),
        ensures
            r == spec_can_enter(self@, point),
    {
        self.in_bounds(point) && self.tiles[map_idx(point.x, point.y)] == TileType::Floor
    }

    /// Overwrite the tile under one in-bounds coordinate, leaving every
    /// other tile as it was.
    pub fn set_tile(&mut self, p: Point, tile: TileType)
        requires
            old(self).wf(),
            spec_in_bounds(p),
        ensures
            final(self).wf(),
            tile_at(final(self)@, p) == tile,
            forall|q: Point|
                spec_in_bounds(q) && q != p ==> tile_at(final(self)@, q) == tile_at(old(self)@, q),
    {
        let idx = map_idx(p.x, p.y);
        proof {
            lemma_idx_in_range(p);
        }
        self.tiles[idx] = tile;
        proof {
            assert forall|q: Point|
                spec_in_bounds(q) && q != p implies tile_at(self@, q) == tile_at(old(self)@, q) by {
                if spec_idx(q) == spec_idx(p) {
                    lemma_idx_injective(p, q);
                }
            }
        }
    }

    /// Produce the map layer for the visible part of the grid, relative to
    /// the viewport: floors as `.` and walls as `#`, each tile checked to
    /// exist before it is drawn. This older walk leaves out the viewport's
    /// bottom row; the scheduler's map pass draws it too.
    pub fn render(&self, camera: &crate::camera::Camera) -> (out: Vec<crate::components::DrawEntry>)
        requires
            self.wf(),
            crate::camera::camera_wf(*camera),
        ensures
            out@ == crate::systems::map_render::map_draw_list(
                self@,
                *camera,
                camera.bottom_y - camera.top_y,
            ),
    {
        proof {
            let p0 = choose|p: Point|
                spec_in_bounds(p) && *camera == crate::camera::spec_camera_on(p);
            assert(camera.bottom_y - camera.top_y == 2 * (crate::DISPLAY_HEIGHT / 2));
        }
        let n_rows = camera.bottom_y - camera.top_y;
        crate::systems::map_render::render_rows(self, camera, n_rows)
    }

    /// The linear index of `point`, or `None` when it is off the grid.
    pub fn try_idx(&self, point: Point) -> (r: Option<usize>)
        ensures
            spec_in_bounds(point) ==> r == Some(spec_idx(point) as usize),
            !spec_in_bounds(point) ==> r is None,
    {
        if !self.in_bounds(point) {
            None
        } else {
            Some(map_idx(point.x, point.y))
        }
    }
}

} // verus!
