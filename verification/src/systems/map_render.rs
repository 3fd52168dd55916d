use vstd::prelude::*;

use crate::camera::{camera_wf, spec_camera_on, Camera};
use crate::components::{Color, ColorPair, DrawEntry, GLYPH_FLOOR, GLYPH_WALL};
use crate::geometry::Point;
use crate::map::{spec_in_bounds, tile_at, DungeonMap, TileType};
use crate::{DISPLAY_HEIGHT, DISPLAY_WIDTH};

verus! {

/// The draw entry for the on-grid tile at `p`: its floor or wall glyph, in
/// white on black, positioned relative to the viewport.
pub open spec fn tile_entry(tiles: Seq<TileType>, cam: Camera, p: Point) -> DrawEntry {
    DrawEntry {
        pos: Point { x: (p.x - cam.left_x) as i32, y: (p.y - cam.top_y) as i32 },
        color: ColorPair { fg: Color::White, bg: Color::Black },
        glyph: if tile_at(tiles, p) == TileType::Floor {
            GLYPH_FLOOR
        } else {
            GLYPH_WALL
        },
    }
}

/// The entries of one viewport row `y`, for the first `n` viewport columns:
/// the on-grid tiles among them, in column order.
pub open spec fn map_row_entries(tiles: Seq<TileType>, cam: Camera, y: int, n: int) -> Seq<
    DrawEntry,
>
    decreases n,
{
    if n <= 0 {
        Seq::empty()
    } else {
        let p = Point { x: (cam.left_x + n - 1) as i32, y: y as i32 };
        if spec_in_bounds(p) {
            map_row_entries(tiles, cam, y, n - 1).push(tile_entry(tiles, cam, p))
        } else {
            map_row_entries(tiles, cam, y, n - 1)
        }
    }
}

/// The map layer for the first `n_rows` viewport rows, each row running
/// over the viewport's full width.
pub open spec fn map_draw_list(tiles: Seq<TileType>, cam: Camera, n_rows: int) -> Seq<DrawEntry>
    decreases n_rows,
{
    if n_rows <= 0 {
        Seq::empty()
    } else {
        map_draw_list(tiles, cam, n_rows - 1) + map_row_entries(
            tiles,
            cam,
            cam.top_y + n_rows - 1,
            cam.right_x - cam.left_x,
        )
    }
}

/// Walk the first `n_rows` viewport rows and collect the draw entries of
/// the on-grid tiles, row by row, each row left to right.
pub(crate) fn render_rows(map: &DungeonMap, camera: &Camera, n_rows: i32) -> (out: Vec<DrawEntry>)
    requires
        map.wf(),
        camera_wf(*camera),
        0 <= n_rows <= DISPLAY_HEIGHT + 1,
    ensures
        out@ == map_draw_list(map@, *camera, n_rows as int),
{
    proof {
        let p0 = choose|p: Point| spec_in_bounds(p) && *camera == spec_camera_on(p);
        assert(camera.left_x == p0.x - DISPLAY_WIDTH / 2);
        assert(camera.right_x == p0.x + DISPLAY_WIDTH / 2);
        assert(camera.top_y == p0.y - DISPLAY_HEIGHT / 2);
    }
    let mut out: Vec<DrawEntry> = Vec::new();
    let mut row: i32 = 0;
    while row < n_rows
        invariant
            0 <= row <= n_rows,
            n_rows <= DISPLAY_HEIGHT + 1,
            map.wf(),
            camera_wf(*camera),
            camera.right_x - camera.left_x == DISPLAY_WIDTH,
            -DISPLAY_HEIGHT / 2 <= camera.top_y,
            -DISPLAY_WIDTH / 2 <= camera.left_x,
            camera.top_y < crate::SCREEN_HEIGHT,
            camera.left_x < crate::SCREEN_WIDTH,
            out@ == map_draw_list(map@, *camera, row as int),
        decreases n_rows - row,
    {
        let y = camera.top_y + row;
        let ghost row_start = out@;
        let mut col: i32 = 0;
        while col < DISPLAY_WIDTH
            invariant
                0 <= col <= DISPLAY_WIDTH,
                map.wf(),
                camera.right_x - camera.left_x == DISPLAY_WIDTH,
                -DISPLAY_HEIGHT / 2 <= camera.top_y,
                -DISPLAY_WIDTH / 2 <= camera.left_x,
                camera.top_y < crate::SCREEN_HEIGHT,
                camera.left_x < crate::SCREEN_WIDTH,
                0 <= row < n_rows <= DISPLAY_HEIGHT + 1,
                y == camera.top_y + row,
                out@ == row_start + map_row_entries(map@, *camera, y as int, col as int),
            decreases DISPLAY_WIDTH - col,
        {
            let x = camera.left_x + col;
            let p = Point { x, y };
            if map.in_bounds(p) {
                let idx = crate::map::map_idx(x, y);
                proof {
                    crate::map::lemma_idx_in_range(p);
                }
                let glyph = if store_tile(map, idx) == TileType::Floor {
                    GLYPH_FLOOR
                } else {
                    GLYPH_WALL
                };
                out.push(
                    DrawEntry {
                        pos: Point { x: x - camera.left_x, y: y - camera.top_y },
                        color: ColorPair { fg: Color::White, bg: Color::Black },
                        glyph,
                    },
                );
            }
            proof {
                assert(out@ == row_start + map_row_entries(map@, *camera, y as int, col as int + 1));
            }
            col = col + 1;
        }
        proof {
            assert(out@ == map_draw_list(map@, *camera, row as int + 1));
        }
        row = row + 1;
    }
    out
}

/// Read one tile by linear index.
fn store_tile(map: &DungeonMap, idx: usize) -> (t: TileType)
    requires
        idx < map@.len(),
    ensures
        t == map@[idx as int],
{
    map.tiles[idx]
}

/// Produce the map layer: the visible part of the grid, floors as `.` and
/// walls as `#`, each tile checked to exist before it is drawn. Drawn
/// first, below the entity layer; the whole list is rebuilt each tick.
/// The row walk is inclusive of the viewport's bottom row.
pub fn map_render(map: &DungeonMap, camera: &Camera) -> (out: Vec<DrawEntry>)
    requires
        map.wf(),
        camera_wf(*camera),
    ensures
        out@ == map_draw_list(map@, *camera, camera.bottom_y - camera.top_y + 1),
{
    proof {
        let p0 = choose|p: Point| spec_in_bounds(p) && *camera == spec_camera_on(p);
        assert(camera.bottom_y - camera.top_y == 2 * (DISPLAY_HEIGHT / 2));
    }
    let n_rows = camera.bottom_y - camera.top_y + 1;
    render_rows(map, camera, n_rows)
}

} // verus!
