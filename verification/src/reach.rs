use vstd::prelude::*;

use crate::geometry::{spec_step, unit_step, Direction, Point};
use crate::map::{spec_can_enter, spec_in_bounds, TileType};
use crate::{SCREEN_HEIGHT, SCREEN_WIDTH};

verus! {

/// A walk over the grid: at least one tile, every tile enterable, and each
/// tile one orthogonal step from the one before it.
pub open spec fn is_floor_path(tiles: Seq<TileType>, path: Seq<Point>) -> bool {
    &&& path.len() >= 1
    &&& forall|i: int| 0 <= i < path.len() ==> spec_can_enter(tiles, #[trigger] path[i])
    &&& forall|i: int| 0 <= i < path.len() - 1 ==> unit_step(#[trigger] path[i], path[i + 1])
}

/// A floor-only flood fill started at `a` reaches `b`: some floor path
/// leads from the one to the other.
pub open spec fn reachable(tiles: Seq<TileType>, a: Point, b: Point) -> bool {
    exists|path: Seq<Point>|
        is_floor_path(tiles, path) && path.first() == a && path.last() == b
}

/// An enterable tile reaches itself.
pub proof fn lemma_reach_refl(tiles: Seq<TileType>, a: Point)
    requires
        spec_can_enter(tiles, a),
    ensures
        reachable(tiles, a, a),
{
    let path = seq![a];
    assert(is_floor_path(tiles, path) && path.first() == a && path.last() == a);
}

/// A single orthogonal step between enterable tiles is a path.
pub proof fn lemma_reach_step(tiles: Seq<TileType>, a: Point, b: Point)
    requires
        spec_can_enter(tiles, a),
        spec_can_enter(tiles, b),
        unit_step(a, b),
    ensures
        reachable(tiles, a, b),
{
    let path = seq![a, b];
    assert(path[0] == a && path[1] == b);
    assert(is_floor_path(tiles, path) && path.first() == a && path.last() == b);
}

/// One orthogonal step can be walked back, as long as neither end sits at
/// the edge of the coordinate space (on-grid tiles never do).
pub proof fn lemma_unit_step_sym(a: Point, b: Point)
    requires
        unit_step(a, b),
        spec_in_bounds(a),
        spec_in_bounds(b),
    ensures
        unit_step(b, a),
{
    let d = choose|d: Direction| b == spec_step(a, d);
    match d {
        Direction::Left => {
            assert(a == spec_step(b, Direction::Right));
        },
        Direction::Right => {
            assert(a == spec_step(b, Direction::Left));
        },
        Direction::Up => {
            assert(a == spec_step(b, Direction::Down));
        },
        Direction::Down => {
            assert(a == spec_step(b, Direction::Up));
        },
    }
}

/// Reachability is symmetric: a path can be walked in reverse.
pub proof fn lemma_reach_sym(tiles: Seq<TileType>, a: Point, b: Point)
    requires
        reachable(tiles, a, b),
    ensures
        reachable(tiles, b, a),
{
    let path = choose|path: Seq<Point>|
        is_floor_path(tiles, path) && path.first() == a && path.last() == b;
    let n = path.len() as int;
    let rev = Seq::new(path.len(), |i: int| path[n - 1 - i]);
    assert forall|i: int| 0 <= i < rev.len() implies spec_can_enter(tiles, #[trigger] rev[i]) by {
        assert(spec_can_enter(tiles, path[n - 1 - i]));
    }
    assert forall|i: int| 0 <= i < rev.len() - 1 implies unit_step(#[trigger] rev[i], rev[i + 1]) by {
        assert(spec_can_enter(tiles, path[n - 2 - i]));
        assert(spec_can_enter(tiles, path[n - 1 - i]));
        assert(unit_step(path[n - 2 - i], path[n - 1 - i]));
        lemma_unit_step_sym(path[n - 2 - i], path[n - 1 - i]);
    }
    assert(is_floor_path(tiles, rev) && rev.first() == b && rev.last() == a);
}

/// Reachability is transitive: two paths meeting at `b` concatenate.
pub proof fn lemma_reach_trans(tiles: Seq<TileType>, a: Point, b: Point, c: Point)
    requires
        reachable(tiles, a, b),
        reachable(tiles, b, c),
    ensures
        reachable(tiles, a, c),
{
    let p1 = choose|p: Seq<Point>|
        is_floor_path(tiles, p) && p.first() == a && p.last() == b;
    let p2 = choose|p: Seq<Point>|
        is_floor_path(tiles, p) && p.first() == b && p.last() == c;
    let n1 = p1.len() as int;
    let joined = p1 + p2.drop_first();
    assert forall|i: int| 0 <= i < joined.len() implies spec_can_enter(
        tiles,
        #[trigger] joined[i],
    ) by {
        if i < n1 {
            assert(joined[i] == p1[i]);
        } else {
            assert(joined[i] == p2[i - n1 + 1]);
            assert(spec_can_enter(tiles, p2[i - n1 + 1]));
        }
    }
    assert forall|i: int| 0 <= i < joined.len() - 1 implies unit_step(
        #[trigger] joined[i],
        joined[i + 1],
    ) by {
        if i + 1 < n1 {
            assert(joined[i] == p1[i] && joined[i + 1] == p1[i + 1]);
            assert(unit_step(p1[i], p1[i + 1]));
        } else if i + 1 == n1 {
            assert(joined[i] == p1[n1 - 1] && joined[i + 1] == p2[1]);
            assert(p1[n1 - 1] == b && p2[0] == b);
            assert(unit_step(p2[0], p2[1]));
        } else {
            assert(joined[i] == p2[i - n1 + 1] && joined[i + 1] == p2[i - n1 + 2]);
            assert(unit_step(p2[i - n1 + 1], p2[i - n1 + 2]));
        }
    }
    assert(joined.first() == a);
    assert(joined.last() == c);
    assert(is_floor_path(tiles, joined));
}

/// Carving can only open tiles up: when every enterable tile stays
/// enterable, every reachable pair stays reachable.
pub proof fn lemma_reach_monotone(t1: Seq<TileType>, t2: Seq<TileType>, a: Point, b: Point)
    requires
        forall|p: Point| spec_can_enter(t1, p) ==> spec_can_enter(t2, p),
        reachable(t1, a, b),
    ensures
        reachable(t2, a, b),
{
    let path = choose|path: Seq<Point>|
        is_floor_path(t1, path) && path.first() == a && path.last() == b;
    assert forall|i: int| 0 <= i < path.len() implies spec_can_enter(t2, #[trigger] path[i]) by {
        assert(spec_can_enter(t1, path[i]));
    }
    assert(is_floor_path(t2, path) && path.first() == a && path.last() == b);
}

/// A run of enterable tiles along one row can be walked end to end.
pub proof fn lemma_horizontal_reach(tiles: Seq<TileType>, x_lo: i32, x_hi: i32, y: i32)
    requires
        x_lo <= x_hi,
        0 <= x_lo,
        x_hi < SCREEN_WIDTH,
        0 <= y < SCREEN_HEIGHT,
        forall|x: i32| x_lo <= x <= x_hi ==> #[trigger] spec_can_enter(tiles, Point { x, y }),
    ensures
        reachable(tiles, Point { x: x_lo, y }, Point { x: x_hi, y }),
    decreases x_hi - x_lo,
{
    if x_lo == x_hi {
        lemma_reach_refl(tiles, Point { x: x_lo, y });
    } else {
        lemma_horizontal_reach(tiles, x_lo, (x_hi - 1) as i32, y);
        let prev = Point { x: (x_hi - 1) as i32, y };
        let here = Point { x: x_hi, y };
        assert(here == spec_step(prev, Direction::Right));
        lemma_reach_step(tiles, prev, here);
        lemma_reach_trans(tiles, Point { x: x_lo, y }, prev, here);
    }
}

/// A run of enterable tiles along one column can be walked end to end.
pub proof fn lemma_vertical_reach(tiles: Seq<TileType>, y_lo: i32, y_hi: i32, x: i32)
    requires
        y_lo <= y_hi,
        0 <= y_lo,
        y_hi < SCREEN_HEIGHT,
        0 <= x < SCREEN_WIDTH,
        forall|y: i32| y_lo <= y <= y_hi ==> #[trigger] spec_can_enter(tiles, Point { x, y }),
    ensures
        reachable(tiles, Point { x, y: y_lo }, Point { x, y: y_hi }),
    decreases y_hi - y_lo,
{
    if y_lo == y_hi {
        lemma_reach_refl(tiles, Point { x, y: y_lo });
    } else {
        lemma_vertical_reach(tiles, y_lo, (y_hi - 1) as i32, x);
        let prev = Point { x, y: (y_hi - 1) as i32 };
        let here = Point { x, y: y_hi };
        assert(here == spec_step(prev, Direction::Down));
        lemma_reach_step(tiles, prev, here);
        lemma_reach_trans(tiles, Point { x, y: y_lo }, prev, here);
    }
}

/// Walking a chain: the head of a list of stops reaches every later stop
/// when each consecutive pair is connected.
pub proof fn lemma_chain_prefix(tiles: Seq<TileType>, stops: Seq<Point>, k: int)
    requires
        0 <= k < stops.len(),
        forall|i: int| 0 <= i < stops.len() ==> spec_can_enter(tiles, #[trigger] stops[i]),
        forall|i: int| 1 <= i < stops.len() ==> reachable(tiles, #[trigger] stops[i - 1], stops[i]),
    ensures
        reachable(tiles, stops[0], stops[k]),
    decreases k,
{
    if k == 0 {
        lemma_reach_refl(tiles, stops[0]);
    } else {
        lemma_chain_prefix(tiles, stops, k - 1);
        assert(reachable(tiles, stops[k - 1], stops[k]));
        lemma_reach_trans(tiles, stops[0], stops[k - 1], stops[k]);
    }
}

/// When each consecutive pair of stops is connected, every pair of stops is.
pub proof fn lemma_chain_all_pairs(tiles: Seq<TileType>, stops: Seq<Point>)
    requires
        forall|i: int| 0 <= i < stops.len() ==> spec_can_enter(tiles, #[trigger] stops[i]),
        forall|i: int| 1 <= i < stops.len() ==> reachable(tiles, #[trigger] stops[i - 1], stops[i]),
    ensures
        forall|i: int, j: int|
            0 <= i < stops.len() && 0 <= j < stops.len() ==> reachable(
                tiles,
                #[trigger] stops[i],
                #[trigger] stops[j],
            ),
{
    assert forall|i: int, j: int|
        0 <= i < stops.len() && 0 <= j < stops.len() implies reachable(
        tiles,
        #[trigger] stops[i],
        #[trigger] stops[j],
    ) by {
        lemma_chain_prefix(tiles, stops, i);
        lemma_chain_prefix(tiles, stops, j);
        lemma_reach_sym(tiles, stops[0], stops[i]);
        lemma_reach_trans(tiles, stops[i], stops[0], stops[j]);
    }
}

} // verus!
