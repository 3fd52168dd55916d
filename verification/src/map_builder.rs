use vstd::prelude::*;

use crate::geometry::{spec_center, spec_intersect, spec_point_in_rect, Point, Rect};
use crate::map::{
    spec_can_enter, spec_in_bounds, tile_at, DungeonMap, TileType,
};
use crate::reach::{
    lemma_chain_all_pairs, lemma_horizontal_reach, lemma_reach_monotone, lemma_reach_sym,
    lemma_reach_trans, lemma_vertical_reach, reachable,
};
use crate::rng::rng_range;
use vstd::seq_lib::lemma_multiset_commutative;
use bracket_random::prelude::RandomNumberGenerator;
use crate::{NUM_ROOMS, NUM_TILES, ROOM_ATTEMPT_LIMIT, SCREEN_HEIGHT, SCREEN_WIDTH};

verus! {

/// A room acceptable to the generator: a non-empty rectangle that keeps
/// every one of its tiles off the map's one-tile outer border.
pub open spec fn room_in_border(r: Rect) -> bool {
    &&& 1 <= r.x1 < r.x2 <= SCREEN_WIDTH - 1
    &&& 1 <= r.y1 < r.y2 <= SCREEN_HEIGHT - 1
}

/// No two accepted rooms intersect.
pub open spec fn rooms_disjoint(rooms: Seq<Rect>) -> bool {
    forall|i: int, j: int|
        0 <= i < j < rooms.len() ==> !spec_intersect(#[trigger] rooms[i], #[trigger] rooms[j])
}

/// Every tile of the room has been carved to floor.
pub open spec fn room_floored(tiles: Seq<TileType>, r: Rect) -> bool {
    forall|p: Point|
        spec_in_bounds(p) && spec_point_in_rect(r, p) ==> #[trigger] tile_at(tiles, p)
            == TileType::Floor
}

/// Some room of the list covers `p`.
pub open spec fn covered_by(rooms: Seq<Rect>, p: Point) -> bool {
    exists|k: int| 0 <= k < rooms.len() && spec_point_in_rect(#[trigger] rooms[k], p)
}

/// `cur` is `base` with exactly the rooms of the list carved to floor.
pub open spec fn carved_from(base: Seq<TileType>, cur: Seq<TileType>, rooms: Seq<Rect>) -> bool {
    &&& cur.len() == base.len()
    &&& forall|p: Point|
        spec_in_bounds(p) && covered_by(rooms, p) ==> #[trigger] tile_at(cur, p)
            == TileType::Floor
    &&& forall|p: Point|
        spec_in_bounds(p) && !covered_by(rooms, p) ==> #[trigger] tile_at(cur, p) == tile_at(
            base,
            p,
        )
}

/// Carving never closes a tile: whatever could be entered before still can be.
pub open spec fn floors_preserved(t1: Seq<TileType>, t2: Seq<TileType>) -> bool {
    forall|p: Point| #[trigger] spec_can_enter(t1, p) ==> spec_can_enter(t2, p)
}

/// The centre of an accepted room is one of its own tiles, and on the grid.
pub proof fn lemma_center_in_room(r: Rect)
    requires
        room_in_border(r),
    ensures
        spec_point_in_rect(r, spec_center(r)),
        spec_in_bounds(spec_center(r)),
{
    let sx = r.x1 + r.x2;
    let sy = r.y1 + r.y2;
    assert(sx / 2 * 2 + sx % 2 == sx);
    assert(0 <= sx % 2 < 2);
    assert(sy / 2 * 2 + sy % 2 == sy);
    assert(0 <= sy % 2 < 2);
}

/// Builds the dungeon: a fully partitioned map, the accepted rooms in the
/// order they were discovered, and the spawn point.
pub struct MapBuilder {
    pub map: DungeonMap,
    pub rooms: Vec<Rect>,
    pub player_start: Point,
}

impl MapBuilder {
    /// Overwrite every tile of the map with `tile`.
    pub fn fill(&mut self, tile: TileType)
        requires
            old(self).map.wf(),
        ensures
            final(self).map.wf(),
            forall|i: int| 0 <= i < NUM_TILES ==> final(self).map@[i] == tile,
            final(self).rooms == old(self).rooms,
            final(self).player_start == old(self).player_start,
    {
        let ghost rooms0 = self.rooms;
        let ghost start0 = self.player_start;
        let mut i: usize = 0;
        while i < NUM_TILES
            invariant
                i <= NUM_TILES,
                self.map.wf(),
                self.rooms == rooms0,
                self.player_start == start0,
                forall|j: int| 0 <= j < i ==> self.map.tiles@[j] == tile,
            decreases NUM_TILES - i,
        {
            self.map.tiles[i] = tile;
            i = i + 1;
        }
    }

    /// Carve the interior of one accepted room to floor.
    fn carve_room(&mut self, room: Rect)
        requires
            old(self).map.wf(),
            room_in_border(room),
        ensures
            final(self).map.wf(),
            final(self).rooms == old(self).rooms,
            final(self).player_start == old(self).player_start,
            forall|p: Point|
                spec_in_bounds(p) && spec_point_in_rect(room, p) ==> #[trigger] tile_at(
                    final(self).map@,
                    p,
                ) == TileType::Floor,
            forall|p: Point|
                spec_in_bounds(p) && !spec_point_in_rect(room, p) ==> #[trigger] tile_at(
                    final(self).map@,
                    p,
                ) == tile_at(old(self).map@, p),
    {
        let ghost rooms0 = self.rooms;
        let ghost start0 = self.player_start;
        let ghost tiles0 = self.map@;
        let mut y: i32 = room.y1;
        while y < room.y2
            invariant
                room_in_border(room),
                room.y1 <= y <= room.y2,
                self.map.wf(),
                self.rooms == rooms0,
                self.player_start == start0,
                forall|p: Point|
                    spec_in_bounds(p) && spec_point_in_rect(room, p) && p.y < y
                        ==> #[trigger] tile_at(self.map@, p) == TileType::Floor,
                forall|p: Point|
                    spec_in_bounds(p) && !(spec_point_in_rect(room, p) && p.y < y)
                        ==> #[trigger] tile_at(self.map@, p) == tile_at(tiles0, p),
            decreases room.y2 - y,
        {
            let mut x: i32 = room.x1;
            while x < room.x2
                invariant
                    room_in_border(room),
                    room.y1 <= y < room.y2,
                    room.x1 <= x <= room.x2,
                    self.map.wf(),
                    self.rooms == rooms0,
                    self.player_start == start0,
                    forall|p: Point|
                        spec_in_bounds(p) && spec_point_in_rect(room, p) && (p.y < y || (p.y == y
                            && p.x < x)) ==> #[trigger] tile_at(self.map@, p) == TileType::Floor,
                    forall|p: Point|
                        spec_in_bounds(p) && !(spec_point_in_rect(room, p) && (p.y < y || (p.y == y
                            && p.x < x))) ==> #[trigger] tile_at(self.map@, p) == tile_at(
                            tiles0,
                            p,
                        ),
                decreases room.x2 - x,
            {
                self.map.set_tile(Point { x, y }, TileType::Floor);
                x = x + 1;
            }
            y = y + 1;
        }
    }

    /// Draw candidate rooms at random until the target count is reached,
    /// accepting only candidates that do not intersect an accepted room;
    /// every accepted room is carved to floor. Gives up (returning `false`)
    /// once the attempt cap is hit, instead of redrawing forever: that is a
    /// configuration error, and the room list is then short but never empty.
    pub fn build_random_rooms(&mut self, rng: &mut RandomNumberGenerator) -> (complete: bool)
        requires
            old(self).map.wf(),
            old(self).rooms@.len() == 0,
        ensures
            final(self).map.wf(),
            final(self).player_start == old(self).player_start,
            1 <= final(self).rooms@.len() <= NUM_ROOMS,
            complete <==> final(self).rooms@.len() == NUM_ROOMS,
            forall|k: int|
                0 <= k < final(self).rooms@.len() ==> room_in_border(#[trigger] final(self).rooms@[k]),
            rooms_disjoint(final(self).rooms@),
            carved_from(old(self).map@, final(self).map@, final(self).rooms@),
    {
        let ghost tiles0 = self.map@;
        let ghost start0 = self.player_start;
        let mut attempts: usize = 0;
        while self.rooms.len() < NUM_ROOMS && attempts < ROOM_ATTEMPT_LIMIT
            invariant
                self.map.wf(),
                self.player_start == start0,
                self.rooms@.len() <= NUM_ROOMS,
                self.rooms@.len() >= 1 || attempts == 0,
                attempts <= ROOM_ATTEMPT_LIMIT,
                forall|k: int|
                    0 <= k < self.rooms@.len() ==> room_in_border(#[trigger] self.rooms@[k]),
                rooms_disjoint(self.rooms@),
                carved_from(tiles0, self.map@, self.rooms@),
            decreases ROOM_ATTEMPT_LIMIT - attempts,
        {
            attempts = attempts + 1;
            let x = rng_range(rng, 1, SCREEN_WIDTH - 10);
            let y = rng_range(rng, 1, SCREEN_HEIGHT - 10);
            let w = rng_range(rng, 2, 10);
            let h = rng_range(rng, 2, 10);
            let room = Rect::with_size(x, y, w, h);
            let mut overlap = false;
            let mut i: usize = 0;
            while i < self.rooms.len()
                invariant
                    i <= self.rooms@.len(),
                    overlap <==> exists|k: int|
                        0 <= k < i && spec_intersect(#[trigger] self.rooms@[k], room),
                decreases self.rooms@.len() - i,
            {
                let r = self.rooms[i];
                if r.intersect(&room) {
                    overlap = true;
                }
                i = i + 1;
            }
            if !overlap {
                let ghost rooms_before = self.rooms@;
                let ghost map_before = self.map@;
                self.carve_room(room);
                self.rooms.push(room);
                proof {
                    let rooms_after = self.rooms@;
                    assert(rooms_after =~= rooms_before.push(room));
                    assert forall|p: Point|
                        spec_in_bounds(p) && covered_by(rooms_after, p) implies #[trigger] tile_at(
                        self.map@,
                        p,
                    ) == TileType::Floor by {
                        let k = choose|k: int|
                            0 <= k < rooms_after.len() && spec_point_in_rect(
                                #[trigger] rooms_after[k],
                                p,
                            );
                        if k < rooms_before.len() {
                            assert(covered_by(rooms_before, p));
                            assert(tile_at(map_before, p) == TileType::Floor);
                            if !spec_point_in_rect(room, p) {
                                assert(tile_at(self.map@, p) == tile_at(map_before, p));
                            }
                        }
                    }
                    assert forall|p: Point|
                        spec_in_bounds(p) && !covered_by(rooms_after, p) implies #[trigger] tile_at(
                        self.map@,
                        p,
                    ) == tile_at(tiles0, p) by {
                        assert(rooms_after[rooms_before.len() as int] == room);
                        assert(!spec_point_in_rect(room, p));
                        assert forall|k: int|
                            0 <= k < rooms_before.len() implies !spec_point_in_rect(
                            #[trigger] rooms_before[k],
                            p,
                        ) by {
                            assert(rooms_after[k] == rooms_before[k]);
                        }
                        assert(!covered_by(rooms_before, p));
                    }
                }
            }
        }
        self.rooms.len() == NUM_ROOMS
    }

    /// Carve a one-tile-wide horizontal corridor between two x coordinates,
    /// clipped to the map bounds.
    pub fn apply_horizontal_tunnel(&mut self, x1: i32, x2: i32, y: i32)
        requires
            old(self).map.wf(),
        ensures
            final(self).map.wf(),
            final(self).rooms == old(self).rooms,
            final(self).player_start == old(self).player_start,
            forall|p: Point|
                spec_in_bounds(p) && p.y == y && vstd::math::min(x1 as int, x2 as int) <= p.x
                    <= vstd::math::max(x1 as int, x2 as int) ==> #[trigger] tile_at(
                    final(self).map@,
                    p,
                ) == TileType::Floor,
            forall|p: Point|
                spec_in_bounds(p) && !(p.y == y && vstd::math::min(x1 as int, x2 as int) <= p.x
                    <= vstd::math::max(x1 as int, x2 as int)) ==> #[trigger] tile_at(
                    final(self).map@,
                    p,
                ) == tile_at(old(self).map@, p),
    {
        let ghost rooms0 = self.rooms;
        let ghost start0 = self.player_start;
        let ghost tiles0 = self.map@;
        let lo: i32 = if x1 < x2 {
            x1
        } else {
            x2
        };
        let hi: i32 = if x1 < x2 {
            x2
        } else {
            x1
        };
        let mut x: i64 = lo as i64;
        while x <= hi as i64
            invariant
                lo == vstd::math::min(x1 as int, x2 as int),
                hi == vstd::math::max(x1 as int, x2 as int),
                lo <= x <= hi as int + 1,
                self.map.wf(),
                self.rooms == rooms0,
                self.player_start == start0,
                forall|p: Point|
                    spec_in_bounds(p) && p.y == y && lo <= p.x < x ==> #[trigger] tile_at(
                        self.map@,
                        p,
                    ) == TileType::Floor,
                forall|p: Point|
                    spec_in_bounds(p) && !(p.y == y && lo <= p.x < x) ==> #[trigger] tile_at(
                        self.map@,
                        p,
                    ) == tile_at(tiles0, p),
            decreases hi as int + 1 - x,
        {
            let p = Point { x: x as i32, y };
            if self.map.in_bounds(p) {
                self.map.set_tile(p, TileType::Floor);
            }
            x = x + 1;
        }
    }

    /// Carve a one-tile-wide vertical corridor between two y coordinates,
    /// clipped to the map bounds.
    pub fn apply_vertical_tunnel(&mut self, y1: i32, y2: i32, x: i32)
        requires
            old(self).map.wf(),
        ensures
            final(self).map.wf(),
            final(self).rooms == old(self).rooms,
            final(self).player_start == old(self).player_start,
            forall|p: Point|
                spec_in_bounds(p) && p.x == x && vstd::math::min(y1 as int, y2 as int) <= p.y
                    <= vstd::math::max(y1 as int, y2 as int) ==> #[trigger] tile_at(
                    final(self).map@,
                    p,
                ) == TileType::Floor,
            forall|p: Point|
                spec_in_bounds(p) && !(p.x == x && vstd::math::min(y1 as int, y2 as int) <= p.y
                    <= vstd::math::max(y1 as int, y2 as int)) ==> #[trigger] tile_at(
                    final(self).map@,
                    p,
                ) == tile_at(old(self).map@, p),
    {
        let ghost rooms0 = self.rooms;
        let ghost start0 = self.player_start;
        let ghost tiles0 = self.map@;
        let lo: i32 = if y1 < y2 {
            y1
        } else {
            y2
        };
        let hi: i32 = if y1 < y2 {
            y2
        } else {
            y1
        };
        let mut y: i64 = lo as i64;
        while y <= hi as i64
            invariant
                lo == vstd::math::min(y1 as int, y2 as int),
                hi == vstd::math::max(y1 as int, y2 as int),
                lo <= y <= hi as int + 1,
                self.map.wf(),
                self.rooms == rooms0,
                self.player_start == start0,
                forall|p: Point|
                    spec_in_bounds(p) && p.x == x && lo <= p.y < y ==> #[trigger] tile_at(
                        self.map@,
                        p,
                    ) == TileType::Floor,
                forall|p: Point|
                    spec_in_bounds(p) && !(p.x == x && lo <= p.y < y) ==> #[trigger] tile_at(
                        self.map@,
                        p,
                    ) == tile_at(tiles0, p),
            decreases hi as int + 1 - y,
        {
            let p = Point { x, y: y as i32 };
            if self.map.in_bounds(p) {
                self.map.set_tile(p, TileType::Floor);
            }
            y = y + 1;
        }
    }

    /// Carve an L-shaped corridor between the centres of each consecutive
    /// pair of rooms, walking a copy of the room list sorted by centre x;
    /// whether each corridor goes horizontally or vertically first is drawn
    /// at random. The room list itself is left in discovery order, and
    /// afterwards every pair of room centres is connected by floor tiles.
    pub fn build_corridors(&mut self, rng: &mut RandomNumberGenerator)
        requires
            old(self).map.wf(),
            1 <= old(self).rooms@.len(),
            forall|k: int|
                0 <= k < old(self).rooms@.len() ==> room_in_border(#[trigger] old(self).rooms@[k]),
            forall|k: int|
                0 <= k < old(self).rooms@.len() ==> room_floored(
                    old(self).map@,
                    #[trigger] old(self).rooms@[k],
                ),
        ensures
            final(self).map.wf(),
            final(self).rooms == old(self).rooms,
            final(self).player_start == old(self).player_start,
            floors_preserved(old(self).map@, final(self).map@),
            forall|i: int, j: int|
                0 <= i < final(self).rooms@.len() && 0 <= j < final(self).rooms@.len()
                    ==> reachable(
                    final(self).map@,
                    spec_center(#[trigger] final(self).rooms@[i]),
                    spec_center(#[trigger] final(self).rooms@[j]),
                ),
    {
        let ghost tiles0 = self.map@;
        let ghost rooms_vec0 = self.rooms;
        let ghost rooms0 = self.rooms@;
        let ghost start0 = self.player_start;
        let sorted = sort_rooms_by_center_x(&self.rooms);
        let ghost sortedv = sorted@;
        let mut i: usize = 1;
        while i < sorted.len()
            invariant
                self.map.wf(),
                self.rooms == rooms_vec0,
                self.rooms@ == rooms0,
                self.player_start == start0,
                sorted@ == sortedv,
                1 <= i <= vstd::math::max(sortedv.len() as int, 1),
                forall|m: int| 0 <= m < sortedv.len() ==> room_in_border(#[trigger] sortedv[m]),
                floors_preserved(tiles0, self.map@),
                forall|k: int|
                    1 <= k < i ==> reachable(
                        self.map@,
                        spec_center(#[trigger] sortedv[k - 1]),
                        spec_center(sortedv[k]),
                    ),
            decreases sortedv.len() - i,
        {
            let prev = sorted[i - 1].center();
            let newc = sorted[i].center();
            proof {
                lemma_center_in_room(sortedv[i - 1]);
                lemma_center_in_room(sortedv[i as int]);
            }
            let ghost before_pair = self.map@;
            let roll = rng_range(rng, 0, 2);
            if roll == 1 {
                self.apply_horizontal_tunnel(prev.x, newc.x, prev.y);
                let ghost m1 = self.map@;
                self.apply_vertical_tunnel(prev.y, newc.y, newc.x);
                proof {
                    assert forall|x: i32|
                        vstd::math::min(prev.x as int, newc.x as int) <= x <= vstd::math::max(
                            prev.x as int,
                            newc.x as int,
                        ) implies #[trigger] spec_can_enter(self.map@, Point { x, y: prev.y }) by {
                        let p = Point { x, y: prev.y };
                        assert(spec_in_bounds(p));
                        assert(tile_at(m1, p) == TileType::Floor);
                        if !(p.x == newc.x && vstd::math::min(prev.y as int, newc.y as int) <= p.y
                            <= vstd::math::max(prev.y as int, newc.y as int)) {
                            assert(tile_at(self.map@, p) == tile_at(m1, p));
                        }
                    }
                    assert forall|y: i32|
                        vstd::math::min(prev.y as int, newc.y as int) <= y <= vstd::math::max(
                            prev.y as int,
                            newc.y as int,
                        ) implies #[trigger] spec_can_enter(self.map@, Point { x: newc.x, y }) by {
                        let p = Point { x: newc.x, y };
                        assert(spec_in_bounds(p));
                        assert(tile_at(self.map@, p) == TileType::Floor);
                    }
                    lemma_h_then_v(self.map@, prev, newc);
                }
            } else {
                self.apply_vertical_tunnel(prev.y, newc.y, prev.x);
                let ghost m1 = self.map@;
                self.apply_horizontal_tunnel(prev.x, newc.x, newc.y);
                proof {
                    assert forall|y: i32|
                        vstd::math::min(prev.y as int, newc.y as int) <= y <= vstd::math::max(
                            prev.y as int,
                            newc.y as int,
                        ) implies #[trigger] spec_can_enter(self.map@, Point { x: prev.x, y }) by {
                        let p = Point { x: prev.x, y };
                        assert(spec_in_bounds(p));
                        assert(tile_at(m1, p) == TileType::Floor);
                        if !(p.y == newc.y && vstd::math::min(prev.x as int, newc.x as int) <= p.x
                            <= vstd::math::max(prev.x as int, newc.x as int)) {
                            assert(tile_at(self.map@, p) == tile_at(m1, p));
                        }
                    }
                    assert forall|x: i32|
                        vstd::math::min(prev.x as int, newc.x as int) <= x <= vstd::math::max(
                            prev.x as int,
                            newc.x as int,
                        ) implies #[trigger] spec_can_enter(self.map@, Point { x, y: newc.y }) by {
                        let p = Point { x, y: newc.y };
                        assert(spec_in_bounds(p));
                        assert(tile_at(self.map@, p) == TileType::Floor);
                    }
                    lemma_v_then_h(self.map@, prev, newc);
                }
            }
            proof {
                assert forall|p: Point| #[trigger]
                    spec_can_enter(before_pair, p) implies spec_can_enter(self.map@, p) by {
                    assert(spec_in_bounds(p));
                }
                assert forall|k: int| 1 <= k < i + 1 implies reachable(
                    self.map@,
                    spec_center(#[trigger] sortedv[k - 1]),
                    spec_center(sortedv[k]),
                ) by {
                    if k < i {
                        lemma_reach_monotone(
                            before_pair,
                            self.map@,
                            spec_center(sortedv[k - 1]),
                            spec_center(sortedv[k]),
                        );
                    }
                }
                assert forall|p: Point| #[trigger]
                    spec_can_enter(tiles0, p) implies spec_can_enter(self.map@, p) by {
                    assert(spec_can_enter(before_pair, p));
                }
            }
            i = i + 1;
        }
        proof {
            let tiles = self.map@;
            let centers = Seq::new(sortedv.len(), |m: int| spec_center(sortedv[m]));
            sortedv.to_multiset_ensures();
            rooms0.to_multiset_ensures();
            assert forall|m: int| 0 <= m < centers.len() implies spec_can_enter(
                tiles,
                #[trigger] centers[m],
            ) by {
                assert(sortedv.contains(sortedv[m]));
                assert(rooms0.to_multiset().count(sortedv[m]) > 0);
                assert(rooms0.contains(sortedv[m]));
                let k = choose|k: int| 0 <= k < rooms0.len() && rooms0[k] == sortedv[m];
                lemma_center_in_room(rooms0[k]);
                assert(spec_point_in_rect(rooms0[k], spec_center(rooms0[k])));
                assert(room_floored(tiles0, rooms0[k]));
                assert(spec_can_enter(tiles0, spec_center(sortedv[m])));
            }
            assert forall|k: int| 1 <= k < centers.len() implies reachable(
                tiles,
                #[trigger] centers[k - 1],
                centers[k],
            ) by {
                assert(reachable(tiles, spec_center(sortedv[k - 1]), spec_center(sortedv[k])));
            }
            lemma_chain_all_pairs(tiles, centers);
            assert forall|i2: int, j2: int|
                0 <= i2 < rooms0.len() && 0 <= j2 < rooms0.len() implies reachable(
                tiles,
                spec_center(#[trigger] rooms0[i2]),
                spec_center(#[trigger] rooms0[j2]),
            ) by {
                assert(rooms0.contains(rooms0[i2]));
                assert(sortedv.to_multiset().count(rooms0[i2]) > 0);
                assert(sortedv.contains(rooms0[i2]));
                let mi = choose|m: int| 0 <= m < sortedv.len() && sortedv[m] == rooms0[i2];
                assert(rooms0.contains(rooms0[j2]));
                assert(sortedv.to_multiset().count(rooms0[j2]) > 0);
                assert(sortedv.contains(rooms0[j2]));
                let mj = choose|m: int| 0 <= m < sortedv.len() && sortedv[m] == rooms0[j2];
                assert(reachable(tiles, centers[mi], centers[mj]));
            }
        }
    }

    /// Generate a complete dungeon from the given random source: fill the
    /// grid with wall, place the rooms, connect them with corridors, and put
    /// the spawn point at the centre of the first-discovered room. Returns
    /// `None` only when the room pass gives up (a configuration error).
    pub fn new(rng: &mut RandomNumberGenerator) -> (result: Option<MapBuilder>)
        ensures
            result matches Some(mb) ==> {
                &&& mb.map.wf()
                &&& mb.map@.len() == NUM_TILES
                &&& forall|i: int|
                    0 <= i < NUM_TILES ==> (mb.map@[i] == TileType::Wall || mb.map@[i]
                        == TileType::Floor)
                &&& mb.rooms@.len() == NUM_ROOMS
                &&& forall|k: int|
                    0 <= k < mb.rooms@.len() ==> room_in_border(#[trigger] mb.rooms@[k])
                &&& rooms_disjoint(mb.rooms@)
                &&& mb.player_start == spec_center(mb.rooms@[0])
                &&& spec_can_enter(mb.map@, mb.player_start)
                &&& forall|k: int|
                    0 <= k < mb.rooms@.len() ==> room_floored(mb.map@, #[trigger] mb.rooms@[k])
                &&& forall|i: int, j: int|
                    0 <= i < mb.rooms@.len() && 0 <= j < mb.rooms@.len() ==> reachable(
                        mb.map@,
                        spec_center(#[trigger] mb.rooms@[i]),
                        spec_center(#[trigger] mb.rooms@[j]),
                    )
            },
    {
        let mut mb = MapBuilder {
            map: DungeonMap::new(),
            rooms: Vec::new(),
            player_start: Point::zero(),
        };
        mb.fill(TileType::Wall);
        let complete = mb.build_random_rooms(rng);
        if !complete {
            return None;
        }
        let ghost after_rooms = mb.map@;
        proof {
            assert forall|k: int| 0 <= k < mb.rooms@.len() implies room_floored(
                mb.map@,
                #[trigger] mb.rooms@[k],
            ) by {
                assert forall|p: Point|
                    spec_in_bounds(p) && spec_point_in_rect(mb.rooms@[k], p) implies #[trigger] tile_at(
                    mb.map@,
                    p,
                ) == TileType::Floor by {
                    assert(covered_by(mb.rooms@, p));
                }
            }
        }
        mb.build_corridors(rng);
        let first = mb.rooms[0];
        proof {
            lemma_center_in_room(first);
            assert(spec_can_enter(after_rooms, spec_center(first)));
        }
        let start = first.center();
        mb.player_start = start;
        proof {
            assert forall|k: int| 0 <= k < mb.rooms@.len() implies room_floored(
                mb.map@,
                #[trigger] mb.rooms@[k],
            ) by {
                assert forall|p: Point|
                    spec_in_bounds(p) && spec_point_in_rect(mb.rooms@[k], p) implies #[trigger] tile_at(
                    mb.map@,
                    p,
                ) == TileType::Floor by {
                    assert(spec_can_enter(after_rooms, p));
                    assert(spec_can_enter(mb.map@, p));
                }
            }
        }
        Some(mb)
    }
}


/// Inserting a room at its insertion point keeps the copied list sorted,
/// keeps every room inside the border, and adds exactly that room to the
/// list's contents.
proof fn lemma_sorted_insert(before: Seq<Rect>, cur: Seq<Rect>, room: Rect, pos: int)
    requires
        0 <= pos <= before.len(),
        cur == before.insert(pos, room),
        sorted_by_center_x(before),
        forall|q: int| 0 <= q < pos ==> spec_center(#[trigger] before[q]).x <= spec_center(room).x,
        pos < before.len() ==> spec_center(before[pos]).x > spec_center(room).x,
        forall|m: int| 0 <= m < before.len() ==> room_in_border(#[trigger] before[m]),
        room_in_border(room),
    ensures
        cur.len() == before.len() + 1,
        sorted_by_center_x(cur),
        forall|m: int| 0 <= m < cur.len() ==> room_in_border(#[trigger] cur[m]),
        cur.to_multiset() == before.to_multiset().insert(room),
{
    before.insert_ensures(pos, room);
    assert(cur[pos] == room);
    assert forall|i: int, j: int| 0 <= i < j < cur.len() implies spec_center(
        #[trigger] cur[i],
    ).x <= spec_center(#[trigger] cur[j]).x by {
        if i < pos {
            assert(cur[i] == before[i]);
        }
        if j < pos {
            assert(cur[j] == before[j]);
        }
        if i > pos {
            assert(cur[i] == before[i - 1]);
        }
        if j > pos {
            assert(cur[j] == before[j - 1]);
        }
        if i == pos && j > pos {
            assert(spec_center(before[pos]).x > spec_center(room).x);
            assert(spec_center(before[j - 1]).x >= spec_center(before[pos]).x);
        }
    }
    assert forall|m: int| 0 <= m < cur.len() implies room_in_border(#[trigger] cur[m]) by {
        if m < pos {
            assert(cur[m] == before[m]);
        } else if m > pos {
            assert(cur[m] == before[m - 1]);
        }
    }
    let a = before.subrange(0, pos);
    let b = before.subrange(pos, before.len() as int);
    assert(before =~= a + b);
    assert(cur =~= a.push(room) + b);
    lemma_multiset_commutative(a, b);
    lemma_multiset_commutative(a.push(room), b);
    a.to_multiset_ensures();
    assert(cur.to_multiset() =~= before.to_multiset().insert(room));
}

/// The rooms in the order the corridor pass walks them: ascending centre x.
pub open spec fn sorted_by_center_x(s: Seq<Rect>) -> bool {
    forall|i: int, j: int|
        0 <= i < j < s.len() ==> spec_center(#[trigger] s[i]).x <= spec_center(#[trigger] s[j]).x
}

/// A copy of the room list ordered by centre x coordinate, ascending.
/// Insertion after equal keys keeps the order of tied rooms stable.
/// The original list is left as it stands.
pub fn sort_rooms_by_center_x(rooms: &Vec<Rect>) -> (sorted: Vec<Rect>)
    requires
        forall|k: int| 0 <= k < rooms@.len() ==> room_in_border(#[trigger] rooms@[k]),
    ensures
        sorted@.len() == rooms@.len(),
        forall|m: int| 0 <= m < sorted@.len() ==> room_in_border(#[trigger] sorted@[m]),
        sorted_by_center_x(sorted@),
        sorted@.to_multiset() == rooms@.to_multiset(),
{
    let mut sorted: Vec<Rect> = Vec::new();
    proof {
        sorted@.to_multiset_ensures();
        rooms@.take(0).to_multiset_ensures();
        assert forall|r: Rect| true implies sorted@.to_multiset().count(r) == rooms@.take(
            0,
        ).to_multiset().count(r) by {
            assert(!sorted@.contains(r));
            assert(!rooms@.take(0).contains(r));
        }
        assert(sorted@.to_multiset() =~= rooms@.take(0).to_multiset());
    }
    let mut n: usize = 0;
    while n < rooms.len()
        invariant
            n <= rooms@.len(),
            sorted@.len() == n,
            forall|k: int| 0 <= k < rooms@.len() ==> room_in_border(#[trigger] rooms@[k]),
            forall|m: int| 0 <= m < sorted@.len() ==> room_in_border(#[trigger] sorted@[m]),
            sorted_by_center_x(sorted@),
            sorted@.to_multiset() == rooms@.take(n as int).to_multiset(),
        decreases rooms@.len() - n,
    {
        let room = rooms[n];
        let c = room.center();
        let mut pos: usize = 0;
        while pos < sorted.len() && sorted[pos].center().x <= c.x
            invariant
                pos <= sorted@.len(),
                c == spec_center(room),
                forall|m: int| 0 <= m < sorted@.len() ==> room_in_border(#[trigger] sorted@[m]),
                forall|q: int| 0 <= q < pos ==> spec_center(#[trigger] sorted@[q]).x <= c.x,
            decreases sorted@.len() - pos,
        {
            pos = pos + 1;
        }
        let ghost before = sorted@;
        sorted.insert(pos, room);
        proof {
            lemma_sorted_insert(before, sorted@, room, pos as int);
            assert(rooms@.take(n as int + 1) =~= rooms@.take(n as int).push(rooms@[n as int]));
            rooms@.take(n as int).to_multiset_ensures();
            assert(rooms@.take(n as int + 1).to_multiset() =~= rooms@.take(
                n as int,
            ).to_multiset().insert(room));
            assert(sorted@.to_multiset() =~= rooms@.take(n as int + 1).to_multiset());
        }
        n = n + 1;
    }
    proof {
        assert(rooms@.take(rooms@.len() as int) =~= rooms@);
    }
    sorted
}


/// An L-shaped corridor that runs horizontally from `a`, then vertically to
/// `b`, connects the two when every tile on both legs is enterable.
proof fn lemma_h_then_v(tiles: Seq<TileType>, a: Point, b: Point)
    requires
        spec_in_bounds(a),
        spec_in_bounds(b),
        forall|x: i32|
            vstd::math::min(a.x as int, b.x as int) <= x <= vstd::math::max(a.x as int, b.x as int)
                ==> #[trigger] spec_can_enter(tiles, Point { x, y: a.y }),
        forall|y: i32|
            vstd::math::min(a.y as int, b.y as int) <= y <= vstd::math::max(a.y as int, b.y as int)
                ==> #[trigger] spec_can_enter(tiles, Point { x: b.x, y }),
    ensures
        reachable(tiles, a, b),
{
    let corner = Point { x: b.x, y: a.y };
    if a.x <= b.x {
        lemma_horizontal_reach(tiles, a.x, b.x, a.y);
        assert(reachable(tiles, a, corner));
    } else {
        lemma_horizontal_reach(tiles, b.x, a.x, a.y);
        lemma_reach_sym(tiles, corner, a);
    }
    if a.y <= b.y {
        lemma_vertical_reach(tiles, a.y, b.y, b.x);
        assert(reachable(tiles, corner, b));
    } else {
        lemma_vertical_reach(tiles, b.y, a.y, b.x);
        lemma_reach_sym(tiles, b, corner);
    }
    lemma_reach_trans(tiles, a, corner, b);
}

/// An L-shaped corridor that runs vertically from `a`, then horizontally to
/// `b`, connects the two when every tile on both legs is enterable.
proof fn lemma_v_then_h(tiles: Seq<TileType>, a: Point, b: Point)
    requires
        spec_in_bounds(a),
        spec_in_bounds(b),
        forall|y: i32|
            vstd::math::min(a.y as int, b.y as int) <= y <= vstd::math::max(a.y as int, b.y as int)
                ==> #[trigger] spec_can_enter(tiles, Point { x: a.x, y }),
        forall|x: i32|
            vstd::math::min(a.x as int, b.x as int) <= x <= vstd::math::max(a.x as int, b.x as int)
                ==> #[trigger] spec_can_enter(tiles, Point { x, y: b.y }),
    ensures
        reachable(tiles, a, b),
{
    let corner = Point { x: a.x, y: b.y };
    if a.y <= b.y {
        lemma_vertical_reach(tiles, a.y, b.y, a.x);
        assert(reachable(tiles, a, corner));
    } else {
        lemma_vertical_reach(tiles, b.y, a.y, a.x);
        lemma_reach_sym(tiles, corner, a);
    }
    if a.x <= b.x {
        lemma_horizontal_reach(tiles, a.x, b.x, b.y);
        assert(reachable(tiles, corner, b));
    } else {
        lemma_horizontal_reach(tiles, b.x, a.x, b.y);
        lemma_reach_sym(tiles, b, corner);
    }
    lemma_reach_trans(tiles, a, corner, b);
}

} // verus!
