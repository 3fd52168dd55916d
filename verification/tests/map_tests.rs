use bracket_random::prelude::RandomNumberGenerator;
use dungeon_core::geometry::Point;
use dungeon_core::map::{map_idx, DungeonMap, TileType};
use dungeon_core::map_builder::MapBuilder;
use dungeon_core::{NUM_ROOMS, NUM_TILES, SCREEN_HEIGHT, SCREEN_WIDTH};

#[test]
fn map_idx_is_row_major() {
    assert_eq!(map_idx(0, 0), 0);
    assert_eq!(map_idx(1, 0), 1);
    assert_eq!(map_idx(0, 1), SCREEN_WIDTH as usize);
    assert_eq!(map_idx(79, 49), NUM_TILES - 1);
}

#[test]
fn new_map_is_all_floor() {
    let m = DungeonMap::new();
    assert_eq!(m.tiles.len(), NUM_TILES);
    assert!(m.tiles.iter().all(|t| *t == TileType::Floor));
}

#[test]
fn in_bounds_rejects_negative_and_oversized_coordinates() {
    let m = DungeonMap::new();
    assert!(m.in_bounds(Point::new(0, 0)));
    assert!(m.in_bounds(Point::new(SCREEN_WIDTH - 1, SCREEN_HEIGHT - 1)));
    assert!(!m.in_bounds(Point::new(-1, 0)));
    assert!(!m.in_bounds(Point::new(0, -1)));
    assert!(!m.in_bounds(Point::new(SCREEN_WIDTH, 0)));
    assert!(!m.in_bounds(Point::new(0, SCREEN_HEIGHT)));
}

#[test]
fn can_enter_is_false_off_grid_and_on_walls() {
    let mut m = DungeonMap::new();
    assert!(!m.can_enter_tile(Point::new(-1, 5)));
    assert!(!m.can_enter_tile(Point::new(5, SCREEN_HEIGHT)));
    assert!(m.can_enter_tile(Point::new(5, 5)));
    m.set_tile(Point::new(5, 5), TileType::Wall);
    assert!(!m.can_enter_tile(Point::new(5, 5)));
}

#[test]
fn try_idx_fails_softly_out_of_bounds() {
    let m = DungeonMap::new();
    assert_eq!(m.try_idx(Point::new(3, 2)), Some(2 * SCREEN_WIDTH as usize + 3));
    assert_eq!(m.try_idx(Point::new(-1, 2)), None);
    assert_eq!(m.try_idx(Point::new(3, 50)), None);
}

#[test]
fn generated_map_has_full_tile_count() {
    let mut rng = RandomNumberGenerator::seeded(7);
    let mb = MapBuilder::new(&mut rng).expect("generation should succeed");
    assert_eq!(mb.map.tiles.len(), NUM_TILES);
    assert_eq!(NUM_TILES, (SCREEN_WIDTH * SCREEN_HEIGHT) as usize);
    assert!(mb
        .map
        .tiles
        .iter()
        .all(|t| *t == TileType::Wall || *t == TileType::Floor));
}

#[test]
fn generated_rooms_are_disjoint_and_inside_border() {
    let mut rng = RandomNumberGenerator::seeded(99);
    let mb = MapBuilder::new(&mut rng).expect("generation should succeed");
    assert_eq!(mb.rooms.len(), NUM_ROOMS);
    for (i, a) in mb.rooms.iter().enumerate() {
        assert!(a.x1 >= 1 && a.x2 <= SCREEN_WIDTH - 1 && a.x1 < a.x2);
        assert!(a.y1 >= 1 && a.y2 <= SCREEN_HEIGHT - 1 && a.y1 < a.y2);
        for b in mb.rooms.iter().skip(i + 1) {
            assert!(!a.intersect(b));
        }
    }
}

#[test]
fn spawn_point_is_center_of_first_room_and_walkable() {
    let mut rng = RandomNumberGenerator::seeded(1234);
    let mb = MapBuilder::new(&mut rng).expect("generation should succeed");
    let c = mb.rooms[0].center();
    assert_eq!(mb.player_start, c);
    assert!(mb.map.can_enter_tile(mb.player_start));
}

#[test]
fn same_seed_gives_identical_maps_and_rooms() {
    let mut rng1 = RandomNumberGenerator::seeded(424242);
    let mut rng2 = RandomNumberGenerator::seeded(424242);
    let a = MapBuilder::new(&mut rng1).expect("generation should succeed");
    let b = MapBuilder::new(&mut rng2).expect("generation should succeed");
    assert_eq!(a.map.tiles, b.map.tiles);
    assert_eq!(a.rooms, b.rooms);
    assert_eq!(a.player_start, b.player_start);
}

#[test]
fn different_seeds_give_different_maps() {
    let mut rng1 = RandomNumberGenerator::seeded(1);
    let mut rng2 = RandomNumberGenerator::seeded(2);
    let a = MapBuilder::new(&mut rng1).expect("generation should succeed");
    let b = MapBuilder::new(&mut rng2).expect("generation should succeed");
    assert_ne!(a.map.tiles, b.map.tiles);
}

#[test]
fn all_room_centers_are_connected_by_floor() {
    let mut rng = RandomNumberGenerator::seeded(2024);
    let mb = MapBuilder::new(&mut rng).expect("generation should succeed");
    // Floor-only flood fill from the first room's centre.
    let start = mb.rooms[0].center();
    let mut seen = vec![false; NUM_TILES];
    let mut queue = vec![start];
    seen[map_idx(start.x, start.y)] = true;
    while let Some(p) = queue.pop() {
        let neighbours = [
            Point::new(p.x - 1, p.y),
            Point::new(p.x + 1, p.y),
            Point::new(p.x, p.y - 1),
            Point::new(p.x, p.y + 1),
        ];
        for q in neighbours {
            if mb.map.can_enter_tile(q) && !seen[map_idx(q.x, q.y)] {
                seen[map_idx(q.x, q.y)] = true;
                queue.push(q);
            }
        }
    }
    for room in mb.rooms.iter() {
        let c = room.center();
        assert!(seen[map_idx(c.x, c.y)], "room centre unreachable from spawn");
    }
}

#[test]
fn tunnels_carve_clipped_floor_lines() {
    let mut mb = MapBuilder {
        map: DungeonMap::new(),
        rooms: Vec::new(),
        player_start: Point::zero(),
    };
    mb.fill(TileType::Wall);
    mb.apply_horizontal_tunnel(10, 4, 7);
    for x in 4..=10 {
        assert_eq!(mb.map.tiles[map_idx(x, 7)], TileType::Floor);
    }
    assert_eq!(mb.map.tiles[map_idx(3, 7)], TileType::Wall);
    assert_eq!(mb.map.tiles[map_idx(11, 7)], TileType::Wall);
    mb.apply_vertical_tunnel(2, 6, 20);
    for y in 2..=6 {
        assert_eq!(mb.map.tiles[map_idx(20, y)], TileType::Floor);
    }
    // Out-of-bounds parts are clipped, not a panic.
    mb.apply_vertical_tunnel(-5, 1, 0);
    assert_eq!(mb.map.tiles[map_idx(0, 0)], TileType::Floor);
    assert_eq!(mb.map.tiles[map_idx(0, 1)], TileType::Floor);
}

#[test]
fn sorting_rooms_by_center_x_is_a_sorted_rearrangement() {
    let mut rng = RandomNumberGenerator::seeded(5);
    let mb = MapBuilder::new(&mut rng).expect("generation should succeed");
    let sorted = dungeon_core::map_builder::sort_rooms_by_center_x(&mb.rooms);
    assert_eq!(sorted.len(), mb.rooms.len());
    for w in sorted.windows(2) {
        assert!(w[0].center().x <= w[1].center().x);
    }
    for r in mb.rooms.iter() {
        assert!(sorted.contains(r));
    }
}
