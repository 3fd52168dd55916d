use bracket_random::prelude::RandomNumberGenerator;
use dungeon_core::camera::Camera;
use dungeon_core::components::{
    DrawEntry, TurnState, WantsToMove, GLYPH_ETTIN, GLYPH_FLOOR, GLYPH_GOBLIN, GLYPH_OGRE,
    GLYPH_ORC,
};
use dungeon_core::geometry::{Direction, Point};
use dungeon_core::map::{DungeonMap, TileType};
use dungeon_core::spawner::{spawn_monster, spawn_player};
use dungeon_core::store::{flush, EntityStore};
use dungeon_core::systems::collisions::collisions;
use dungeon_core::systems::end_turn::end_turn;
use dungeon_core::systems::movement::movement;
use dungeon_core::systems::player_input::player_input;
use dungeon_core::systems::random_move::random_move;
use dungeon_core::systems::{
    build_input_scheduler, build_monster_scheduler, build_player_scheduler, tick, Step,
};
use dungeon_core::{DISPLAY_HEIGHT, DISPLAY_WIDTH};

fn open_map() -> DungeonMap {
    DungeonMap::new()
}

#[test]
fn end_turn_cycles_player_to_monster_to_awaiting() {
    let mut s = TurnState::AwaitingInput;
    end_turn(&mut s);
    assert_eq!(s, TurnState::AwaitingInput);
    s = TurnState::PlayerTurn;
    end_turn(&mut s);
    assert_eq!(s, TurnState::MonsterTurn);
    end_turn(&mut s);
    assert_eq!(s, TurnState::AwaitingInput);
}

#[test]
fn one_input_event_runs_the_full_phase_cycle() {
    let map = open_map();
    let mut store = EntityStore::new();
    let start = Point::new(40, 25);
    spawn_player(&mut store, start);
    let mut camera = Camera::new(start);
    let mut state = TurnState::AwaitingInput;
    let mut rng = RandomNumberGenerator::seeded(1);

    tick(&mut store, &map, &mut camera, &mut state, None, &mut rng);
    assert_eq!(state, TurnState::AwaitingInput);

    tick(
        &mut store,
        &map,
        &mut camera,
        &mut state,
        Some(Direction::Right),
        &mut rng,
    );
    assert_eq!(state, TurnState::PlayerTurn);
    tick(&mut store, &map, &mut camera, &mut state, None, &mut rng);
    assert_eq!(state, TurnState::MonsterTurn);
    tick(&mut store, &map, &mut camera, &mut state, None, &mut rng);
    assert_eq!(state, TurnState::AwaitingInput);
}

#[test]
fn input_moves_the_player_and_recenters_the_camera() {
    let map = open_map();
    let mut store = EntityStore::new();
    let start = Point::new(40, 25);
    let player = spawn_player(&mut store, start);
    let mut camera = Camera::new(start);
    let mut state = TurnState::AwaitingInput;
    player_input(&mut store, Some(Direction::Left), &mut state);
    assert_eq!(state, TurnState::PlayerTurn);
    flush(&mut store, &map, &mut camera);
    let moved = store.actors[player.id].unwrap();
    assert_eq!(moved.pos, Point::new(39, 25));
    assert_eq!(camera, Camera::new(Point::new(39, 25)));
}

#[test]
fn move_intent_toward_wall_leaves_position_unchanged() {
    let mut map = open_map();
    map.set_tile(Point::new(11, 10), TileType::Wall);
    let mut store = EntityStore::new();
    let player = spawn_player(&mut store, Point::new(10, 10));
    let mut camera = Camera::new(Point::new(10, 10));
    let w = WantsToMove { entity: player, destination: Point::new(11, 10) };
    movement(&w, &map, &mut camera, &mut store);
    assert_eq!(store.actors[player.id].unwrap().pos, Point::new(10, 10));
    assert_eq!(camera, Camera::new(Point::new(10, 10)));
}

#[test]
fn move_intent_toward_floor_moves_exactly_there() {
    let map = open_map();
    let mut store = EntityStore::new();
    let player = spawn_player(&mut store, Point::new(10, 10));
    let mut camera = Camera::new(Point::new(10, 10));
    let w = WantsToMove { entity: player, destination: Point::new(10, 11) };
    movement(&w, &map, &mut camera, &mut store);
    assert_eq!(store.actors[player.id].unwrap().pos, Point::new(10, 11));
    assert_eq!(camera, Camera::new(Point::new(10, 11)));
}

#[test]
fn off_grid_move_intent_is_discarded() {
    let map = open_map();
    let mut store = EntityStore::new();
    let player = spawn_player(&mut store, Point::new(0, 0));
    let mut camera = Camera::new(Point::new(0, 0));
    let w = WantsToMove { entity: player, destination: Point::new(-1, 0) };
    movement(&w, &map, &mut camera, &mut store);
    assert_eq!(store.actors[player.id].unwrap().pos, Point::new(0, 0));
}

#[test]
fn collision_removes_enemy_on_player_tile_and_spares_the_rest() {
    let map = open_map();
    let mut store = EntityStore::new();
    let mut rng = RandomNumberGenerator::seeded(3);
    let player = spawn_player(&mut store, Point::new(12, 12));
    let colliding = spawn_monster(&mut store, &mut rng, Point::new(12, 12));
    let bystander = spawn_monster(&mut store, &mut rng, Point::new(20, 20));
    let mut camera = Camera::new(Point::new(12, 12));
    collisions(&mut store);
    flush(&mut store, &map, &mut camera);
    assert!(store.actors[player.id].is_some());
    assert!(store.actors[colliding.id].is_none());
    assert!(store.actors[bystander.id].is_some());
    assert_eq!(store.actors[bystander.id].unwrap().pos, Point::new(20, 20));
}

#[test]
fn collision_removes_all_simultaneous_matches() {
    let map = open_map();
    let mut store = EntityStore::new();
    let mut rng = RandomNumberGenerator::seeded(4);
    let player = spawn_player(&mut store, Point::new(8, 8));
    let a = spawn_monster(&mut store, &mut rng, Point::new(8, 8));
    let b = spawn_monster(&mut store, &mut rng, Point::new(8, 8));
    let mut camera = Camera::new(Point::new(8, 8));
    collisions(&mut store);
    flush(&mut store, &map, &mut camera);
    assert!(store.actors[player.id].is_some());
    assert!(store.actors[a.id].is_none());
    assert!(store.actors[b.id].is_none());
}

#[test]
fn random_move_queues_one_adjacent_intent_per_wanderer() {
    let map = open_map();
    let mut store = EntityStore::new();
    let mut rng = RandomNumberGenerator::seeded(5);
    spawn_player(&mut store, Point::new(30, 30));
    let m1 = spawn_monster(&mut store, &mut rng, Point::new(10, 10));
    let m2 = spawn_monster(&mut store, &mut rng, Point::new(20, 20));
    random_move(&mut store, &mut rng);
    assert_eq!(store.edits.len(), 2);
    let mut camera = Camera::new(Point::new(30, 30));
    flush(&mut store, &map, &mut camera);
    for (ent, origin) in [(m1, Point::new(10, 10)), (m2, Point::new(20, 20))] {
        let p = store.actors[ent.id].unwrap().pos;
        let d = (p.x - origin.x).abs() + (p.y - origin.y).abs();
        assert_eq!(d, 1, "wanderer must end one orthogonal step away");
    }
}

#[test]
fn spawners_build_the_expected_actors() {
    let mut store = EntityStore::new();
    let mut rng = RandomNumberGenerator::seeded(6);
    let p = spawn_player(&mut store, Point::new(3, 4));
    let m = spawn_monster(&mut store, &mut rng, Point::new(5, 6));
    let pa = store.actors[p.id].unwrap();
    assert_eq!(pa.pos, Point::new(3, 4));
    assert_eq!(pa.render.glyph, 64);
    assert!(pa.player.is_some() && pa.enemy.is_none() && pa.moving_randomly.is_none());
    let ma = store.actors[m.id].unwrap();
    assert_eq!(ma.pos, Point::new(5, 6));
    assert!(ma.player.is_none() && ma.enemy.is_some() && ma.moving_randomly.is_some());
    assert!(
        [GLYPH_ETTIN, GLYPH_OGRE, GLYPH_ORC, GLYPH_GOBLIN].contains(&ma.render.glyph),
        "monster glyph must be one of the four monsters"
    );
}

#[test]
fn schedulers_list_the_phase_pipelines() {
    assert_eq!(
        build_input_scheduler().steps,
        vec![Step::PlayerInput, Step::Flush, Step::MapRender, Step::EntityRender]
    );
    assert_eq!(
        build_player_scheduler().steps,
        vec![
            Step::Collisions,
            Step::Flush,
            Step::MapRender,
            Step::EntityRender,
            Step::EndTurn
        ]
    );
    assert_eq!(
        build_monster_scheduler().steps,
        vec![
            Step::RandomMove,
            Step::Flush,
            Step::Collisions,
            Step::Flush,
            Step::MapRender,
            Step::EntityRender,
            Step::EndTurn
        ]
    );
}

#[test]
fn camera_centers_on_the_player() {
    let c = Camera::new(Point::new(40, 25));
    assert_eq!(c.left_x, 40 - DISPLAY_WIDTH / 2);
    assert_eq!(c.right_x, 40 + DISPLAY_WIDTH / 2);
    assert_eq!(c.top_y, 25 - DISPLAY_HEIGHT / 2);
    assert_eq!(c.bottom_y, 25 + DISPLAY_HEIGHT / 2);
    let mut c2 = c;
    c2.on_player_move(Point::new(10, 10));
    assert_eq!(c2, Camera::new(Point::new(10, 10)));
}

#[test]
fn render_layers_cover_viewport_and_entities() {
    let map = open_map();
    let mut store = EntityStore::new();
    let start = Point::new(40, 25);
    spawn_player(&mut store, start);
    let camera = Camera::new(start);
    let map_layer = dungeon_core::systems::map_render::map_render(&map, &camera);
    // The viewport is fully inside the grid here: one entry per visible tile.
    assert_eq!(
        map_layer.len(),
        (DISPLAY_WIDTH * (DISPLAY_HEIGHT / 2 * 2 + 1)) as usize
    );
    assert!(map_layer.iter().all(|e: &DrawEntry| e.glyph == GLYPH_FLOOR));
    let entity_layer = dungeon_core::systems::entity_render::entity_render(&store, &camera);
    assert_eq!(entity_layer.len(), 1);
    assert_eq!(
        entity_layer[0].pos,
        Point::new(DISPLAY_WIDTH / 2, DISPLAY_HEIGHT / 2)
    );
    let older = map.render(&camera);
    assert_eq!(older.len(), (DISPLAY_WIDTH * (DISPLAY_HEIGHT / 2 * 2)) as usize);
}

#[test]
fn rng_range_stays_inclusive_exclusive_and_varies() {
    let mut rng = RandomNumberGenerator::seeded(8);
    let mut seen = [false; 8];
    for _ in 0..200 {
        let v = dungeon_core::rng::rng_range(&mut rng, 2, 10);
        assert!((2..10).contains(&v));
        seen[(v - 2) as usize] = true;
    }
    let distinct = seen.iter().filter(|s| **s).count();
    assert!(distinct > 1, "a uniform draw must not return one value only");
}
