use vstd::prelude::*;

use crate::camera::Camera;
use crate::components::{Actor, WantsToMove};
use crate::map::{spec_can_enter, DungeonMap};
use crate::store::{apply_intent, EntityStore};

verus! {

/// Resolve one queued move intent, exactly once: when the destination tile
/// is enterable the entity's position becomes exactly the destination (and
/// the viewport recentres when that entity is the player); a move toward a
/// wall or off the grid is discarded with no effect. Movement never blocks
/// on another entity occupying the destination.
pub fn movement(
    want_move: &WantsToMove,
    map: &DungeonMap,
    camera: &mut Camera,
    store: &mut EntityStore,
)
    requires
        map.wf(),
        old(store).alive(want_move.entity.id as int),
    ensures
        final(store).actors@ == apply_intent(
            old(store).actors@,
            *old(camera),
            *want_move,
            map@,
        ).0,
        *final(camera) == apply_intent(old(store).actors@, *old(camera), *want_move, map@).1,
        final(store).edits@ == old(store).edits@,
        spec_can_enter(map@, want_move.destination) ==> final(store).alive(
            want_move.entity.id as int,
        ) && final(store).actor(want_move.entity.id as int).pos == want_move.destination,
        !spec_can_enter(map@, want_move.destination) ==> final(store).actors@ == old(
            store,
        ).actors@ && *final(camera) == *old(camera),
{
    let id = want_move.entity.id;
    let slot = store.actors[id];
    let a = slot.unwrap();
    if map.can_enter_tile(want_move.destination) {
        let moved = Actor {
            pos: want_move.destination,
            render: a.render,
            player: a.player,
            enemy: a.enemy,
            moving_randomly: a.moving_randomly,
        };
        store.actors[id] = Some(moved);
        if a.player.is_some() {
            camera.on_player_move(want_move.destination);
        }
    }
}

} // verus!
