use vstd::prelude::*;

use crate::components::{Edit, Entity, TurnState, WantsToMove};
use crate::geometry::{spec_step, step, Direction};
use crate::store::EntityStore;

verus! {

/// Capture one tick's input: with no directional key the phase is a no-op
/// and the state stays put; with a directional key, queue a move intent for
/// the player one step in that direction and enter the player's turn.
pub fn player_input(store: &mut EntityStore, key: Option<Direction>, turn_state: &mut TurnState)
    requires
        old(store).wf(),
        old(store).one_player(),
        old(store).edits@.len() == 0,
    ensures
        final(store).actors@ == old(store).actors@,
        key is None ==> final(store).edits@ == old(store).edits@ && *final(turn_state) == *old(
            turn_state,
        ),
        key matches Some(d) ==> final(store).edits@.len() == 1 && final(store).edits@[0]
            == Edit::Intent(
            WantsToMove {
                entity: Entity { id: old(store).player_id() as usize },
                destination: spec_step(old(store).player_pos(), d),
            },
        ) && *final(turn_state) == TurnState::PlayerTurn,
        final(store).wf(),
{
    if let Some(d) = key {
        let (ent, ppos) = store.find_player();
        proof {
            assert(store.alive(store.player_id()));
        }
        let destination = step(ppos, d);
        store.edits.push(Edit::Intent(WantsToMove { entity: ent, destination }));
        *turn_state = TurnState::PlayerTurn;
        proof {
            assert forall|ee: int| #[trigger] store.alive(ee) implies crate::map::spec_in_bounds(
                store.actor(ee).pos,
            ) by {
                assert(old(store).alive(ee));
            }
            assert forall|k: int|
                0 <= k < store.edits@.len() implies match #[trigger] store.edits@[k] {
                Edit::Intent(w) => w.entity.id < store.actors@.len()
                    && store.actors@[w.entity.id as int] is Some
                    && crate::store::not_removed_before(store.edits@, k, w.entity.id),
                Edit::Remove(r) => r.id < store.actors@.len(),
            } by {
                assert(k == 0);
            }
        }
    }
}

} // verus!
