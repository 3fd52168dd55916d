pub mod collisions;
pub mod end_turn;
pub mod entity_render;
pub mod map_render;
pub mod movement;
pub mod player_input;
pub mod random_move;

use vstd::prelude::*;

use bracket_random::prelude::RandomNumberGenerator;

use crate::camera::{camera_wf, Camera};
use crate::components::{DrawEntry, Edit, TurnState};
use crate::geometry::Direction;
use crate::map::DungeonMap;
use crate::store::{flush, lemma_apply_intents_tags, presence_and_tags, tags_view, EntityStore};
use crate::systems::collisions::{collides, lemma_collisions_flush, surviving};
use crate::systems::entity_render::{entity_draw_list, entity_render};
use crate::systems::map_render::{map_draw_list, map_render};

verus! {

/// One step of a phase pipeline.
#[derive(Clone, Copy, PartialEq, Eq, Structural, Debug)]
pub enum Step {
    PlayerInput,
    Collisions,
    RandomMove,
    Flush,
    MapRender,
    EntityRender,
    EndTurn,
}

/// A phase's pipeline: the steps it runs, in order, each run to completion
/// before the next.
pub struct Schedule {
    pub steps: Vec<Step>,
}

/// The pipeline run while awaiting input: capture input (which may queue
/// the player's move intent and advance the state), flush, then render.
/// Waiting itself does not advance the turn state.
pub fn build_input_scheduler() -> (s: Schedule)
    ensures
        s.steps@ == seq![Step::PlayerInput, Step::Flush, Step::MapRender, Step::EntityRender],
{
    let mut steps: Vec<Step> = Vec::new();
    steps.push(Step::PlayerInput);
    steps.push(Step::Flush);
    steps.push(Step::MapRender);
    steps.push(Step::EntityRender);
    proof {
        assert(steps@ =~= seq![
            Step::PlayerInput,
            Step::Flush,
            Step::MapRender,
            Step::EntityRender,
        ]);
    }
    Schedule { steps }
}

/// The player's turn: resolve collisions, flush, render, advance the state.
pub fn build_player_scheduler() -> (s: Schedule)
    ensures
        s.steps@ == seq![
            Step::Collisions,
            Step::Flush,
            Step::MapRender,
            Step::EntityRender,
            Step::EndTurn,
        ],
{
    let mut steps: Vec<Step> = Vec::new();
    steps.push(Step::Collisions);
    steps.push(Step::Flush);
    steps.push(Step::MapRender);
    steps.push(Step::EntityRender);
    steps.push(Step::EndTurn);
    proof {
        assert(steps@ =~= seq![
            Step::Collisions,
            Step::Flush,
            Step::MapRender,
            Step::EntityRender,
            Step::EndTurn,
        ]);
    }
    Schedule { steps }
}

/// The monsters' turn: queue random moves, flush, resolve collisions,
/// flush again, render, advance the state.
pub fn build_monster_scheduler() -> (s: Schedule)
    ensures
        s.steps@ == seq![
            Step::RandomMove,
            Step::Flush,
            Step::Collisions,
            Step::Flush,
            Step::MapRender,
            Step::EntityRender,
            Step::EndTurn,
        ],
{
    let mut steps: Vec<Step> = Vec::new();
    steps.push(Step::RandomMove);
    steps.push(Step::Flush);
    steps.push(Step::Collisions);
    steps.push(Step::Flush);
    steps.push(Step::MapRender);
    steps.push(Step::EntityRender);
    steps.push(Step::EndTurn);
    proof {
        assert(steps@ =~= seq![
            Step::RandomMove,
            Step::Flush,
            Step::Collisions,
            Step::Flush,
            Step::MapRender,
            Step::EntityRender,
            Step::EndTurn,
        ]);
    }
    Schedule { steps }
}

/// The turn state after one tick: waiting advances only on a directional
/// key; the player's and the monsters' phases advance unconditionally at
/// their end.
pub open spec fn spec_tick_state(s: TurnState, has_input: bool) -> TurnState {
    match s {
        TurnState::AwaitingInput => if has_input {
            TurnState::PlayerTurn
        } else {
            TurnState::AwaitingInput
        },
        TurnState::PlayerTurn => TurnState::MonsterTurn,
        TurnState::MonsterTurn => TurnState::AwaitingInput,
    }
}

/// The turn law: one input event drives the cycle through exactly
/// awaiting-input, the player's turn, the monsters' turn, and back to
/// awaiting input, with no phase skipped or repeated; without input the
/// waiting state stays put.
pub proof fn lemma_turn_cycle(had_input_during_player: bool, had_input_during_monster: bool)
    ensures
        spec_tick_state(TurnState::AwaitingInput, true) == TurnState::PlayerTurn,
        spec_tick_state(TurnState::PlayerTurn, had_input_during_player) == TurnState::MonsterTurn,
        spec_tick_state(TurnState::MonsterTurn, had_input_during_monster)
            == TurnState::AwaitingInput,
        spec_tick_state(TurnState::AwaitingInput, false) == TurnState::AwaitingInput,
{
}

/// The two layers handed to the host renderer each tick: the map layer
/// first, the entity layer above it.
pub struct DrawLists {
    pub map_layer: Vec<DrawEntry>,
    pub entity_layer: Vec<DrawEntry>,
}

/// Helper for the phase proofs: the store keeps exactly one player with
/// consistent tags whenever presence and tags are unchanged slot by slot.
proof fn lemma_tags_transfer(old_store: EntityStore, new_store: EntityStore)
    requires
        tags_view(new_store.actors@) == tags_view(old_store.actors@),
        old_store.one_player(),
        old_store.tags_consistent(),
    ensures
        new_store.one_player(),
        new_store.tags_consistent(),
{
    assert(tags_view(new_store.actors@).len() == new_store.actors@.len());
    assert(tags_view(old_store.actors@).len() == old_store.actors@.len());
    assert forall|e: int| #[trigger] new_store.is_player(e) implies old_store.is_player(e)
        && new_store.actor(e).enemy == old_store.actor(e).enemy
        && new_store.actor(e).moving_randomly == old_store.actor(e).moving_randomly by {
        assert(tags_view(new_store.actors@)[e] == tags_view(old_store.actors@)[e]);
        assert(presence_and_tags(new_store.actors@[e]) == presence_and_tags(
            old_store.actors@[e],
        ));
    }
    let p0 = choose|e: int| old_store.is_player(e);
    assert(tags_view(new_store.actors@)[p0] == tags_view(old_store.actors@)[p0]);
    assert(presence_and_tags(new_store.actors@[p0]) == presence_and_tags(old_store.actors@[p0]));
    assert(new_store.is_player(p0));
}

/// Run one tick: pick the active phase's pipeline by the current turn
/// state, run it to completion with its flush barriers, and hand back the
/// draw lists of the resulting state. Exactly one phase runs per tick.
pub fn tick(
    store: &mut EntityStore,
    map: &DungeonMap,
    camera: &mut Camera,
    turn_state: &mut TurnState,
    key: Option<Direction>,
    rng: &mut RandomNumberGenerator,
) -> (out: DrawLists)
    requires
        map.wf(),
        old(store).wf(),
        old(store).one_player(),
        old(store).tags_consistent(),
        old(store).edits@.len() == 0,
        camera_wf(*old(camera)),
    ensures
        *final(turn_state) == spec_tick_state(*old(turn_state), key is Some),
        final(store).wf(),
        final(store).one_player(),
        final(store).tags_consistent(),
        final(store).edits@.len() == 0,
        camera_wf(*final(camera)),
        *old(turn_state) == TurnState::AwaitingInput && key is None ==> final(store).actors@
            == old(store).actors@ && *final(camera) == *old(camera),
        final(store).actors@.len() == old(store).actors@.len(),
        forall|e: int|
            0 <= e < final(store).actors@.len() && (#[trigger] final(store).actors@[e]) is Some
                ==> presence_and_tags(final(store).actors@[e]) == presence_and_tags(
                old(store).actors@[e],
            ),
        final(store).is_player(old(store).player_id()),
        *old(turn_state) == TurnState::PlayerTurn ==> final(store).actors@ == surviving(
            old(store).actors@,
            old(store).player_pos(),
            old(store).actors@.len() as int,
        ) && *final(camera) == *old(camera),
        *old(turn_state) == TurnState::AwaitingInput ==> (key matches Some(d) ==> ({
            let w = crate::components::WantsToMove {
                entity: crate::components::Entity { id: old(store).player_id() as usize },
                destination: crate::geometry::spec_step(old(store).player_pos(), d),
            };
            final(store).actors@ == crate::store::apply_intent(
                old(store).actors@,
                *old(camera),
                w,
                map@,
            ).0 && *final(camera) == crate::store::apply_intent(
                old(store).actors@,
                *old(camera),
                w,
                map@,
            ).1
        })),
        out.map_layer@ == map_draw_list(
            map@,
            *final(camera),
            final(camera).bottom_y - final(camera).top_y + 1,
        ),
        out.entity_layer@ == entity_draw_list(
            final(store).actors@,
            *final(camera),
            final(store).actors@.len() as int,
        ),
{
    let state_now = *turn_state;
    match state_now {
        TurnState::AwaitingInput => {
            let ghost store0 = *store;
            let ghost cam0 = *camera;
            crate::systems::player_input::player_input(store, key, turn_state);
            let ghost queued = store.edits@;
            proof {
                assert forall|k: int| 0 <= k < queued.len() implies (#[trigger] queued[k])
                    is Intent by {
                    assert(k == 0);
                }
            }
            flush(store, map, camera);
            proof {
                lemma_apply_intents_tags(store0.actors@, cam0, queued, map@);
                lemma_tags_transfer(store0, *store);
                assert(tags_view(store.actors@).len() == store.actors@.len());
                assert(tags_view(store0.actors@).len() == store0.actors@.len());
                assert forall|e: int|
                    0 <= e < store.actors@.len() implies presence_and_tags(
                    #[trigger] store.actors@[e],
                ) == presence_and_tags(store0.actors@[e]) by {
                    assert(tags_view(store.actors@)[e] == tags_view(store0.actors@)[e]);
                }
                let pid = store0.player_id();
                assert(store0.is_player(pid));
                assert(presence_and_tags(store.actors@[pid]) == presence_and_tags(
                    store0.actors@[pid],
                ));
                assert(store.is_player(pid));
                if key is Some {
                    let d = key->Some_0;
                    let w = crate::components::WantsToMove {
                        entity: crate::components::Entity { id: pid as usize },
                        destination: crate::geometry::spec_step(store0.player_pos(), d),
                    };
                    assert(queued.len() == 1 && queued[0] == Edit::Intent(w));
                    assert(queued.first() == Edit::Intent(w));
                    let step = crate::store::apply_edit(store0.actors@, cam0, queued.first(), map@);
                    assert(crate::store::apply_edits(store0.actors@, cam0, queued, map@)
                        == crate::store::apply_edits(step.0, step.1, queued.drop_first(), map@));
                    assert(queued.drop_first() =~= Seq::<Edit>::empty());
                    assert(crate::store::apply_edits(step.0, step.1, queued.drop_first(), map@)
                        == (step.0, step.1));
                    assert(step == crate::store::apply_intent(store0.actors@, cam0, w, map@));
                }
            }
        },
        TurnState::PlayerTurn => {
            let ghost store0 = *store;
            let ghost cam0 = *camera;
            crate::systems::collisions::collisions(store);
            flush(store, map, camera);
            proof {
                assert(store0.actors.len() == store0.actors@.len());
                lemma_collisions_flush(
                    store0.actors@,
                    cam0,
                    store0.player_pos(),
                    store0.actors@.len() as int,
                    map@,
                );
                lemma_surviving_player(store0, *store, store0.player_pos());
                let n = store0.actors@.len() as int;
                let ppos = store0.player_pos();
                assert(store.actors@ == surviving(store0.actors@, ppos, n));
                assert forall|e: int|
                    0 <= e < store.actors@.len() && (#[trigger] store.actors@[e])
                        is Some implies presence_and_tags(store.actors@[e]) == presence_and_tags(
                    store0.actors@[e],
                ) by {
                    assert(store.actors@[e] == (if e < n && collides(store0.actors@, ppos, e) {
                        None::<crate::components::Actor>
                    } else {
                        store0.actors@[e]
                    }));
                }
                let pid = store0.player_id();
                assert(store0.is_player(pid));
                assert(store0.actor(pid).enemy is None);
                assert(!collides(store0.actors@, ppos, pid));
                assert(store.actors@[pid] == store0.actors@[pid]);
                assert(store.is_player(pid));
            }
            crate::systems::end_turn::end_turn(turn_state);
        },
        TurnState::MonsterTurn => {
            let ghost store0 = *store;
            let ghost cam0 = *camera;
            crate::systems::random_move::random_move(store, rng);
            let ghost queued = store.edits@;
            flush(store, map, camera);
            proof {
                lemma_apply_intents_tags(store0.actors@, cam0, queued, map@);
                lemma_tags_transfer(store0, *store);
            }
            let ghost store1 = *store;
            let ghost cam1 = *camera;
            crate::systems::collisions::collisions(store);
            flush(store, map, camera);
            proof {
                assert(store1.actors.len() == store1.actors@.len());
                lemma_collisions_flush(
                    store1.actors@,
                    cam1,
                    store1.player_pos(),
                    store1.actors@.len() as int,
                    map@,
                );
                lemma_surviving_player(store1, *store, store1.player_pos());
                assert(tags_view(store1.actors@).len() == store1.actors@.len());
                assert(tags_view(store0.actors@).len() == store0.actors@.len());
                assert forall|e: int|
                    0 <= e < store1.actors@.len() implies presence_and_tags(
                    #[trigger] store1.actors@[e],
                ) == presence_and_tags(store0.actors@[e]) by {
                    assert(tags_view(store1.actors@)[e] == tags_view(store0.actors@)[e]);
                }
                let n1 = store1.actors@.len() as int;
                let ppos1 = store1.player_pos();
                assert(store.actors@ == surviving(store1.actors@, ppos1, n1));
                assert forall|e: int|
                    0 <= e < store.actors@.len() && (#[trigger] store.actors@[e])
                        is Some implies presence_and_tags(store.actors@[e]) == presence_and_tags(
                    store0.actors@[e],
                ) by {
                    assert(store.actors@[e] == (if e < n1 && collides(store1.actors@, ppos1, e) {
                        None::<crate::components::Actor>
                    } else {
                        store1.actors@[e]
                    }));
                }
                let pid = store0.player_id();
                assert(store0.is_player(pid));
                assert(presence_and_tags(store1.actors@[pid]) == presence_and_tags(
                    store0.actors@[pid],
                ));
                assert(store1.is_player(pid));
                assert(store1.tags_consistent());
                assert(store1.actor(pid).enemy is None);
                assert(!collides(store1.actors@, ppos1, pid));
                assert(store.actors@[pid] == store1.actors@[pid]);
                assert(store.is_player(pid));
            }
            crate::systems::end_turn::end_turn(turn_state);
        },
    }
    let map_layer = map_render(map, camera);
    let entity_layer = entity_render(store, camera);
    DrawLists { map_layer, entity_layer }
}

/// Helper for the phase proofs: removing the colliding enemies keeps
/// exactly one player with consistent tags, because the player is never an
/// enemy.
proof fn lemma_surviving_player(old_store: EntityStore, new_store: EntityStore, ppos: crate::geometry::Point)
    requires
        new_store.actors@ == surviving(old_store.actors@, ppos, old_store.actors@.len() as int),
        old_store.one_player(),
        old_store.tags_consistent(),
    ensures
        new_store.one_player(),
        new_store.tags_consistent(),
{
    let n = old_store.actors@.len() as int;
    assert forall|e: int| #[trigger] new_store.is_player(e) implies old_store.is_player(e)
        && new_store.actor(e) == old_store.actor(e) by {
        assert(new_store.actors@[e] == (if e < n && collides(old_store.actors@, ppos, e) {
            None::<crate::components::Actor>
        } else {
            old_store.actors@[e]
        }));
    }
    let p0 = choose|e: int| old_store.is_player(e);
    assert(old_store.actor(p0).enemy is None);
    assert(!collides(old_store.actors@, ppos, p0));
    assert(new_store.actors@[p0] == old_store.actors@[p0]);
    assert(new_store.is_player(p0));
}

} // verus!
