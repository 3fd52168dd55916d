use vstd::prelude::*;

use bracket_random::prelude::RandomNumberGenerator;

use crate::components::{Actor, Edit, Entity, WantsToMove};
use crate::geometry::{spec_step, step, unit_step, Direction};
use crate::rng::rng_range;
use crate::store::EntityStore;

verus! {

/// The ids of the randomly-wandering entities among the first `n` slots,
/// in slot order.
pub open spec fn mover_ids(actors: Seq<Option<Actor>>, n: int) -> Seq<int>
    decreases n,
{
    if n <= 0 {
        Seq::empty()
    } else if actors[n - 1] is Some && actors[n - 1]->Some_0.moving_randomly is Some {
        mover_ids(actors, n - 1).push(n - 1)
    } else {
        mover_ids(actors, n - 1)
    }
}

/// Every listed id names a live wanderer in range.
pub proof fn lemma_mover_ids_range(actors: Seq<Option<Actor>>, n: int)
    requires
        n <= actors.len(),
    ensures
        forall|k: int|
            0 <= k < mover_ids(actors, n).len() ==> 0 <= #[trigger] mover_ids(actors, n)[k] < n
                && actors[mover_ids(actors, n)[k]] is Some
                && actors[mover_ids(actors, n)[k]]->Some_0.moving_randomly is Some,
    decreases n,
{
    if n > 0 {
        lemma_mover_ids_range(actors, n - 1);
    }
}

/// For every randomly-wandering entity, draw one of the four unit
/// directions (independently, with no memory) and queue a move intent
/// toward the resulting neighbour tile: one intent per wanderer, in slot
/// order. Legality is not checked here; the movement system that resolves
/// the intents is the one place that checks walkability.
pub fn random_move(store: &mut EntityStore, rng: &mut RandomNumberGenerator)
    requires
        old(store).wf(),
        old(store).edits@.len() == 0,
    ensures
        final(store).actors@ == old(store).actors@,
        final(store).edits@.len() == mover_ids(
            old(store).actors@,
            old(store).actors@.len() as int,
        ).len(),
        forall|k: int|
            0 <= k < final(store).edits@.len() ==> ((#[trigger] final(store).edits@[k]) matches Edit::Intent(
                w,
            ) && w.entity.id == mover_ids(old(store).actors@, old(store).actors@.len() as int)[k]
                && unit_step(old(store).actor(w.entity.id as int).pos, w.destination)),
        final(store).wf(),
{
    let ghost actors0 = store.actors@;
    proof {
        assert forall|ee: int|
            0 <= ee < actors0.len() && actors0[ee] is Some implies crate::map::spec_in_bounds(
            (#[trigger] actors0[ee])->Some_0.pos,
        ) by {
            assert(store.alive(ee));
        }
    }
    let n = store.actors.len();
    let mut e: usize = 0;
    while e < n
        invariant
            e <= n,
            n == store.actors@.len(),
            store.actors@ == actors0,
            forall|ee: int|
                0 <= ee < actors0.len() && (#[trigger] actors0[ee]) is Some
                    ==> crate::map::spec_in_bounds(actors0[ee]->Some_0.pos),
            store.edits@.len() == mover_ids(actors0, e as int).len(),
            forall|k: int|
                0 <= k < store.edits@.len() ==> ((#[trigger] store.edits@[k]) matches Edit::Intent(
                    w,
                ) && w.entity.id == mover_ids(actors0, e as int)[k] && unit_step(
                    actors0[w.entity.id as int]->Some_0.pos,
                    w.destination,
                ) && actors0[w.entity.id as int] is Some),
        decreases n - e,
    {
        let ghost edits_before = store.edits@;
        let slot = store.actors[e];
        if let Some(a) = slot {
            if a.moving_randomly.is_some() {
                proof {
                    assert(store.alive(e as int));
                }
                let roll = rng_range(rng, 0, 4);
                let dir = if roll == 0 {
                    Direction::Left
                } else if roll == 1 {
                    Direction::Right
                } else if roll == 2 {
                    Direction::Up
                } else {
                    Direction::Down
                };
                let destination = step(a.pos, dir);
                store.edits.push(
                    Edit::Intent(WantsToMove { entity: Entity { id: e }, destination }),
                );
                proof {
                    assert(destination == spec_step(a.pos, dir));
                    assert(unit_step(a.pos, destination));
                }
            }
        }
        proof {
            assert(mover_ids(actors0, e as int + 1) == (if actors0[e as int] is Some
                && actors0[e as int]->Some_0.moving_randomly is Some {
                mover_ids(actors0, e as int).push(e as int)
            } else {
                mover_ids(actors0, e as int)
            }));
            assert forall|k: int|
                0 <= k < store.edits@.len() implies (#[trigger] store.edits@[k]) matches Edit::Intent(
                w,
            ) && w.entity.id == mover_ids(actors0, e as int + 1)[k] && unit_step(
                actors0[w.entity.id as int]->Some_0.pos,
                w.destination,
            ) && actors0[w.entity.id as int] is Some by {
                if k < edits_before.len() {
                    assert(store.edits@[k] == edits_before[k]);
                }
            }
        }
        e = e + 1;
    }
    proof {
        assert forall|ee: int| #[trigger] store.alive(ee) implies crate::map::spec_in_bounds(
            store.actor(ee).pos,
        ) by {
            assert(actors0[ee] is Some);
        }
        assert forall|k: int|
            0 <= k < store.edits@.len() implies match #[trigger] store.edits@[k] {
            Edit::Intent(w) => w.entity.id < store.actors@.len() && store.actors@[w.entity.id as int] is Some
                && crate::store::not_removed_before(store.edits@, k, w.entity.id),
            Edit::Remove(r) => r.id < store.actors@.len(),
        } by {
            lemma_mover_ids_range(actors0, n as int);
            assert(store.edits@[k] matches Edit::Intent(w2)
                && w2.entity.id == mover_ids(actors0, n as int)[k]);
            assert forall|j: int| 0 <= j < k implies !crate::store::edit_removes(
                #[trigger] store.edits@[j],
                Entity { id: store.edits@[k]->Intent_0.entity.id },
            ) by {
                assert(store.edits@[j] is Intent);
            }
        }
    }
}

} // verus!
