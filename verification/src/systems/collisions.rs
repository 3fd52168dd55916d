use vstd::prelude::*;

use crate::camera::Camera;
use crate::components::{Actor, Edit, Entity};
use crate::geometry::Point;
use crate::map::TileType;
use crate::store::{apply_edits, edits_target_live, lemma_apply_edits_push, EntityStore};

verus! {

/// The entity in this slot is an enemy standing on the player's tile.
pub open spec fn collides(actors: Seq<Option<Actor>>, ppos: Point, e: int) -> bool {
    &&& 0 <= e < actors.len()
    &&& actors[e] is Some
    &&& actors[e]->Some_0.enemy is Some
    &&& actors[e]->Some_0.pos == ppos
}

/// The removal queue the collision system builds: one removal for each
/// colliding enemy among the first `n` slots, in slot order.
pub open spec fn removal_edits(actors: Seq<Option<Actor>>, ppos: Point, n: int) -> Seq<Edit>
    decreases n,
{
    if n <= 0 {
        Seq::empty()
    } else if collides(actors, ppos, n - 1) {
        removal_edits(actors, ppos, n - 1).push(Edit::Remove(Entity { id: (n - 1) as usize }))
    } else {
        removal_edits(actors, ppos, n - 1)
    }
}

/// Queue every colliding enemy for removal: any enemy whose position equals
/// the player's position, and no other entity. The store itself is not
/// changed until the next flush; all simultaneous matches are queued in the
/// same pass, in slot order.
pub fn collisions(store: &mut EntityStore)
    requires
        old(store).wf(),
        old(store).one_player(),
        old(store).edits@.len() == 0,
    ensures
        final(store).actors@ == old(store).actors@,
        final(store).edits@ == removal_edits(
            old(store).actors@,
            old(store).player_pos(),
            old(store).actors@.len() as int,
        ),
        final(store).wf(),
{
    let ghost actors0 = store.actors@;
    proof {
        assert forall|ee: int|
            0 <= ee < actors0.len() && actors0[ee] is Some implies crate::map::spec_in_bounds(
            (#[trigger] actors0[ee])->Some_0.pos,
        ) by {
            assert(store.alive(ee));
        }
    }
    let (_player, ppos) = store.find_player();
    let n = store.actors.len();
    let mut e: usize = 0;
    while e < n
        invariant
            e <= n,
            n == store.actors@.len(),
            store.actors@ == actors0,
            store.edits@ == removal_edits(actors0, ppos, e as int),
            edits_target_live(store.actors@, store.edits@),
        decreases n - e,
    {
        let ghost edits_before = store.edits@;
        let slot = store.actors[e];
        let mut pushed = false;
        if let Some(a) = slot {
            if a.enemy.is_some() && a.pos == ppos {
                store.edits.push(Edit::Remove(Entity { id: e }));
                pushed = true;
            }
        }
        proof {
            if pushed {
                assert(collides(actors0, ppos, e as int));
                assert(store.edits@ == edits_before.push(Edit::Remove(Entity { id: e })));
            } else {
                assert(!collides(actors0, ppos, e as int));
            }
            assert(store.edits@ == removal_edits(actors0, ppos, e as int + 1));
            assert forall|k: int|
                0 <= k < store.edits@.len() implies match #[trigger] store.edits@[k] {
                Edit::Intent(w) => w.entity.id < store.actors@.len() && store.actors@[w.entity.id as int] is Some
                    && crate::store::not_removed_before(store.edits@, k, w.entity.id),
                Edit::Remove(r) => r.id < store.actors@.len(),
            } by {
                if k < edits_before.len() {
                    assert(store.edits@[k] == edits_before[k]);
                }
            }
        }
        e = e + 1;
    }
    proof {
        assert forall|ee: int| #[trigger] store.alive(ee) implies crate::map::spec_in_bounds(
            store.actor(ee).pos,
        ) by {
            assert(actors0[ee] is Some);
        }
    }
}

/// The slots left after the collision pass: colliding enemies among the
/// first `n` slots are gone, every other slot is as it was.
pub open spec fn surviving(actors: Seq<Option<Actor>>, ppos: Point, n: int) -> Seq<Option<Actor>> {
    Seq::new(
        actors.len(),
        |e: int|
            if e < n && collides(actors, ppos, e) {
                None
            } else {
                actors[e]
            },
    )
}

/// The collision law: draining the removal queue removes exactly the
/// colliding enemies. Every enemy on the player's tile loses its slot, and
/// every other entity, the player included, is left exactly as it was; the
/// viewport does not move.
pub proof fn lemma_collisions_flush(
    actors: Seq<Option<Actor>>,
    cam: Camera,
    ppos: Point,
    n: int,
    tiles: Seq<TileType>,
)
    requires
        0 <= n <= actors.len(),
        actors.len() <= usize::MAX,
    ensures
        apply_edits(actors, cam, removal_edits(actors, ppos, n), tiles).0 == surviving(
            actors,
            ppos,
            n,
        ),
        apply_edits(actors, cam, removal_edits(actors, ppos, n), tiles).1 == cam,
    decreases n,
{
    if n <= 0 {
        assert(apply_edits(actors, cam, removal_edits(actors, ppos, n), tiles).0 =~= surviving(
            actors,
            ppos,
            n,
        ));
    } else {
        lemma_collisions_flush(actors, cam, ppos, n - 1, tiles);
        let prior = apply_edits(actors, cam, removal_edits(actors, ppos, n - 1), tiles);
        let out = apply_edits(actors, cam, removal_edits(actors, ppos, n), tiles);
        if collides(actors, ppos, n - 1) {
            lemma_apply_edits_push(
                actors,
                cam,
                removal_edits(actors, ppos, n - 1),
                Edit::Remove(Entity { id: (n - 1) as usize }),
                tiles,
            );
            assert(out.0 =~= surviving(actors, ppos, n - 1).update(n - 1, None::<Actor>));
            assert(surviving(actors, ppos, n - 1).update(n - 1, None::<Actor>) =~= surviving(
                actors,
                ppos,
                n,
            ));
        } else {
            assert(removal_edits(actors, ppos, n) == removal_edits(actors, ppos, n - 1));
            assert(surviving(actors, ppos, n - 1) =~= surviving(actors, ppos, n));
        }
    }
}

} // verus!
