use vstd::prelude::*;

use crate::camera::{camera_wf, spec_camera_on, Camera};
use crate::components::{Actor, Edit, Entity, Enemy, MovingRandomly, Player, WantsToMove};
use crate::geometry::Point;
use crate::map::{spec_can_enter, spec_in_bounds, DungeonMap, TileType};

verus! {

/// The effect of resolving one move intent: when the entity is still in the
/// store and the destination is enterable, its position becomes exactly the
/// destination, and the viewport recentres when that entity is the player;
/// otherwise the intent is discarded with no effect.
pub open spec fn apply_intent(
    actors: Seq<Option<Actor>>,
    cam: Camera,
    w: WantsToMove,
    tiles: Seq<TileType>,
) -> (Seq<Option<Actor>>, Camera) {
    if w.entity.id < actors.len() && actors[w.entity.id as int] is Some && spec_can_enter(
        tiles,
        w.destination,
    ) {
        let a = actors[w.entity.id as int]->Some_0;
        let moved = Actor {
            pos: w.destination,
            render: a.render,
            player: a.player,
            enemy: a.enemy,
            moving_randomly: a.moving_randomly,
        };
        (
            actors.update(w.entity.id as int, Some(moved)),
            if a.player is Some {
                spec_camera_on(w.destination)
            } else {
                cam
            },
        )
    } else {
        (actors, cam)
    }
}

/// The effect of one queued edit.
pub open spec fn apply_edit(
    actors: Seq<Option<Actor>>,
    cam: Camera,
    ed: Edit,
    tiles: Seq<TileType>,
) -> (Seq<Option<Actor>>, Camera) {
    match ed {
        Edit::Intent(w) => apply_intent(actors, cam, w, tiles),
        Edit::Remove(e) => (
            if e.id < actors.len() {
                actors.update(e.id as int, None)
            } else {
                actors
            },
            cam,
        ),
    }
}

/// The effect of draining a whole edit queue, front to back.
pub open spec fn apply_edits(
    actors: Seq<Option<Actor>>,
    cam: Camera,
    edits: Seq<Edit>,
    tiles: Seq<TileType>,
) -> (Seq<Option<Actor>>, Camera)
    decreases edits.len(),
{
    if edits.len() == 0 {
        (actors, cam)
    } else {
        let step = apply_edit(actors, cam, edits.first(), tiles);
        apply_edits(step.0, step.1, edits.drop_first(), tiles)
    }
}

/// True when `ed` removes the entity `ent`.
pub open spec fn edit_removes(ed: Edit, ent: Entity) -> bool {
    ed matches Edit::Remove(e) && e.id == ent.id
}

/// No edit among the first `upto` removes the entity with this id.
pub open spec fn not_removed_before(edits: Seq<Edit>, upto: int, id: usize) -> bool {
    forall|j: int| 0 <= j < upto ==> !edit_removes(#[trigger] edits[j], Entity { id })
}

/// Every queued intent targets an entity that is in the store and is not
/// removed by an earlier edit of the same queue, and every queued removal
/// names a valid slot: a flush then never touches a missing entity.
pub open spec fn edits_target_live(actors: Seq<Option<Actor>>, edits: Seq<Edit>) -> bool {
    forall|k: int|
        0 <= k < edits.len() ==> match #[trigger] edits[k] {
            Edit::Intent(w) => w.entity.id < actors.len() && actors[w.entity.id as int] is Some
                && not_removed_before(edits, k, w.entity.id),
            Edit::Remove(e) => e.id < actors.len(),
        }
}

/// The shared entity store: a dense arena of actors indexed by stable id
/// (a removed actor leaves a `None` slot and its id is never reused), and
/// the deferred edit queue drained at flush barriers.
pub struct EntityStore {
    pub actors: Vec<Option<Actor>>,
    pub edits: Vec<Edit>,
}

impl EntityStore {
    /// The entity with id `e` is present in the store.
    pub open spec fn alive(self, e: int) -> bool {
        0 <= e < self.actors@.len() && self.actors@[e] is Some
    }

    /// The actor data of a live entity.
    pub open spec fn actor(self, e: int) -> Actor {
        self.actors@[e]->Some_0
    }

    /// The entity is present and carries the player tag.
    pub open spec fn is_player(self, e: int) -> bool {
        self.alive(e) && self.actor(e).player is Some
    }

    /// The entity is present and carries the enemy tag.
    pub open spec fn is_enemy(self, e: int) -> bool {
        self.alive(e) && self.actor(e).enemy is Some
    }

    /// The entity is present and wanders at random.
    pub open spec fn is_mover(self, e: int) -> bool {
        self.alive(e) && self.actor(e).moving_randomly is Some
    }

    /// Every live actor stands on the grid.
    pub open spec fn positions_in_bounds(self) -> bool {
        forall|e: int| #[trigger] self.alive(e) ==> spec_in_bounds(self.actor(e).pos)
    }

    /// The store is well formed: positions on the grid and a queue whose
    /// edits target entities that are still there when they are applied.
    pub open spec fn wf(self) -> bool {
        self.positions_in_bounds() && edits_target_live(self.actors@, self.edits@)
    }

    /// The player carries no other marker: it is neither an enemy nor a
    /// random wanderer.
    pub open spec fn tags_consistent(self) -> bool {
        forall|e: int| #[trigger] self.is_player(e) ==> self.actor(e).enemy is None
            && self.actor(e).moving_randomly is None
    }

    /// Exactly one live entity carries the player tag.
    pub open spec fn one_player(self) -> bool {
        (exists|e: int| self.is_player(e)) && (forall|e1: int, e2: int|
            self.is_player(e1) && self.is_player(e2) ==> e1 == e2)
    }

    /// The id of the player.
    pub open spec fn player_id(self) -> int {
        choose|e: int| self.is_player(e)
    }

    /// The player's current position.
    pub open spec fn player_pos(self) -> Point {
        self.actor(self.player_id()).pos
    }

    /// An empty store.
    pub fn new() -> (s: EntityStore)
        ensures
            s.actors@.len() == 0,
            s.edits@.len() == 0,
            s.wf(),
    {
        EntityStore { actors: Vec::new(), edits: Vec::new() }
    }

    /// Walk the arena for the one entity tagged as the player, returning
    /// its id and current position.
    pub fn find_player(&self) -> (r: (Entity, Point))
        requires
            self.one_player(),
        ensures
            r.0.id == self.player_id(),
            self.is_player(r.0.id as int),
            r.1 == self.player_pos(),
    {
        let n = self.actors.len();
        let mut i: usize = 0;
        while i < n
            invariant
                i <= n,
                n == self.actors@.len(),
                self.one_player(),
                forall|e: int| 0 <= e < i ==> !(#[trigger] self.is_player(e)),
            decreases n - i,
        {
            let slot = self.actors[i];
            if let Some(a) = slot {
                if a.player.is_some() {
                    proof {
                        assert(self.is_player(i as int));
                        assert(self.is_player(self.player_id()));
                    }
                    return (Entity { id: i }, a.pos);
                }
            }
            proof {
                assert(!self.is_player(i as int));
            }
            i = i + 1;
        }
        proof {
            let e0 = choose|e: int| self.is_player(e);
            assert(!self.is_player(e0));
            assert(false);
        }
        (Entity { id: 0 }, Point { x: 0, y: 0 })
    }
}


/// Drain the edit queue in order against the map: each intent is resolved
/// by the movement system exactly once and each queued removal empties its
/// slot. This is the barrier between subsystems: afterwards the queue is
/// empty and the store reflects every queued edit. Should one entity have
/// queued several intents in a pass, the one enqueued last wins, since the
/// queue is applied front to back.
pub fn flush(store: &mut EntityStore, map: &DungeonMap, camera: &mut Camera)
    requires
        map.wf(),
        old(store).wf(),
    ensures
        final(store).edits@.len() == 0,
        final(store).actors@ == apply_edits(
            old(store).actors@,
            *old(camera),
            old(store).edits@,
            map@,
        ).0,
        *final(camera) == apply_edits(
            old(store).actors@,
            *old(camera),
            old(store).edits@,
            map@,
        ).1,
        final(store).wf(),
{
    let ghost actors0 = store.actors@;
    let ghost cam0 = *camera;
    let ghost edits0 = store.edits@;
    let ghost target = apply_edits(actors0, cam0, edits0, map@);
    proof {
        assert(edits0.skip(0) =~= edits0);
        assert forall|e: int|
            0 <= e < store.actors@.len() && (#[trigger] store.actors@[e])
                is Some implies spec_in_bounds(store.actors@[e]->Some_0.pos) by {
            assert(store.alive(e));
        }
    }
    let n_edits = store.edits.len();
    let mut k: usize = 0;
    while k < n_edits
        invariant
            map.wf(),
            k <= n_edits,
            n_edits == edits0.len(),
            store.edits@ == edits0,
            store.actors@.len() == actors0.len(),
            edits_target_live(actors0, edits0),
            target == apply_edits(actors0, cam0, edits0, map@),
            apply_edits(store.actors@, *camera, edits0.skip(k as int), map@) == target,
            forall|e: int|
                0 <= e < store.actors@.len() && (#[trigger] store.actors@[e]) is Some
                    ==> spec_in_bounds(store.actors@[e]->Some_0.pos),
            forall|e: int|
                0 <= e < actors0.len() && actors0[e] is Some && not_removed_before(
                    edits0,
                    k as int,
                    e as usize,
                ) ==> (#[trigger] store.actors@[e]) is Some,
        decreases n_edits - k,
    {
        let ghost prev_actors = store.actors@;
        let ghost prev_cam = *camera;
        let ed = store.edits[k];
        match ed {
            Edit::Intent(w) => {
                proof {
                    assert(actors0[w.entity.id as int] is Some);
                    assert(not_removed_before(edits0, k as int, w.entity.id));
                    assert((store.actors@[w.entity.id as int]) is Some);
                }
                crate::systems::movement::movement(&w, map, camera, store);
            },
            Edit::Remove(e) => {
                if e.id < store.actors.len() {
                    store.actors[e.id] = None;
                }
            },
        }
        proof {
            assert(edits0.skip(k as int).first() == edits0[k as int]);
            assert(edits0.skip(k as int).drop_first() =~= edits0.skip(k as int + 1));
            assert((store.actors@, *camera) == apply_edit(prev_actors, prev_cam, ed, map@));
            assert(apply_edits(store.actors@, *camera, edits0.skip(k as int + 1), map@)
                == target);
            assert forall|e: int|
                0 <= e < actors0.len() && actors0[e] is Some && not_removed_before(
                    edits0,
                    k as int + 1,
                    e as usize,
                ) implies (#[trigger] store.actors@[e]) is Some by {
                assert(not_removed_before(edits0, k as int, e as usize));
                assert(prev_actors[e] is Some);
                assert(!edit_removes(edits0[k as int], Entity { id: e as usize }));
                match ed {
                    Edit::Intent(w) => {},
                    Edit::Remove(r) => {
                        assert(r.id != e);
                    },
                }
            }
            assert forall|e: int|
                0 <= e < store.actors@.len() && (#[trigger] store.actors@[e])
                    is Some implies spec_in_bounds(store.actors@[e]->Some_0.pos) by {
                match ed {
                    Edit::Intent(w) => {
                        if e == w.entity.id as int && prev_actors[e] is Some && spec_can_enter(
                            map@,
                            w.destination,
                        ) {
                            assert(spec_in_bounds(w.destination));
                        } else {
                            assert(store.actors@[e] == prev_actors[e]);
                        }
                    },
                    Edit::Remove(r) => {
                        if e != r.id as int {
                            assert(store.actors@[e] == prev_actors[e]);
                        }
                    },
                }
            }
        }
        k = k + 1;
    }
    proof {
        assert(edits0.skip(n_edits as int) =~= Seq::<Edit>::empty());
        assert((store.actors@, *camera) == target);
    }
    store.edits.clear();
    proof {
        assert(edits_target_live(store.actors@, store.edits@));
        assert forall|e: int| #[trigger] store.alive(e) implies spec_in_bounds(
            store.actor(e).pos,
        ) by {
            assert(store.actors@[e] is Some);
        }
    }
}


/// Draining a queue with one more edit at its back is draining the queue,
/// then applying that edit.
pub proof fn lemma_apply_edits_push(
    actors: Seq<Option<Actor>>,
    cam: Camera,
    edits: Seq<Edit>,
    ed: Edit,
    tiles: Seq<TileType>,
)
    ensures
        apply_edits(actors, cam, edits.push(ed), tiles) == apply_edit(
            apply_edits(actors, cam, edits, tiles).0,
            apply_edits(actors, cam, edits, tiles).1,
            ed,
            tiles,
        ),
    decreases edits.len(),
{
    if edits.len() == 0 {
        assert(edits.push(ed).first() == ed);
        assert(edits.push(ed).drop_first() =~= Seq::<Edit>::empty());
        let step = apply_edit(actors, cam, ed, tiles);
        assert(apply_edits(actors, cam, edits.push(ed), tiles) == apply_edits(
            step.0,
            step.1,
            edits.push(ed).drop_first(),
            tiles,
        ));
        assert(apply_edits(step.0, step.1, Seq::<Edit>::empty(), tiles) == (step.0, step.1));
        assert(apply_edits(actors, cam, edits, tiles) == (actors, cam));
    } else {
        assert(edits.push(ed).first() == edits.first());
        assert(edits.push(ed).drop_first() =~= edits.drop_first().push(ed));
        let step = apply_edit(actors, cam, edits.first(), tiles);
        assert(apply_edits(actors, cam, edits.push(ed), tiles) == apply_edits(
            step.0,
            step.1,
            edits.drop_first().push(ed),
            tiles,
        ));
        assert(apply_edits(actors, cam, edits, tiles) == apply_edits(
            step.0,
            step.1,
            edits.drop_first(),
            tiles,
        ));
        lemma_apply_edits_push(step.0, step.1, edits.drop_first(), ed, tiles);
    }
}


/// What one slot shows of presence and tags, ignoring position and looks.
pub open spec fn presence_and_tags(slot: Option<Actor>) -> Option<
    (Option<Player>, Option<Enemy>, Option<MovingRandomly>),
> {
    match slot {
        Some(a) => Some((a.player, a.enemy, a.moving_randomly)),
        None => None,
    }
}

/// Presence and tags of every slot.
pub open spec fn tags_view(actors: Seq<Option<Actor>>) -> Seq<
    Option<(Option<Player>, Option<Enemy>, Option<MovingRandomly>)>,
> {
    actors.map_values(|slot: Option<Actor>| presence_and_tags(slot))
}

/// Draining a queue of nothing but move intents moves entities around but
/// neither creates nor destroys one, and never changes a tag; the viewport
/// stays centred on an on-grid position.
pub proof fn lemma_apply_intents_tags(
    actors: Seq<Option<Actor>>,
    cam: Camera,
    edits: Seq<Edit>,
    tiles: Seq<TileType>,
)
    requires
        forall|k: int| 0 <= k < edits.len() ==> (#[trigger] edits[k]) is Intent,
    ensures
        tags_view(apply_edits(actors, cam, edits, tiles).0) == tags_view(actors),
        camera_wf(cam) ==> camera_wf(apply_edits(actors, cam, edits, tiles).1),
    decreases edits.len(),
{
    if edits.len() == 0 {
    } else {
        assert(edits[0] is Intent);
        let step = apply_edit(actors, cam, edits.first(), tiles);
        assert(tags_view(step.0) =~= tags_view(actors));
        assert(camera_wf(cam) ==> camera_wf(step.1)) by {
            if camera_wf(cam) {
                let w = edits.first()->Intent_0;
                if w.entity.id < actors.len() && actors[w.entity.id as int] is Some
                    && spec_can_enter(tiles, w.destination) {
                    assert(spec_in_bounds(w.destination));
                    assert(spec_camera_on(w.destination) == spec_camera_on(w.destination));
                }
            }
        }
        assert forall|k: int| 0 <= k < edits.drop_first().len() implies (#[trigger] edits.drop_first()[k]) is Intent by {
            assert(edits[k + 1] is Intent);
        }
        lemma_apply_intents_tags(step.0, step.1, edits.drop_first(), tiles);
    }
}

} // verus!
