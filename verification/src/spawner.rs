use vstd::prelude::*;

use bracket_random::prelude::RandomNumberGenerator;

use crate::components::{
    Actor, Color, ColorPair, Enemy, Entity, MovingRandomly, Player, Render, GLYPH_ETTIN,
    GLYPH_GOBLIN, GLYPH_OGRE, GLYPH_ORC, GLYPH_PLAYER,
};
use crate::geometry::Point;
use crate::map::spec_in_bounds;
use crate::rng::rng_range;
use crate::store::EntityStore;

verus! {

/// The player's actor record: the `@` glyph in white on black at `pos`,
/// tagged as the player and nothing else.
pub open spec fn player_actor(pos: Point) -> Actor {
    Actor {
        pos,
        render: Render {
            color: ColorPair { fg: Color::White, bg: Color::Black },
            glyph: GLYPH_PLAYER,
        },
        player: Some(Player),
        enemy: None,
        moving_randomly: None,
    }
}

/// A monster's actor record: the given glyph in white on black at `pos`,
/// tagged as an enemy that wanders at random, and not as the player.
pub open spec fn monster_actor(pos: Point, glyph: u16) -> Actor {
    Actor {
        pos,
        render: Render { color: ColorPair { fg: Color::White, bg: Color::Black }, glyph },
        player: None,
        enemy: Some(Enemy),
        moving_randomly: Some(MovingRandomly),
    }
}

/// Create the adventurer at the spawn point.
pub fn spawn_player(store: &mut EntityStore, pos: Point) -> (ent: Entity)
    requires
        spec_in_bounds(pos),
    ensures
        final(store).actors@ == old(store).actors@.push(Some(player_actor(pos))),
        final(store).edits@ == old(store).edits@,
        ent.id == old(store).actors@.len(),
{
    let ent = Entity { id: store.actors.len() };
    store.actors.push(
        Some(
            Actor {
                pos,
                render: Render {
                    color: ColorPair { fg: Color::White, bg: Color::Black },
                    glyph: GLYPH_PLAYER,
                },
                player: Some(Player),
                enemy: None,
                moving_randomly: None,
            },
        ),
    );
    ent
}

/// Create one monster at `pos`, drawing its glyph at random from the four
/// monster glyphs.
pub fn spawn_monster(store: &mut EntityStore, rng: &mut RandomNumberGenerator, pos: Point) -> (ent:
    Entity)
    requires
        spec_in_bounds(pos),
    ensures
        exists|g: u16|
            (g == GLYPH_ETTIN || g == GLYPH_OGRE || g == GLYPH_ORC || g == GLYPH_GOBLIN)
                && final(store).actors@ == old(store).actors@.push(Some(monster_actor(pos, g))),
        final(store).edits@ == old(store).edits@,
        ent.id == old(store).actors@.len(),
{
    let ent = Entity { id: store.actors.len() };
    let roll = rng_range(rng, 0, 4);
    let glyph: u16 = if roll == 0 {
        GLYPH_ETTIN
    } else if roll == 1 {
        GLYPH_OGRE
    } else if roll == 2 {
        GLYPH_ORC
    } else {
        GLYPH_GOBLIN
    };
    store.actors.push(
        Some(
            Actor {
                pos,
                render: Render {
                    color: ColorPair { fg: Color::White, bg: Color::Black },
                    glyph,
                },
                player: None,
                enemy: Some(Enemy),
                moving_randomly: Some(MovingRandomly),
            },
        ),
    );
    proof {
        assert(store.actors@ == old(store).actors@.push(Some(monster_actor(pos, glyph))));
    }
    ent
}

} // verus!
