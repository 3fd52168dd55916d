use vstd::prelude::*;

use crate::geometry::Point;

verus! {

/// A named colour of the two-colour console palette the game draws with.
#[derive(Clone, Copy, PartialEq, Eq, Structural, Debug)]
pub enum Color {
    White,
    Black,
}

/// A foreground and background colour for one drawn glyph.
#[derive(Clone, Copy, PartialEq, Eq, Structural, Debug)]
pub struct ColorPair {
    pub fg: Color,
    pub bg: Color,
}

impl ColorPair {
    pub fn new(fg: Color, bg: Color) -> (c: ColorPair)
        ensures
            c == (ColorPair { fg, bg }),
    {
        ColorPair { fg, bg }
    }
}

/// Glyph code for the player.
pub const GLYPH_PLAYER: u16 = 64;
/// Glyph code for a floor tile.
pub const GLYPH_FLOOR: u16 = 46;
/// Glyph code for a wall tile.
pub const GLYPH_WALL: u16 = 35;
/// Glyph code for an ettin.
pub const GLYPH_ETTIN: u16 = 69;
/// Glyph code for an ogre.
pub const GLYPH_OGRE: u16 = 79;
/// Glyph code for an orc.
pub const GLYPH_ORC: u16 = 111;
/// Glyph code for a goblin.
pub const GLYPH_GOBLIN: u16 = 103;

/// How an entity is drawn: its glyph code and colours.
#[derive(Clone, Copy, PartialEq, Eq, Structural, Debug)]
pub struct Render {
    pub color: ColorPair,
    pub glyph: u16,
}

/// Tag marking the one adventurer.
#[derive(Clone, Copy, PartialEq, Eq, Structural, Debug)]
pub struct Player;

/// Tag marking a hostile entity.
#[derive(Clone, Copy, PartialEq, Eq, Structural, Debug)]
pub struct Enemy;

/// Tag marking an entity that wanders aimlessly.
#[derive(Clone, Copy, PartialEq, Eq, Structural, Debug)]
pub struct MovingRandomly;

/// One entity's attached data: its position, how it is drawn, and its
/// optional tag markers; a marker's presence is the tag.
#[derive(Clone, Copy, Debug)]
pub struct Actor {
    pub pos: Point,
    pub render: Render,
    pub player: Option<Player>,
    pub enemy: Option<Enemy>,
    pub moving_randomly: Option<MovingRandomly>,
}

/// A stable entity identifier, never reused within a session.
#[derive(Clone, Copy, PartialEq, Eq, Structural, Debug)]
pub struct Entity {
    pub id: usize,
}

/// A requested, not-yet-applied move of one entity.
#[derive(Clone, Copy, PartialEq, Eq, Structural, Debug)]
pub struct WantsToMove {
    pub entity: Entity,
    pub destination: Point,
}

/// One deferred edit of the shared entity store, queued by a subsystem and
/// applied at the next flush barrier.
#[derive(Clone, Copy, Debug)]
pub enum Edit {
    Intent(WantsToMove),
    Remove(Entity),
}

/// The phase of the turn cycle; exactly one is active at a time.
#[derive(Clone, Copy, PartialEq, Eq, Structural, Debug)]
pub enum TurnState {
    AwaitingInput,
    PlayerTurn,
    MonsterTurn,
}

/// One entry of the draw list handed to the host renderer: a glyph with its
/// colours at a position relative to the camera.
#[derive(Clone, Copy, PartialEq, Eq, Structural, Debug)]
pub struct DrawEntry {
    pub pos: Point,
    pub color: ColorPair,
    pub glyph: u16,
}

} // verus!
