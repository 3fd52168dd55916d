use vstd::prelude::*;

use crate::geometry::Point;
use crate::map::spec_in_bounds;
use crate::{DISPLAY_HEIGHT, DISPLAY_WIDTH};

verus! {

/// The viewport: the visible sub-rectangle of the map, kept centred on the
/// player and moved only when the player's own move succeeds.
#[derive(Clone, Copy, PartialEq, Eq, Structural, Debug)]
pub struct Camera {
    pub left_x: i32,
    pub right_x: i32,
    pub top_y: i32,
    pub bottom_y: i32,
}

/// The viewport centred on `p`.
pub open spec fn spec_camera_on(p: Point) -> Camera {
    Camera {
        left_x: (p.x - DISPLAY_WIDTH / 2) as i32,
        right_x: (p.x + DISPLAY_WIDTH / 2) as i32,
        top_y: (p.y - DISPLAY_HEIGHT / 2) as i32,
        bottom_y: (p.y + DISPLAY_HEIGHT / 2) as i32,
    }
}

/// The viewport is always centred on some on-grid position: the player's.
pub open spec fn camera_wf(c: Camera) -> bool {
    exists|p: Point| spec_in_bounds(p) && c == spec_camera_on(p)
}

impl Camera {
    /// A viewport centred on the player's starting position.
    pub fn new(player_position: Point) -> (c: Camera)
        requires
            spec_in_bounds(player_position),
        ensures
            c == spec_camera_on(player_position),
    {
        Camera {
            left_x: player_position.x - DISPLAY_WIDTH / 2,
            right_x: player_position.x + DISPLAY_WIDTH / 2,
            top_y: player_position.y - DISPLAY_HEIGHT / 2,
            bottom_y: player_position.y + DISPLAY_HEIGHT / 2,
        }
    }

    /// Recentre on the player's new position after a successful move.
    pub fn on_player_move(&mut self, player_position: Point)
        requires
            spec_in_bounds(player_position),
        ensures
            *final(self) == spec_camera_on(player_position),
    {
        self.left_x = player_position.x - DISPLAY_WIDTH / 2;
        self.right_x = player_position.x + DISPLAY_WIDTH / 2;
        self.top_y = player_position.y - DISPLAY_HEIGHT / 2;
        self.bottom_y = player_position.y + DISPLAY_HEIGHT / 2;
    }
}

} // verus!
