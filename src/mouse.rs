//! The per-tick input snapshot: held keys, fresh presses, and the cursor.
use vstd::prelude::*;

use crate::geom::{clamped, diff, minus, valid_size, vec_of, Vec2, WORLD_LIMIT, clamp_to_world};

verus! {

/// What the player asks for this tick.
#[derive(Clone, Copy, Debug, PartialEq, Eq, Structural)]
pub struct Controls {
    /// Movement keys held down.
    pub up: bool,
    pub down: bool,
    pub left: bool,
    pub right: bool,
    /// Attack button pressed this tick.
    pub slash: bool,
    /// Dash key pressed this tick.
    pub dash: bool,
    /// Restart key pressed this tick.
    pub restart: bool,
    /// Some key is held down.
    pub any_pressed: bool,
}

impl Controls {
    /// No key held and nothing pressed.
    pub fn none() -> (r: Controls)
        ensures
            r.quiet(),
            !r.restart,
            !r.any_pressed,
    {
        Controls {
            up: false,
            down: false,
            left: false,
            right: false,
            slash: false,
            dash: false,
            restart: false,
            any_pressed: false,
        }
    }

    /// Some movement key is held.
    pub open spec fn moving(self) -> bool {
        self.up || self.down || self.left || self.right
    }

    /// No movement, attack or dash is asked for.
    pub open spec fn quiet(self) -> bool {
        !self.moving() && !self.slash && !self.dash
    }
}

/// Where the cursor points in the world, if it is over the play area.
#[derive(Clone, Copy, Debug, PartialEq, Eq, Structural)]
pub struct MouseState {
    pub world_position: Option<Vec2>,
}

impl MouseState {
    /// A cursor position lies on the play field.
    pub open spec fn wf(self) -> bool {
        match self.world_position {
            Some(w) => w.bounded(WORLD_LIMIT as int),
            None => true,
        }
    }

    /// The offset from `location` to the cursor, if there is a cursor.
    pub open spec fn aim_from(self, location: Vec2) -> Option<Vec2> {
        match self.world_position {
            Some(w) => Some(diff(w, location)),
            None => None,
        }
    }

    /// The direction from `location` to the cursor, given as the offset
    /// vector to it; `None` without a cursor.
    pub fn angle_from_location_to_mouse(&self, location: Vec2) -> (r: Option<Vec2>)
        requires
            self.wf(),
            location.bounded(WORLD_LIMIT as int),
        ensures
            r == self.aim_from(location),
            r matches Some(a) ==> a.bounded(2 * WORLD_LIMIT),
    {
        match self.world_position {
            Some(w) => Some(minus(w, location)),
            None => None,
        }
    }
}

/// The camera: the world point shown at the centre of the window.
#[derive(Clone, Copy, Debug, PartialEq, Eq, Structural)]
pub struct MainCamera {
    pub position: Vec2,
}

/// The world point under a cursor given in window pixels from its corner,
/// for a window of `window_size` whose centre shows `camera`.
pub open spec fn cursor_world(cursor: Vec2, window_size: Vec2, camera: Vec2) -> Vec2 {
    clamped(
        vec_of(
            cursor.x - window_size.x / 2 + camera.x,
            cursor.y - window_size.y / 2 + camera.y,
        ),
    )
}

/// Resolves the cursor to a world position: the window's centre shows the
/// camera's position, and the point is kept on the play field.
pub fn mouse_system(cursor: Option<Vec2>, window_size: Vec2, camera: &MainCamera) -> (r: MouseState)
    requires
        cursor matches Some(c) ==> c.bounded(WORLD_LIMIT as int),
        valid_size(window_size),
        camera.position.bounded(WORLD_LIMIT as int),
    ensures
        r.wf(),
        r.world_position == match cursor {
            Some(c) => Some(cursor_world(c, window_size, camera.position)),
            None => None::<Vec2>,
        },
{
    match cursor {
        Some(c) => {
            let x = c.x - window_size.x / 2 + camera.position.x;
            let y = c.y - window_size.y / 2 + camera.position.y;
            MouseState { world_position: Some(clamp_to_world(Vec2 { x, y })) }
        },
        None => MouseState { world_position: None },
    }
}

} // verus!
