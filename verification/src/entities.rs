//! Entity state: the arena, the player-controlled entity, the autonomous
//! enemies, and the per-tick input snapshot.

use vstd::prelude::*;

verus! {

use crate::COORD_LIMIT;
use crate::PLAYER_RADIUS;
use crate::ENEMY_RADIUS;
use crate::vecfx::Vec3Fx;

/// The rectangular bounds entities are confined within, origin at (0, 0),
/// in scaled units. Re-queried from the window every tick by the caller;
/// never cached by the core.
#[derive(Clone, Copy, Debug, PartialEq, Eq, Structural)]
pub struct Arena {
    pub width: i64,
    pub height: i64,
}

impl Arena {
    /// A well-formed arena is wide and tall enough to hold an entity of
    /// either radius, and small enough for the integrator's coordinate
    /// range.
    pub open spec fn wf(self) -> bool {
        &&& 2 * PLAYER_RADIUS <= self.width <= COORD_LIMIT
        &&& 2 * PLAYER_RADIUS <= self.height <= COORD_LIMIT
        &&& 2 * ENEMY_RADIUS <= self.width
        &&& 2 * ENEMY_RADIUS <= self.height
    }
}

/// Runtime check of `Arena::wf`, for callers outside the verified core.
pub fn arena_wf(a: &Arena) -> (b: bool)
    ensures
        b == a.wf(),
{
    2 * PLAYER_RADIUS <= a.width && a.width <= COORD_LIMIT && 2 * PLAYER_RADIUS <= a.height
        && a.height <= COORD_LIMIT && 2 * ENEMY_RADIUS <= a.width && 2 * ENEMY_RADIUS <= a.height
}

/// `p` lies inside the arena with a margin of `radius` on every side, in
/// the plane.
pub open spec fn in_bounds(p: Vec3Fx, radius: int, a: Arena) -> bool {
    &&& radius <= p.x <= a.width - radius
    &&& radius <= p.y <= a.height - radius
    &&& p.z == 0
}

/// The single player-controlled entity: a position only; its velocity is
/// derived from the held keys each frame.
#[derive(Clone, Copy, Debug, PartialEq, Eq, Structural)]
pub struct Player {
    pub position: Vec3Fx,
}

/// An autonomous entity: a position and a stored unit direction.
#[derive(Clone, Copy, Debug, PartialEq, Eq, Structural)]
pub struct Enemy {
    pub position: Vec3Fx,
    pub direction: Vec3Fx,
}

/// Pressed state of the four directional keys, read once per tick.
#[derive(Clone, Copy, Debug, PartialEq, Eq, Structural)]
pub struct KeyState {
    pub left: bool,
    pub right: bool,
    pub up: bool,
    pub down: bool,
}

impl KeyState {
    pub open spec fn any(self) -> bool {
        self.left || self.right || self.up || self.down
    }
}

} // verus!
