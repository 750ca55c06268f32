//! The tagged entity records of the simulation and their well-formedness.
//!
//! Every coordinate, speed and timer is a fixed-point integer in hundredths
//! of a world unit (respectively of a second). Well-formedness bounds keep
//! all of the step arithmetic inside `i64`.

use vstd::prelude::*;
use crate::grid::{LEFT_BOUND, RIGHT_BOUND, PLAYER_MAX_X, BOTTOM_BOUND, TOP_BOUND};

verus! {

/// Loose bound on any live entity's world coordinates, in hundredths.
pub const COORD_LIMIT: i64 = 1000000000;
/// Loose bound on any per-entity speed, in hundredths per step.
pub const SPEED_LIMIT: i64 = 1000000;
/// Loose bound on any countdown timer, in hundredths of a second.
pub const TIMER_LIMIT: i64 = 1000000000;

/// The unique player: a grid-clamped position and the countdown that
/// auto-spawns zombies.
#[derive(Clone, Copy, Debug, PartialEq, Eq, Structural)]
pub struct Player {
    pub x: i64,
    pub y: i64,
    /// Remaining time until the next automatic zombie spawn.
    pub spawn_timer: i64,
}

/// A zombie advancing leftward by `speed` each step.
#[derive(Clone, Copy, Debug, PartialEq, Eq, Structural)]
pub struct Zombie {
    pub x: i64,
    pub y: i64,
    /// Horizontal advance per step, in hundredths; fixed after creation.
    pub speed: i64,
}

/// A plant that periodically fires a bullet from its own position.
#[derive(Clone, Copy, Debug, PartialEq, Eq, Structural)]
pub struct Plant {
    pub x: i64,
    pub y: i64,
    /// Remaining time until the next bullet is fired.
    pub reload: i64,
}

/// A bullet travelling rightward until its lifetime elapses, it leaves the
/// field, or it hits a zombie.
#[derive(Clone, Copy, Debug, PartialEq, Eq, Structural)]
pub struct Bullet {
    pub x: i64,
    pub y: i64,
    /// Horizontal advance per step, in hundredths; fixed after creation.
    pub speed: i64,
    /// Unit direction vector, in hundredths (rightward is `(100, 0)`).
    pub dir_x: i64,
    pub dir_y: i64,
    /// Damage carried on a hit.
    pub damage: i64,
    /// Remaining wall-clock lifetime; the bullet despawns when it elapses.
    pub lifetime: i64,
}

/// A purely decorative entity placed by the player's secondary key; it takes
/// no part in movement, collisions or scoring.
#[derive(Clone, Copy, Debug, PartialEq, Eq, Structural)]
pub struct Decoration {
    pub x: i64,
    pub y: i64,
}

/// One frame's edge-triggered key snapshot: each flag is true exactly when
/// the key was pressed down during that frame.
#[derive(Clone, Copy, Debug, PartialEq, Eq, Structural)]
pub struct InputSnapshot {
    pub up: bool,
    pub down: bool,
    pub left: bool,
    pub right: bool,
    pub spawn_plant: bool,
    pub spawn_decoration: bool,
}

impl InputSnapshot {
    /// A frame in which no key was pressed.
    pub fn idle() -> (r: InputSnapshot)
        ensures
            r == (InputSnapshot {
                up: false,
                down: false,
                left: false,
                right: false,
                spawn_plant: false,
                spawn_decoration: false,
            }),
    {
        InputSnapshot {
            up: false,
            down: false,
            left: false,
            right: false,
            spawn_plant: false,
            spawn_decoration: false,
        }
    }
}

/// The player stays clamped inside the field and its spawn countdown stays
/// positive and bounded.
pub open spec fn wf_player(p: Player) -> bool {
    &&& LEFT_BOUND <= p.x <= PLAYER_MAX_X
    &&& BOTTOM_BOUND <= p.y <= TOP_BOUND
    &&& 0 < p.spawn_timer <= TIMER_LIMIT
}

/// A live zombie sits strictly right of the left boundary, inside the loose
/// coordinate bounds, with a bounded non-negative speed.
pub open spec fn wf_zombie(z: Zombie) -> bool {
    &&& LEFT_BOUND < z.x <= COORD_LIMIT
    &&& -COORD_LIMIT <= z.y <= COORD_LIMIT
    &&& 0 <= z.speed <= SPEED_LIMIT
}

/// A plant stands where the player placed it, so inside the player's clamped
/// range, and its reload countdown stays positive and bounded.
pub open spec fn wf_plant(p: Plant) -> bool {
    &&& LEFT_BOUND <= p.x <= PLAYER_MAX_X
    &&& BOTTOM_BOUND <= p.y <= TOP_BOUND
    &&& 0 < p.reload <= TIMER_LIMIT
}

/// A live bullet sits strictly left of the right boundary, moves strictly
/// rightward, and still has lifetime left.
pub open spec fn wf_bullet(b: Bullet) -> bool {
    &&& -COORD_LIMIT <= b.x < RIGHT_BOUND
    &&& -COORD_LIMIT <= b.y <= COORD_LIMIT
    &&& 0 < b.speed <= SPEED_LIMIT
    &&& 0 < b.lifetime <= TIMER_LIMIT
}

/// A decoration's coordinates are bounded.
pub open spec fn wf_decoration(d: Decoration) -> bool {
    &&& -COORD_LIMIT <= d.x <= COORD_LIMIT
    &&& -COORD_LIMIT <= d.y <= COORD_LIMIT
}

} // verus!
