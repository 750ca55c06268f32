//! The whole simulation state for one frame, its well-formedness invariant,
//! and the startup state.

use vstd::prelude::*;
use crate::entities::{
    Player, Zombie, Plant, Bullet, Decoration, wf_player, wf_zombie, wf_plant, wf_bullet,
    wf_decoration,
};
use crate::grid::{LEFT_BOUND, BOTTOM_BOUND};
use crate::score::{format_score, spec_score_text};

verus! {

/// Initial value of the player's automatic zombie-spawn countdown: 3.00 s.
pub const SPAWN_TIMER_INIT: i64 = 300;
/// A plant's reload interval: 5.00 s.
pub const PLANT_RELOAD: i64 = 500;
/// A bullet's horizontal speed: 4.00 units per step.
pub const BULLET_SPEED: i64 = 400;
/// A bullet's lifetime: 2.00 s.
pub const BULLET_LIFETIME: i64 = 200;
/// Damage carried by one bullet.
pub const BULLET_DAMAGE: i64 = 1;
/// A bullet's fixed unit direction: rightward.
pub const BULLET_DIR_X: i64 = 100;
pub const BULLET_DIR_Y: i64 = 0;
/// World x of the rightmost field column, where zombies appear.
pub const ZOMBIE_SPAWN_X: i64 = 30000;
/// Lower bound (inclusive) of the sampled zombie speed: 0.20 units per step.
pub const ZOMBIE_SPEED_MIN: i64 = 20;
/// Upper bound (exclusive) of the sampled zombie speed: 0.80 units per step.
pub const ZOMBIE_SPEED_MAX: i64 = 80;
/// Collision distance between a bullet and a zombie: 10.00 units.
pub const COLLIDE_DIST: i64 = 1000;
/// Score reward per bullet-zombie hit: 10.00, in hundredths.
pub const KILL_REWARD: u64 = 1000;

/// Everything the simulation owns across one frame. The entity vectors hold
/// only live entities: despawns take effect at the end of the system pass
/// that decides them, so no later system observes a half-removed entity.
#[derive(Debug)]
pub struct GameState {
    pub player: Player,
    pub zombies: Vec<Zombie>,
    pub plants: Vec<Plant>,
    pub bullets: Vec<Bullet>,
    pub decorations: Vec<Decoration>,
    /// Accumulated score, in hundredths; only ever increased.
    pub score: u64,
    /// The score formatted with exactly two decimal digits.
    pub score_text: String,
}

impl GameState {
    /// Well-formedness: every live entity is well formed and the display
    /// text always matches the score.
    pub open spec fn wf(self) -> bool {
        &&& wf_player(self.player)
        &&& forall|i: int| 0 <= i < self.zombies@.len() ==> wf_zombie(#[trigger] self.zombies@[i])
        &&& forall|i: int| 0 <= i < self.plants@.len() ==> wf_plant(#[trigger] self.plants@[i])
        &&& forall|i: int| 0 <= i < self.bullets@.len() ==> wf_bullet(#[trigger] self.bullets@[i])
        &&& forall|i: int|
            0 <= i < self.decorations@.len() ==> wf_decoration(#[trigger] self.decorations@[i])
        &&& self.score_text@ == spec_score_text(self.score as nat)
    }

    /// The startup state: one player at the bottom-left field corner with
    /// its spawn countdown running, no other entities, score zero.
    pub fn initial() -> (r: GameState)
        ensures
            r.wf(),
            r.player == (Player { x: LEFT_BOUND, y: BOTTOM_BOUND, spawn_timer: SPAWN_TIMER_INIT }),
            r.zombies@ =~= Seq::<Zombie>::empty(),
            r.plants@ =~= Seq::<Plant>::empty(),
            r.bullets@ =~= Seq::<Bullet>::empty(),
            r.decorations@ =~= Seq::<Decoration>::empty(),
            r.score == 0,
            r.score_text@ == spec_score_text(0),
    {
        GameState {
            player: Player { x: LEFT_BOUND, y: BOTTOM_BOUND, spawn_timer: SPAWN_TIMER_INIT },
            zombies: Vec::new(),
            plants: Vec::new(),
            bullets: Vec::new(),
            decorations: Vec::new(),
            score: 0,
            score_text: format_score(0),
        }
    }
}

} // verus!
