//! The per-frame simulation systems: zombie advance and despawn, bullet
//! motion and despawn, bullet lifetimes, plant reloads, the timer-driven
//! zombie spawner, the player controller, and bullet-zombie collisions.
//!
//! Each system is a pass over the state; despawns decided by a pass take
//! effect at its end, so later systems in the same frame see only live
//! entities.

use vstd::prelude::*;
use crate::entities::{
    Player, Zombie, Plant, Bullet, Decoration, InputSnapshot, wf_zombie, wf_plant, wf_bullet,
    TIMER_LIMIT,
};
use crate::grid::{
    LEFT_BOUND, RIGHT_BOUND, PLAYER_MAX_X, BOTTOM_BOUND, TOP_BOUND, PITCH, Y_MIN_IDX, Y_END_IDX,
    spec_clamp, clamp_coord,
};
use crate::state::{GameState, PLANT_RELOAD, BULLET_SPEED, BULLET_LIFETIME, BULLET_DAMAGE,
    BULLET_DIR_X, BULLET_DIR_Y, ZOMBIE_SPAWN_X, ZOMBIE_SPEED_MIN, ZOMBIE_SPEED_MAX, COLLIDE_DIST,
    KILL_REWARD};
use crate::score::{format_score, spec_score_text};

verus! {

/// Relies on rand::random_range over the half-open range `lo..hi` on `i64`:
/// the sample is drawn uniformly from `[lo, hi)`; the call panics on an
/// empty range, hence the requires.
#[verifier::external_body]
fn sample_in(lo: i64, hi: i64) -> (r: i64)
    requires
        lo < hi,
    ensures
        lo <= r < hi,
{
    rand::random_range(lo..hi)
}

/// A zombie advanced one step leftward by its own speed.
pub open spec fn moved_zombie(z: Zombie) -> Zombie {
    Zombie { x: (z.x - z.speed) as i64, ..z }
}

/// The zombies left after one movement pass: each advanced leftward by its
/// speed, and those at or past the left boundary removed, in order.
pub open spec fn spec_zombie_step(s: Seq<Zombie>) -> Seq<Zombie>
    decreases s.len(),
{
    if s.len() == 0 {
        Seq::empty()
    } else {
        let pre = spec_zombie_step(s.drop_last());
        let m = moved_zombie(s.last());
        if m.x > LEFT_BOUND {
            pre.push(m)
        } else {
            pre
        }
    }
}

/// A bullet advanced one step rightward by its own speed.
pub open spec fn moved_bullet(b: Bullet) -> Bullet {
    Bullet { x: (b.x + b.speed) as i64, ..b }
}

/// The bullets left after one movement pass: each advanced rightward by its
/// speed, and those that left the field on the right removed, in order.
pub open spec fn spec_bullet_move_step(s: Seq<Bullet>) -> Seq<Bullet>
    decreases s.len(),
{
    if s.len() == 0 {
        Seq::empty()
    } else {
        let pre = spec_bullet_move_step(s.drop_last());
        let m = moved_bullet(s.last());
        if m.x < RIGHT_BOUND {
            pre.push(m)
        } else {
            pre
        }
    }
}

/// A bullet with its lifetime ticked down by the elapsed frame time.
pub open spec fn ticked_bullet(b: Bullet, dt: int) -> Bullet {
    Bullet { lifetime: (b.lifetime - dt) as i64, ..b }
}

/// The bullets left after one lifetime pass: every lifetime ticked down once
/// by `dt`, and the bullets whose lifetime elapsed removed, in order.
pub open spec fn spec_bullet_life_step(s: Seq<Bullet>, dt: int) -> Seq<Bullet>
    decreases s.len(),
{
    if s.len() == 0 {
        Seq::empty()
    } else {
        let pre = spec_bullet_life_step(s.drop_last(), dt);
        if s.last().lifetime - dt > 0 {
            pre.push(ticked_bullet(s.last(), dt))
        } else {
            pre
        }
    }
}

/// A plant after one reload tick: the countdown decreases by `dt`; on expiry
/// it resets to the full reload interval.
pub open spec fn ticked_plant(p: Plant, dt: int) -> Plant {
    if p.reload - dt > 0 {
        Plant { reload: (p.reload - dt) as i64, ..p }
    } else {
        Plant { reload: PLANT_RELOAD, ..p }
    }
}

/// True exactly when a plant's reload countdown expires this step.
pub open spec fn plant_fires(p: Plant, dt: int) -> bool {
    p.reload - dt <= 0
}

/// The bullet a plant fires: spawned at the plant's exact position, moving
/// rightward at the fixed speed, with the fixed damage and lifetime.
pub open spec fn fired_bullet(p: Plant) -> Bullet {
    Bullet {
        x: p.x,
        y: p.y,
        speed: BULLET_SPEED,
        dir_x: BULLET_DIR_X,
        dir_y: BULLET_DIR_Y,
        damage: BULLET_DAMAGE,
        lifetime: BULLET_LIFETIME,
    }
}

/// The bullets fired by one reload pass over the plants, in plant order:
/// one bullet per expiring plant, never more.
pub open spec fn spec_fired_bullets(s: Seq<Plant>, dt: int) -> Seq<Bullet>
    decreases s.len(),
{
    if s.len() == 0 {
        Seq::empty()
    } else {
        let pre = spec_fired_bullets(s.drop_last(), dt);
        if plant_fires(s.last(), dt) {
            pre.push(fired_bullet(s.last()))
        } else {
            pre
        }
    }
}

/// A movement pass never adds zombies.
pub proof fn lemma_zombie_step_len(s: Seq<Zombie>)
    ensures
        spec_zombie_step(s).len() <= s.len(),
    decreases s.len(),
{
    if s.len() > 0 {
        lemma_zombie_step_len(s.drop_last());
    }
}

/// True exactly when a bullet and a zombie collide: the Euclidean distance
/// between their positions is strictly under the collision distance, stated
/// on squares to stay in integers.
pub open spec fn close_hit(b: Bullet, z: Zombie) -> bool {
    (b.x - z.x) * (b.x - z.x) + (b.y - z.y) * (b.y - z.y) < COLLIDE_DIST * COLLIDE_DIST
}

/// The index of the first zombie, in store order, that `b` collides with.
pub open spec fn spec_first_hit(b: Bullet, zs: Seq<Zombie>) -> Option<int>
    decreases zs.len(),
{
    if zs.len() == 0 {
        Option::None
    } else if close_hit(b, zs[0]) {
        Option::Some(0int)
    } else {
        match spec_first_hit(b, zs.drop_first()) {
            Option::None => Option::None,
            Option::Some(j) => Option::Some(j + 1),
        }
    }
}

/// One collision pass: bullets are processed in store order; each one takes
/// out the first zombie, in store order, still live and within collision
/// distance, and is itself removed on that first match; a bullet with no
/// such zombie survives. Result: surviving bullets, surviving zombies, and
/// the number of hits.
pub open spec fn spec_collisions(bs: Seq<Bullet>, zs: Seq<Zombie>) -> (Seq<Bullet>, Seq<
    Zombie,
>, nat)
    decreases bs.len(),
{
    if bs.len() == 0 {
        (Seq::<Bullet>::empty(), zs, 0nat)
    } else {
        match spec_first_hit(bs[0], zs) {
            Option::Some(j) => {
                let rest = spec_collisions(bs.drop_first(), zs.remove(j));
                (rest.0, rest.1, (rest.2 + 1) as nat)
            },
            Option::None => {
                let rest = spec_collisions(bs.drop_first(), zs);
                (seq![bs[0]] + rest.0, rest.1, rest.2)
            },
        }
    }
}

/// A bullet hits the first close zombie: when every zombie before `i` is
/// out of range and zombie `i` is in range, `i` is the first hit.
proof fn lemma_first_hit_at(b: Bullet, zs: Seq<Zombie>, i: int)
    requires
        0 <= i < zs.len(),
        forall|k: int| 0 <= k < i ==> !close_hit(b, #[trigger] zs[k]),
        close_hit(b, zs[i]),
    ensures
        spec_first_hit(b, zs) == Option::Some(i),
    decreases i,
{
    if i == 0 {
    } else {
        assert(!close_hit(b, zs[0]));
        assert forall|k: int| 0 <= k < i - 1 implies !close_hit(b, #[trigger] zs.drop_first()[k]) by {
            assert(zs.drop_first()[k] == zs[k + 1]);
        }
        assert(zs.drop_first()[i - 1] == zs[i]);
        lemma_first_hit_at(b, zs.drop_first(), i - 1);
    }
}

/// A bullet out of range of every zombie hits none.
proof fn lemma_first_hit_none(b: Bullet, zs: Seq<Zombie>)
    requires
        forall|k: int| 0 <= k < zs.len() ==> !close_hit(b, #[trigger] zs[k]),
    ensures
        spec_first_hit(b, zs) == Option::<int>::None,
    decreases zs.len(),
{
    if zs.len() == 0 {
    } else {
        assert(!close_hit(b, zs[0]));
        assert forall|k: int| 0 <= k < zs.drop_first().len() implies !close_hit(
            b,
            #[trigger] zs.drop_first()[k],
        ) by {
            assert(zs.drop_first()[k] == zs[k + 1]);
        }
        lemma_first_hit_none(b, zs.drop_first());
    }
}

/// Hit accounting of one collision pass: one hit removes exactly one bullet
/// and one zombie, so the hit count is bounded by both entity counts.
pub proof fn lemma_collisions_counts(bs: Seq<Bullet>, zs: Seq<Zombie>)
    ensures
        spec_collisions(bs, zs).0.len() + spec_collisions(bs, zs).2 == bs.len(),
        spec_collisions(bs, zs).1.len() + spec_collisions(bs, zs).2 == zs.len(),
        spec_collisions(bs, zs).2 <= bs.len(),
        spec_collisions(bs, zs).2 <= zs.len(),
    decreases bs.len(),
{
    if bs.len() == 0 {
    } else {
        match spec_first_hit(bs[0], zs) {
            Option::Some(j) => {
                lemma_first_hit_in_range(bs[0], zs);
                lemma_collisions_counts(bs.drop_first(), zs.remove(j));
            },
            Option::None => {
                lemma_collisions_counts(bs.drop_first(), zs);
            },
        }
    }
}

/// A first-hit index, when there is one, indexes a zombie in range.
proof fn lemma_first_hit_in_range(b: Bullet, zs: Seq<Zombie>)
    ensures
        match spec_first_hit(b, zs) {
            Option::Some(j) => 0 <= j < zs.len() && close_hit(b, zs[j]),
            Option::None => true,
        },
    decreases zs.len(),
{
    if zs.len() == 0 {
    } else if close_hit(b, zs[0]) {
    } else {
        lemma_first_hit_in_range(b, zs.drop_first());
    }
}

/// True exactly when `b` and `z` are within collision distance.
pub fn is_close_hit(b: &Bullet, z: &Zombie) -> (r: bool)
    requires
        wf_bullet(*b),
        wf_zombie(*z),
    ensures
        r == close_hit(*b, *z),
{
    let dx = b.x - z.x;
    let dy = b.y - z.y;
    proof {
        assert(-2000000000 <= dx && dx <= 2000000000);
        assert(-2000000000 <= dy && dy <= 2000000000);
        assert(0 <= dx * dx && dx * dx <= 4000000000000000000) by (nonlinear_arith)
            requires
                -2000000000 <= dx && dx <= 2000000000,
        ;
        assert(0 <= dy * dy && dy * dy <= 4000000000000000000) by (nonlinear_arith)
            requires
                -2000000000 <= dy && dy <= 2000000000,
        ;
    }
    dx * dx + dy * dy < COLLIDE_DIST * COLLIDE_DIST
}

/// Finds the first zombie, in store order, within collision distance of
/// `b`, if any.
fn find_first_hit(b: &Bullet, zs: &Vec<Zombie>) -> (r: Option<usize>)
    requires
        wf_bullet(*b),
        forall|k: int| 0 <= k < zs@.len() ==> wf_zombie(#[trigger] zs@[k]),
    ensures
        match r {
            Option::Some(j) => j < zs@.len() && spec_first_hit(*b, zs@) == Option::Some(j as int),
            Option::None => spec_first_hit(*b, zs@) == Option::<int>::None,
        },
{
    let n = zs.len();
    let mut i: usize = 0;
    while i < n
        invariant
            wf_bullet(*b),
            forall|k: int| 0 <= k < zs@.len() ==> wf_zombie(#[trigger] zs@[k]),
            i <= n,
            n == zs@.len(),
            forall|k: int| 0 <= k < i ==> !close_hit(*b, #[trigger] zs@[k]),
        decreases n - i,
    {
        let z = zs[i];
        if is_close_hit(b, &z) {
            proof {
                lemma_first_hit_at(*b, zs@, i as int);
            }
            return Option::Some(i);
        }
        i += 1;
    }
    proof {
        lemma_first_hit_none(*b, zs@);
    }
    Option::None
}

/// One collision pass over `bullets[i..]`, in store order, against the live
/// `zombies`: the executable mirror of `spec_collisions`.
fn collide_from(bullets: &Vec<Bullet>, i: usize, zombies: Vec<Zombie>) -> (r: (Vec<Bullet>, Vec<
    Zombie,
>, u64))
    requires
        i <= bullets@.len(),
        forall|k: int| 0 <= k < bullets@.len() ==> wf_bullet(#[trigger] bullets@[k]),
        forall|k: int| 0 <= k < zombies@.len() ==> wf_zombie(#[trigger] zombies@[k]),
    ensures
        r.0@ == spec_collisions(bullets@.skip(i as int), zombies@).0,
        r.1@ == spec_collisions(bullets@.skip(i as int), zombies@).1,
        r.2 as nat == spec_collisions(bullets@.skip(i as int), zombies@).2,
        r.0@.len() + r.2 == bullets@.len() - i,
        r.1@.len() + r.2 == zombies@.len(),
        forall|k: int| 0 <= k < r.0@.len() ==> wf_bullet(#[trigger] r.0@[k]),
        forall|k: int| 0 <= k < r.1@.len() ==> wf_zombie(#[trigger] r.1@[k]),
    decreases bullets@.len() - i,
{
    if i == bullets.len() {
        proof {
            assert(bullets@.skip(i as int) =~= Seq::<Bullet>::empty());
        }
        (Vec::new(), zombies, 0)
    } else {
        let b = bullets[i];
        proof {
            assert(bullets@.skip(i as int)[0] == bullets@[i as int]);
            assert(bullets@.skip(i as int).drop_first() =~= bullets@.skip(i as int + 1));
        }
        match find_first_hit(&b, &zombies) {
            Option::Some(j) => {
                let mut zs = zombies;
                zs.remove(j);
                proof {
                    assert forall|k: int| 0 <= k < zs@.len() implies wf_zombie(
                        #[trigger] zs@[k],
                    ) by {
                        if k < j {
                            assert(zs@[k] == zombies@[k]);
                        } else {
                            assert(zs@[k] == zombies@[k + 1]);
                        }
                    }
                }
                let (rb, rz, n) = collide_from(bullets, i + 1, zs);
                (rb, rz, n + 1)
            },
            Option::None => {
                let (rb, rz, n) = collide_from(bullets, i + 1, zombies);
                let ghost pre = rb@;
                let mut rb = rb;
                rb.insert(0, b);
                proof {
                    assert(rb@ =~= seq![b] + pre);
                }
                (rb, rz, n)
            },
        }
    }
}

/// The zombie the spawner creates: at the rightmost field column, on the
/// sampled row, with the sampled speed.
pub open spec fn spawned_zombie(row: int, speed: int) -> Zombie {
    Zombie { x: ZOMBIE_SPAWN_X, y: (row * PITCH) as i64, speed: speed as i64 }
}

/// The player's x after one controller pass: one tile right and one tile
/// left per pressed key, then clamped to the field.
pub open spec fn spec_player_x(x0: int, inp: InputSnapshot) -> int {
    spec_clamp(
        x0 + (if inp.right {
            PITCH as int
        } else {
            0
        }) - (if inp.left {
            PITCH as int
        } else {
            0
        }),
        LEFT_BOUND as int,
        PLAYER_MAX_X as int,
    )
}

/// The player's y after one controller pass: one tile up and one tile down
/// per pressed key, then clamped to the field.
pub open spec fn spec_player_y(y0: int, inp: InputSnapshot) -> int {
    spec_clamp(
        y0 + (if inp.up {
            PITCH as int
        } else {
            0
        }) - (if inp.down {
            PITCH as int
        } else {
            0
        }),
        BOTTOM_BOUND as int,
        TOP_BOUND as int,
    )
}

/// The plant the player places at its clamped position.
pub open spec fn planted_plant(x: int, y: int) -> Plant {
    Plant { x: x as i64, y: y as i64, reload: PLANT_RELOAD }
}

/// The decoration the player places at its clamped position.
pub open spec fn placed_decoration(x: int, y: int) -> Decoration {
    Decoration { x: x as i64, y: y as i64 }
}

impl GameState {
    /// Movement & lifetime system, zombie half: every zombie's `x` decreases
    /// by exactly its speed; a zombie whose new `x` is at or past the left
    /// boundary is removed in the same pass. Nothing else changes.
    pub fn zombie_step(&mut self)
        requires
            old(self).wf(),
        ensures
            final(self).wf(),
            final(self).zombies@ == spec_zombie_step(old(self).zombies@),
            final(self).player == old(self).player,
            final(self).plants@ == old(self).plants@,
            final(self).bullets@ == old(self).bullets@,
            final(self).decorations@ == old(self).decorations@,
            final(self).score == old(self).score,
            final(self).score_text@ == old(self).score_text@,
    {
        let mut kept: Vec<Zombie> = Vec::new();
        let n = self.zombies.len();
        let mut i: usize = 0;
        while i < n
            invariant
                old(self).wf(),
                *self == *old(self),
                i <= n,
                n == self.zombies@.len(),
                kept@ == spec_zombie_step(self.zombies@.take(i as int)),
                forall|j: int| 0 <= j < kept@.len() ==> wf_zombie(#[trigger] kept@[j]),
            decreases n - i,
        {
            let z = self.zombies[i];
            proof {
                assert(wf_zombie(self.zombies@[i as int]));
                assert(self.zombies@.take(i as int + 1).drop_last() =~= self.zombies@.take(
                    i as int,
                ));
                assert(self.zombies@.take(i as int + 1).last() == z);
            }
            let nx = z.x - z.speed;
            if nx > LEFT_BOUND {
                kept.push(Zombie { x: nx, ..z });
            }
            i += 1;
        }
        proof {
            assert(self.zombies@.take(n as int) =~= self.zombies@);
        }
        self.zombies = kept;
    }

    /// Movement & lifetime system, bullet motion half: every bullet's `x`
    /// increases by exactly its speed; a bullet whose new `x` reaches the
    /// right boundary has left the field and is removed in the same pass.
    /// Nothing else changes.
    pub fn bullet_move_step(&mut self)
        requires
            old(self).wf(),
        ensures
            final(self).wf(),
            final(self).bullets@ == spec_bullet_move_step(old(self).bullets@),
            final(self).player == old(self).player,
            final(self).zombies@ == old(self).zombies@,
            final(self).plants@ == old(self).plants@,
            final(self).decorations@ == old(self).decorations@,
            final(self).score == old(self).score,
            final(self).score_text@ == old(self).score_text@,
    {
        let mut kept: Vec<Bullet> = Vec::new();
        let n = self.bullets.len();
        let mut i: usize = 0;
        while i < n
            invariant
                old(self).wf(),
                *self == *old(self),
                i <= n,
                n == self.bullets@.len(),
                kept@ == spec_bullet_move_step(self.bullets@.take(i as int)),
                forall|j: int| 0 <= j < kept@.len() ==> wf_bullet(#[trigger] kept@[j]),
            decreases n - i,
        {
            let b = self.bullets[i];
            proof {
                assert(wf_bullet(self.bullets@[i as int]));
                assert(self.bullets@.take(i as int + 1).drop_last() =~= self.bullets@.take(
                    i as int,
                ));
                assert(self.bullets@.take(i as int + 1).last() == b);
            }
            let nx = b.x + b.speed;
            if nx < RIGHT_BOUND {
                kept.push(Bullet { x: nx, ..b });
            }
            i += 1;
        }
        proof {
            assert(self.bullets@.take(n as int) =~= self.bullets@);
        }
        self.bullets = kept;
    }

    /// Movement & lifetime system, bullet lifetime half: every live bullet's
    /// lifetime is ticked down exactly once by the elapsed time `dt`; a
    /// bullet whose lifetime thereby elapses is removed in the same pass.
    /// Nothing else changes.
    pub fn bullet_lifetime_step(&mut self, dt: i64)
        requires
            old(self).wf(),
            0 <= dt <= TIMER_LIMIT,
        ensures
            final(self).wf(),
            final(self).bullets@ == spec_bullet_life_step(old(self).bullets@, dt as int),
            final(self).player == old(self).player,
            final(self).zombies@ == old(self).zombies@,
            final(self).plants@ == old(self).plants@,
            final(self).decorations@ == old(self).decorations@,
            final(self).score == old(self).score,
            final(self).score_text@ == old(self).score_text@,
    {
        let mut kept: Vec<Bullet> = Vec::new();
        let n = self.bullets.len();
        let mut i: usize = 0;
        while i < n
            invariant
                old(self).wf(),
                *self == *old(self),
                0 <= dt <= TIMER_LIMIT,
                i <= n,
                n == self.bullets@.len(),
                kept@ == spec_bullet_life_step(self.bullets@.take(i as int), dt as int),
                forall|j: int| 0 <= j < kept@.len() ==> wf_bullet(#[trigger] kept@[j]),
            decreases n - i,
        {
            let b = self.bullets[i];
            proof {
                assert(wf_bullet(self.bullets@[i as int]));
                assert(self.bullets@.take(i as int + 1).drop_last() =~= self.bullets@.take(
                    i as int,
                ));
                assert(self.bullets@.take(i as int + 1).last() == b);
            }
            let remaining = b.lifetime - dt;
            if remaining > 0 {
                kept.push(Bullet { lifetime: remaining, ..b });
            }
            i += 1;
        }
        proof {
            assert(self.bullets@.take(n as int) =~= self.bullets@);
        }
        self.bullets = kept;
    }

    /// Timer-driven spawner, plant half: every plant's reload countdown is
    /// ticked down exactly once by `dt`; each plant whose countdown expires
    /// fires exactly one bullet from its own position and resets to the full
    /// reload interval, even when `dt` overshoots the remaining time. The
    /// fired bullets are appended to the live bullets in plant order.
    pub fn plant_step(&mut self, dt: i64)
        requires
            old(self).wf(),
            0 <= dt <= TIMER_LIMIT,
        ensures
            final(self).wf(),
            final(self).plants@.len() == old(self).plants@.len(),
            forall|i: int|
                0 <= i < old(self).plants@.len() ==> final(self).plants@[i] == ticked_plant(
                    #[trigger] old(self).plants@[i],
                    dt as int,
                ),
            final(self).bullets@ == old(self).bullets@ + spec_fired_bullets(
                old(self).plants@,
                dt as int,
            ),
            final(self).player == old(self).player,
            final(self).zombies@ == old(self).zombies@,
            final(self).decorations@ == old(self).decorations@,
            final(self).score == old(self).score,
            final(self).score_text@ == old(self).score_text@,
    {
        let mut new_plants: Vec<Plant> = Vec::new();
        let mut fired: Vec<Bullet> = Vec::new();
        let n = self.plants.len();
        let mut i: usize = 0;
        while i < n
            invariant
                old(self).wf(),
                *self == *old(self),
                0 <= dt <= TIMER_LIMIT,
                i <= n,
                n == self.plants@.len(),
                new_plants@.len() == i,
                forall|j: int|
                    0 <= j < i ==> new_plants@[j] == ticked_plant(
                        #[trigger] self.plants@[j],
                        dt as int,
                    ),
                forall|j: int| 0 <= j < i ==> wf_plant(#[trigger] new_plants@[j]),
                fired@ == spec_fired_bullets(self.plants@.take(i as int), dt as int),
                forall|j: int| 0 <= j < fired@.len() ==> wf_bullet(#[trigger] fired@[j]),
            decreases n - i,
        {
            let p = self.plants[i];
            proof {
                assert(wf_plant(self.plants@[i as int]));
                assert(self.plants@.take(i as int + 1).drop_last() =~= self.plants@.take(i as int));
                assert(self.plants@.take(i as int + 1).last() == p);
            }
            let remaining = p.reload - dt;
            if remaining > 0 {
                new_plants.push(Plant { reload: remaining, ..p });
            } else {
                new_plants.push(Plant { reload: PLANT_RELOAD, ..p });
                fired.push(Bullet {
                    x: p.x,
                    y: p.y,
                    speed: BULLET_SPEED,
                    dir_x: BULLET_DIR_X,
                    dir_y: BULLET_DIR_Y,
                    damage: BULLET_DAMAGE,
                    lifetime: BULLET_LIFETIME,
                });
            }
            i += 1;
        }
        proof {
            assert(self.plants@.take(n as int) =~= self.plants@);
        }
        let ghost old_plants: Seq<Plant> = self.plants@;
        self.plants = new_plants;
        let m = fired.len();
        let mut j: usize = 0;
        while j < m
            invariant
                old(self).wf(),
                self.player == old(self).player,
                self.zombies@ == old(self).zombies@,
                self.decorations@ == old(self).decorations@,
                self.score == old(self).score,
                self.score_text == old(self).score_text,
                self.plants@.len() == old_plants.len(),
                old_plants == old(self).plants@,
                forall|k: int|
                    0 <= k < old_plants.len() ==> self.plants@[k] == ticked_plant(
                        #[trigger] old_plants[k],
                        dt as int,
                    ),
                forall|k: int| 0 <= k < self.plants@.len() ==> wf_plant(#[trigger] self.plants@[k]),
                m == fired@.len(),
                j <= m,
                fired@ == spec_fired_bullets(old_plants, dt as int),
                forall|k: int| 0 <= k < fired@.len() ==> wf_bullet(#[trigger] fired@[k]),
                self.bullets@ == old(self).bullets@ + fired@.take(j as int),
                forall|k: int|
                    0 <= k < self.bullets@.len() ==> wf_bullet(#[trigger] self.bullets@[k]),
            decreases m - j,
        {
            let b = fired[j];
            proof {
                assert(fired@.take(j as int + 1) =~= fired@.take(j as int).push(b));
                assert(old(self).bullets@ + fired@.take(j as int + 1) =~= (old(self).bullets@
                    + fired@.take(j as int)).push(b));
            }
            self.bullets.push(b);
            j += 1;
        }
        proof {
            assert(fired@.take(m as int) =~= fired@);
        }
    }

    /// Timer-driven spawner, deterministic core: ticks the player's
    /// zombie-spawn countdown once by `dt`; on expiry, spawns exactly one
    /// zombie at the rightmost column on row `row` with speed `speed`, and
    /// resets the countdown to that same sampled speed (the spawn interval
    /// and the spawned zombie's speed are deliberately coupled).
    pub fn spawner_step_with(&mut self, dt: i64, row: i64, speed: i64)
        requires
            old(self).wf(),
            0 <= dt <= TIMER_LIMIT,
            Y_MIN_IDX <= row < Y_END_IDX,
            ZOMBIE_SPEED_MIN <= speed < ZOMBIE_SPEED_MAX,
        ensures
            final(self).wf(),
            old(self).player.spawn_timer - dt > 0 ==> final(self).player == (Player {
                spawn_timer: (old(self).player.spawn_timer - dt) as i64,
                ..old(self).player
            }) && final(self).zombies@ == old(self).zombies@,
            old(self).player.spawn_timer - dt <= 0 ==> final(self).player == (Player {
                spawn_timer: speed,
                ..old(self).player
            }) && final(self).zombies@ == old(self).zombies@.push(
                spawned_zombie(row as int, speed as int),
            ),
            final(self).plants@ == old(self).plants@,
            final(self).bullets@ == old(self).bullets@,
            final(self).decorations@ == old(self).decorations@,
            final(self).score == old(self).score,
            final(self).score_text@ == old(self).score_text@,
    {
        let remaining = self.player.spawn_timer - dt;
        if remaining > 0 {
            self.player.spawn_timer = remaining;
        } else {
            self.player.spawn_timer = speed;
            let y = row * PITCH;
            self.zombies.push(Zombie { x: ZOMBIE_SPAWN_X, y, speed });
        }
    }

    /// Timer-driven spawner, player half: as `spawner_step_with`, with the
    /// row sampled uniformly from the vertical field range and the speed
    /// sampled uniformly from the bounded speed interval. Whatever the
    /// samples, on expiry exactly one zombie appears and the countdown is
    /// reset; without expiry nothing but the countdown changes.
    pub fn spawner_step(&mut self, dt: i64)
        requires
            old(self).wf(),
            0 <= dt <= TIMER_LIMIT,
        ensures
            final(self).wf(),
            old(self).player.spawn_timer - dt > 0 ==> final(self).player == (Player {
                spawn_timer: (old(self).player.spawn_timer - dt) as i64,
                ..old(self).player
            }) && final(self).zombies@ == old(self).zombies@,
            old(self).player.spawn_timer - dt <= 0 ==> exists|row: int, speed: int|
                Y_MIN_IDX <= row < Y_END_IDX && ZOMBIE_SPEED_MIN <= speed < ZOMBIE_SPEED_MAX
                    && final(self).player == (Player {
                    spawn_timer: speed as i64,
                    ..old(self).player
                }) && final(self).zombies@ == old(self).zombies@.push(
                    spawned_zombie(row, speed),
                ),
            final(self).plants@ == old(self).plants@,
            final(self).bullets@ == old(self).bullets@,
            final(self).decorations@ == old(self).decorations@,
            final(self).score == old(self).score,
            final(self).score_text@ == old(self).score_text@,
    {
        if self.player.spawn_timer - dt > 0 {
            self.player.spawn_timer = self.player.spawn_timer - dt;
        } else {
            let row = sample_in(Y_MIN_IDX, Y_END_IDX);
            let speed = sample_in(ZOMBIE_SPEED_MIN, ZOMBIE_SPEED_MAX);
            self.spawner_step_with(dt, row, speed);
            proof {
                let r: int = row as int;
                let s: int = speed as int;
                assert(Y_MIN_IDX <= r && r < Y_END_IDX);
                assert(ZOMBIE_SPEED_MIN <= s && s < ZOMBIE_SPEED_MAX);
                assert(self.player == (Player { spawn_timer: s as i64, ..old(self).player }));
                assert(self.zombies@ == old(self).zombies@.push(spawned_zombie(r, s)));
            }
        }
    }

    /// Player controller: applies each pressed movement key as one tile of
    /// translation (keys act independently), clamps the result to the
    /// field's world bounds on both axes, and places a plant and/or a
    /// decoration at the clamped position for the edge-triggered spawn keys,
    /// at most one each per frame.
    pub fn player_step(&mut self, inp: InputSnapshot)
        requires
            old(self).wf(),
        ensures
            final(self).wf(),
            final(self).player.x == spec_player_x(old(self).player.x as int, inp),
            final(self).player.y == spec_player_y(old(self).player.y as int, inp),
            final(self).player.spawn_timer == old(self).player.spawn_timer,
            LEFT_BOUND <= final(self).player.x <= PLAYER_MAX_X,
            BOTTOM_BOUND <= final(self).player.y <= TOP_BOUND,
            inp.spawn_plant ==> final(self).plants@ == old(self).plants@.push(
                planted_plant(final(self).player.x as int, final(self).player.y as int),
            ),
            !inp.spawn_plant ==> final(self).plants@ == old(self).plants@,
            inp.spawn_decoration ==> final(self).decorations@ == old(self).decorations@.push(
                placed_decoration(final(self).player.x as int, final(self).player.y as int),
            ),
            !inp.spawn_decoration ==> final(self).decorations@ == old(self).decorations@,
            final(self).zombies@ == old(self).zombies@,
            final(self).bullets@ == old(self).bullets@,
            final(self).score == old(self).score,
            final(self).score_text@ == old(self).score_text@,
    {
        let mut x = self.player.x;
        let mut y = self.player.y;
        if inp.up {
            y = y + PITCH;
        }
        if inp.left {
            x = x - PITCH;
        }
        if inp.down {
            y = y - PITCH;
        }
        if inp.right {
            x = x + PITCH;
        }
        x = clamp_coord(x, LEFT_BOUND, PLAYER_MAX_X);
        y = clamp_coord(y, BOTTOM_BOUND, TOP_BOUND);
        self.player.x = x;
        self.player.y = y;
        if inp.spawn_plant {
            self.plants.push(Plant { x, y, reload: PLANT_RELOAD });
        }
        if inp.spawn_decoration {
            self.decorations.push(Decoration { x, y });
        }
    }

    /// Collision & scoring system: every live bullet is tested against
    /// every live zombie; a bullet is consumed by the first zombie in store
    /// order within the collision distance (the documented deterministic
    /// tie-break), that zombie is removed with it, and each hit adds exactly
    /// the kill reward to the score, whose display text is reformatted with
    /// two decimal digits. The score never decreases.
    pub fn collision_step(&mut self)
        requires
            old(self).wf(),
            old(self).score + KILL_REWARD * old(self).zombies@.len() <= u64::MAX,
        ensures
            final(self).wf(),
            final(self).bullets@ == spec_collisions(old(self).bullets@, old(self).zombies@).0,
            final(self).zombies@ == spec_collisions(old(self).bullets@, old(self).zombies@).1,
            final(self).score == old(self).score + KILL_REWARD * spec_collisions(
                old(self).bullets@,
                old(self).zombies@,
            ).2,
            final(self).score >= old(self).score,
            final(self).score_text@ == spec_score_text(final(self).score as nat),
            final(self).player == old(self).player,
            final(self).plants@ == old(self).plants@,
            final(self).decorations@ == old(self).decorations@,
    {
        let mut bullets_in: Vec<Bullet> = Vec::new();
        core::mem::swap(&mut bullets_in, &mut self.bullets);
        let mut zombies_in: Vec<Zombie> = Vec::new();
        core::mem::swap(&mut zombies_in, &mut self.zombies);
        proof {
            assert(bullets_in@.skip(0) =~= bullets_in@);
            lemma_collisions_counts(bullets_in@, zombies_in@);
        }
        let (kept_bullets, kept_zombies, hits) = collide_from(&bullets_in, 0, zombies_in);
        self.bullets = kept_bullets;
        self.zombies = kept_zombies;
        self.score = self.score + KILL_REWARD * hits;
        self.score_text = format_score(self.score);
    }

    /// One full simulation step for a frame with elapsed time `dt` and key
    /// snapshot `inp`, in the documented system order: player controller,
    /// timer-driven spawners (zombies, then plant reloads), movement &
    /// lifetime, then collision & scoring. Well-formedness is preserved, the
    /// score never decreases, the player stays clamped to the field, and
    /// plants are permanent: one is added exactly on the plant key, none is
    /// ever removed. The entity stores and the score follow the frame
    /// pipeline exactly, with the zombie spawn parameters existentially
    /// quantified over their sampling ranges.
    pub fn step(&mut self, dt: i64, inp: InputSnapshot)
        requires
            old(self).wf(),
            0 <= dt <= TIMER_LIMIT,
            old(self).score + KILL_REWARD * (old(self).zombies@.len() + 1) <= u64::MAX,
        ensures
            final(self).wf(),
            final(self).score >= old(self).score,
            final(self).score_text@ == spec_score_text(final(self).score as nat),
            final(self).player.x == spec_player_x(old(self).player.x as int, inp),
            final(self).player.y == spec_player_y(old(self).player.y as int, inp),
            LEFT_BOUND <= final(self).player.x <= PLAYER_MAX_X,
            BOTTOM_BOUND <= final(self).player.y <= TOP_BOUND,
            final(self).plants@.len() == plants_after_controller(*old(self), inp).len(),
            forall|i: int|
                0 <= i < final(self).plants@.len() ==> final(self).plants@[i] == ticked_plant(
                    #[trigger] plants_after_controller(*old(self), inp)[i],
                    dt as int,
                ),
            inp.spawn_decoration ==> final(self).decorations@ == old(self).decorations@.push(
                placed_decoration(
                    spec_player_x(old(self).player.x as int, inp),
                    spec_player_y(old(self).player.y as int, inp),
                ),
            ),
            !inp.spawn_decoration ==> final(self).decorations@ == old(self).decorations@,
            old(self).player.spawn_timer - dt > 0 ==> final(self).player.spawn_timer == old(
                self,
            ).player.spawn_timer - dt && frame_outcome_matches(
                *old(self),
                *final(self),
                inp,
                dt as int,
                old(self).zombies@,
            ),
            old(self).player.spawn_timer - dt <= 0 ==> exists|row: int, speed: int|
                Y_MIN_IDX <= row < Y_END_IDX && ZOMBIE_SPEED_MIN <= speed < ZOMBIE_SPEED_MAX
                    && final(self).player.spawn_timer == speed && frame_outcome_matches(
                    *old(self),
                    *final(self),
                    inp,
                    dt as int,
                    old(self).zombies@.push(#[trigger] spawned_zombie(row, speed)),
                ),
    {
        self.player_step(inp);
        let ghost plants_ctrl: Seq<Plant> = self.plants@;
        let ghost bullets0: Seq<Bullet> = self.bullets@;
        let ghost zombies0: Seq<Zombie> = self.zombies@;
        proof {
            assert(plants_ctrl == plants_after_controller(*old(self), inp));
        }
        self.spawner_step(dt);
        let ghost zombies1: Seq<Zombie> = self.zombies@;
        proof {
            assert(zombies1.len() <= old(self).zombies@.len() + 1);
        }
        self.plant_step(dt);
        self.zombie_step();
        proof {
            lemma_zombie_step_len(zombies1);
        }
        self.bullet_move_step();
        self.bullet_lifetime_step(dt);
        proof {
            assert(self.zombies@.len() <= old(self).zombies@.len() + 1);
            assert(self.score + KILL_REWARD * self.zombies@.len() <= u64::MAX);
            assert(self.bullets@ == spec_bullet_life_step(
                spec_bullet_move_step(bullets0 + spec_fired_bullets(plants_ctrl, dt as int)),
                dt as int,
            ));
        }
        self.collision_step();
        proof {
            if old(self).player.spawn_timer - dt > 0 {
                assert(zombies1 == zombies0);
            } else {
                let (row, speed) = choose|row: int, speed: int|
                    Y_MIN_IDX <= row < Y_END_IDX && ZOMBIE_SPEED_MIN <= speed < ZOMBIE_SPEED_MAX
                        && self.player.spawn_timer == speed && zombies1 == zombies0.push(
                        #[trigger] spawned_zombie(row, speed),
                    );
                assert(zombies1 == old(self).zombies@.push(spawned_zombie(row, speed)));
                assert(frame_outcome_matches(*old(self), *self, inp, dt as int, zombies1));
            }
        }
    }
}

/// The plants right after the controller pass of a frame: the old plants,
/// plus the one the player placed at its clamped position on the plant key.
pub open spec fn plants_after_controller(g: GameState, inp: InputSnapshot) -> Seq<Plant> {
    if inp.spawn_plant {
        g.plants@.push(
            planted_plant(
                spec_player_x(g.player.x as int, inp),
                spec_player_y(g.player.y as int, inp),
            ),
        )
    } else {
        g.plants@
    }
}

/// The movement, lifetime and collision pipeline of one frame: given the
/// zombies right after spawning (`zombies_spawned`), the frame's bullets are
/// the old ones plus those fired by the ticked plants, then moved, then aged
/// by `dt`; the spawned zombies advance once; and the collision pass on the
/// two decides the post-frame stores and the score.
pub open spec fn frame_outcome_matches(
    pre: GameState,
    post: GameState,
    inp: InputSnapshot,
    dt: int,
    zombies_spawned: Seq<Zombie>,
) -> bool {
    let survivors = spec_collisions(
        spec_bullet_life_step(
            spec_bullet_move_step(
                pre.bullets@ + spec_fired_bullets(plants_after_controller(pre, inp), dt),
            ),
            dt,
        ),
        spec_zombie_step(zombies_spawned),
    );
    &&& post.bullets@ == survivors.0
    &&& post.zombies@ == survivors.1
    &&& post.score == pre.score + KILL_REWARD * survivors.2
}

} // verus!
