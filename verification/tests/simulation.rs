use zombie_plant::entities::{Bullet, Decoration, InputSnapshot, Plant, Player, Zombie};
use zombie_plant::grid::{BOTTOM_BOUND, LEFT_BOUND, PITCH, PLAYER_MAX_X, TOP_BOUND};
use zombie_plant::score::format_score;
use zombie_plant::state::{
    GameState, BULLET_LIFETIME, BULLET_SPEED, PLANT_RELOAD, SPAWN_TIMER_INIT, ZOMBIE_SPAWN_X,
    ZOMBIE_SPEED_MAX, ZOMBIE_SPEED_MIN,
};

fn fresh_state() -> GameState {
    GameState::initial()
}

fn test_bullet(x: i64, y: i64) -> Bullet {
    Bullet {
        x,
        y,
        speed: BULLET_SPEED,
        dir_x: 100,
        dir_y: 0,
        damage: 1,
        lifetime: BULLET_LIFETIME,
    }
}

fn test_zombie(x: i64, y: i64, speed: i64) -> Zombie {
    Zombie { x, y, speed }
}

#[test]
fn initial_state_is_fresh() {
    let s = fresh_state();
    assert_eq!(
        s.player,
        Player { x: LEFT_BOUND, y: BOTTOM_BOUND, spawn_timer: SPAWN_TIMER_INIT }
    );
    assert!(s.zombies.is_empty());
    assert!(s.plants.is_empty());
    assert!(s.bullets.is_empty());
    assert!(s.decorations.is_empty());
    assert_eq!(s.score, 0);
    assert_eq!(s.score_text, "0.00");
}

// Spawner scenario: reset interval 5.0, dt = 1.0 per step for 5 steps; the
// expiry fires on the 5th step, not the 4th or the 6th.
#[test]
fn plant_fires_on_fifth_step() {
    let mut s = fresh_state();
    s.plants.push(Plant { x: 0, y: 0, reload: PLANT_RELOAD });
    for step in 1..=4 {
        s.plant_step(100);
        assert_eq!(s.bullets.len(), 0, "no bullet before the 5th step (step {step})");
    }
    s.plant_step(100);
    assert_eq!(s.bullets.len(), 1, "exactly one bullet on the 5th step");
    assert_eq!(s.plants[0].reload, PLANT_RELOAD, "reload resets on expiry");
    s.plant_step(100);
    assert_eq!(s.bullets.len(), 1, "no second bullet on the 6th step");
}

#[test]
fn fired_bullet_has_fixed_parameters() {
    let mut s = fresh_state();
    s.plants.push(Plant { x: 4200, y: -300, reload: 50 });
    s.plant_step(100);
    assert_eq!(s.bullets.len(), 1);
    let b = s.bullets[0];
    assert_eq!((b.x, b.y), (4200, -300), "bullet appears at the plant's exact position");
    assert_eq!(b.speed, BULLET_SPEED);
    assert_eq!(b.lifetime, BULLET_LIFETIME);
    assert_eq!((b.dir_x, b.dir_y), (100, 0));
    assert_eq!(b.damage, 1);
}

// Timer underflow: a dt far past the remaining time still fires exactly one
// spawn, and the overshoot is discarded by the reset.
#[test]
fn plant_underflow_fires_exactly_once() {
    let mut s = fresh_state();
    s.plants.push(Plant { x: 0, y: 0, reload: 100 });
    s.plant_step(1000);
    assert_eq!(s.bullets.len(), 1);
    assert_eq!(s.plants[0].reload, PLANT_RELOAD);
}

#[test]
fn spawner_fires_on_fifth_step() {
    let mut s = fresh_state();
    s.player.spawn_timer = 500;
    for _ in 0..4 {
        s.spawner_step(100);
        assert_eq!(s.zombies.len(), 0);
    }
    s.spawner_step(100);
    assert_eq!(s.zombies.len(), 1);
}

// The sampled spawn: whatever the random draws, the zombie appears at the
// rightmost column, on a field row, with a speed from the bounded interval,
// and the countdown resets to that same speed.
#[test]
fn spawned_zombie_is_in_range() {
    for _ in 0..50 {
        let mut s = fresh_state();
        s.player.spawn_timer = 1;
        s.spawner_step(100);
        assert_eq!(s.zombies.len(), 1);
        let z = s.zombies[0];
        assert_eq!(z.x, ZOMBIE_SPAWN_X);
        assert!(z.y % PITCH == 0, "zombie sits on a grid row");
        assert!((-5 * PITCH..4 * PITCH).contains(&z.y));
        assert!((ZOMBIE_SPEED_MIN..ZOMBIE_SPEED_MAX).contains(&z.speed));
        assert_eq!(s.player.spawn_timer, z.speed, "spawn interval couples to the zombie speed");
    }
}

// Zombie motion: x strictly decreases by exactly the per-entity speed.
#[test]
fn zombie_moves_left_by_its_speed() {
    let mut s = fresh_state();
    s.zombies.push(test_zombie(0, 5000, 70));
    s.zombies.push(test_zombie(20000, 0, 25));
    s.zombie_step();
    assert_eq!(s.zombies.len(), 2);
    assert_eq!(s.zombies[0].x, -70);
    assert_eq!(s.zombies[1].x, 19975);
    assert_eq!(s.zombies[0].y, 5000, "row never changes");
}

// Scenario: zombie at x = leftBoundary + 1 with speed 3 steps to
// leftBoundary - 2 and is removed.
#[test]
fn zombie_crossing_left_boundary_is_removed() {
    let mut s = fresh_state();
    s.zombies.push(test_zombie(LEFT_BOUND + 100, 0, 300));
    s.zombie_step();
    assert_eq!(s.zombies.len(), 0);
}

#[test]
fn zombie_landing_on_boundary_is_removed() {
    let mut s = fresh_state();
    s.zombies.push(test_zombie(LEFT_BOUND + 300, 0, 300));
    s.zombie_step();
    assert_eq!(s.zombies.len(), 0, "x == leftBoundary counts as out of play");
}

// Bullet motion: x strictly increases by exactly the per-entity speed.
#[test]
fn bullet_moves_right_by_its_speed() {
    let mut s = fresh_state();
    s.bullets.push(test_bullet(10000, 0));
    s.bullet_move_step();
    assert_eq!(s.bullets.len(), 1);
    assert_eq!(s.bullets[0].x, 10400);
}

#[test]
fn bullet_leaving_field_is_removed() {
    let mut s = fresh_state();
    s.bullets.push(test_bullet(34900, 0));
    s.bullet_move_step();
    assert_eq!(s.bullets.len(), 0);
}

// Lifetime is ticked exactly once per step regardless of velocity, and the
// bullet is removed exactly when it elapses.
#[test]
fn bullet_lifetime_elapses() {
    let mut s = fresh_state();
    let mut b = test_bullet(0, 0);
    b.lifetime = 150;
    s.bullets.push(b);
    s.bullet_lifetime_step(100);
    assert_eq!(s.bullets.len(), 1);
    assert_eq!(s.bullets[0].lifetime, 50);
    s.bullet_lifetime_step(100);
    assert_eq!(s.bullets.len(), 0);
}

// Scenario: bullet at x=100 speed=4, zombie at x=108, threshold 10; after
// one movement step the distance is 4 < 10, both are removed and the score
// gains exactly 10.00.
#[test]
fn bullet_hits_zombie_and_scores() {
    let mut s = fresh_state();
    s.bullets.push(test_bullet(10000, 0));
    s.zombies.push(test_zombie(10800, 0, 50));
    s.bullet_move_step();
    assert_eq!(s.bullets[0].x, 10400);
    s.collision_step();
    assert_eq!(s.bullets.len(), 0);
    assert_eq!(s.zombies.len(), 0);
    assert_eq!(s.score, 1000);
    assert_eq!(s.score_text, "10.00");
}

#[test]
fn distant_pair_does_not_collide() {
    let mut s = fresh_state();
    s.bullets.push(test_bullet(10000, 0));
    s.zombies.push(test_zombie(11000, 0, 50));
    s.collision_step();
    assert_eq!(s.bullets.len(), 1, "distance exactly 10.00 is no hit");
    assert_eq!(s.zombies.len(), 1);
    assert_eq!(s.score, 0);
    assert_eq!(s.score_text, "0.00");
}

// The documented tie-break: a bullet within range of several zombies takes
// out the first one in store order, and only that one.
#[test]
fn bullet_takes_first_zombie_in_store_order() {
    let mut s = fresh_state();
    s.bullets.push(test_bullet(0, 0));
    s.zombies.push(test_zombie(500, 0, 30));
    s.zombies.push(test_zombie(200, 0, 40));
    s.collision_step();
    assert_eq!(s.bullets.len(), 0);
    assert_eq!(s.zombies.len(), 1);
    assert_eq!(s.zombies[0].x, 200, "the nearer but later zombie survives");
    assert_eq!(s.score, 1000);
}

// Score is monotonically non-decreasing and gains exactly 10.00 per hit.
#[test]
fn two_hits_gain_twenty() {
    let mut s = fresh_state();
    s.bullets.push(test_bullet(0, 0));
    s.bullets.push(test_bullet(0, 10000));
    s.zombies.push(test_zombie(100, 0, 30));
    s.zombies.push(test_zombie(100, 10000, 30));
    s.collision_step();
    assert_eq!(s.bullets.len(), 0);
    assert_eq!(s.zombies.len(), 0);
    assert_eq!(s.score, 2000);
    assert_eq!(s.score_text, "20.00");
}

// Player clamping: leftBoundary <= x <= rightBoundary and
// bottomBoundary <= y <= topBoundary always hold after a controller pass.
#[test]
fn player_is_clamped_at_field_edges() {
    let mut s = fresh_state();
    let press_left = InputSnapshot { left: true, ..InputSnapshot::idle() };
    s.player_step(press_left);
    assert_eq!(s.player.x, LEFT_BOUND, "cannot leave the field on the left");
    let press_down = InputSnapshot { down: true, ..InputSnapshot::idle() };
    s.player_step(press_down);
    assert_eq!(s.player.y, BOTTOM_BOUND, "cannot leave the field at the bottom");
    s.player.x = PLAYER_MAX_X;
    s.player.y = TOP_BOUND;
    let press_right_up = InputSnapshot { right: true, up: true, ..InputSnapshot::idle() };
    s.player_step(press_right_up);
    assert_eq!(s.player.x, PLAYER_MAX_X);
    assert_eq!(s.player.y, TOP_BOUND);
}

#[test]
fn player_moves_one_tile_per_key() {
    let mut s = fresh_state();
    let inp = InputSnapshot { right: true, up: true, ..InputSnapshot::idle() };
    s.player_step(inp);
    assert_eq!(s.player.x, LEFT_BOUND + PITCH);
    assert_eq!(s.player.y, BOTTOM_BOUND + PITCH);
    let both = InputSnapshot { left: true, right: true, ..InputSnapshot::idle() };
    s.player_step(both);
    assert_eq!(s.player.x, LEFT_BOUND + PITCH, "opposite keys cancel out");
}

#[test]
fn player_places_plant_and_decoration() {
    let mut s = fresh_state();
    let inp = InputSnapshot {
        right: true,
        spawn_plant: true,
        spawn_decoration: true,
        ..InputSnapshot::idle()
    };
    s.player_step(inp);
    assert_eq!(s.plants.len(), 1);
    assert_eq!(
        s.plants[0],
        Plant { x: LEFT_BOUND + PITCH, y: BOTTOM_BOUND, reload: PLANT_RELOAD }
    );
    assert_eq!(s.decorations.len(), 1);
    assert_eq!(s.decorations[0], Decoration { x: LEFT_BOUND + PITCH, y: BOTTOM_BOUND });
    let idle = InputSnapshot::idle();
    s.player_step(idle);
    assert_eq!(s.plants.len(), 1, "no spawn without a key edge");
}

// Plants are permanent: nothing in a full frame ever removes one.
#[test]
fn plants_survive_full_steps() {
    let mut s = fresh_state();
    let plant_key = InputSnapshot { spawn_plant: true, ..InputSnapshot::idle() };
    s.step(100, plant_key);
    assert_eq!(s.plants.len(), 1);
    for _ in 0..100 {
        s.step(100, InputSnapshot::idle());
        assert_eq!(s.plants.len(), 1);
    }
}

#[test]
fn full_step_keeps_score_text_consistent() {
    let mut s = fresh_state();
    let plant_key = InputSnapshot { spawn_plant: true, ..InputSnapshot::idle() };
    s.step(100, plant_key);
    for _ in 0..200 {
        let before = s.score;
        s.step(7, InputSnapshot::idle());
        assert!(s.score >= before, "score never decreases");
        assert!(s.score % 1000 == 0, "score only moves in whole rewards");
        assert_eq!(s.score_text, format_score(s.score));
        assert!(s.player.x >= LEFT_BOUND && s.player.x <= PLAYER_MAX_X);
        assert!(s.player.y >= BOTTOM_BOUND && s.player.y <= TOP_BOUND);
    }
}
