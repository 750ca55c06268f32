//! Laws of the simulation that span several steps or relate several
//! systems, each stated and proved over the step specifications.

use vstd::prelude::*;
use crate::entities::{Zombie, Plant, Bullet, wf_zombie, wf_plant, wf_bullet, TIMER_LIMIT};
use crate::grid::{LEFT_BOUND, RIGHT_BOUND};
use crate::sim::{
    moved_zombie, spec_zombie_step, moved_bullet, spec_bullet_move_step, ticked_bullet,
    spec_bullet_life_step, ticked_plant, plant_fires, spec_fired_bullets,
};
use crate::state::PLANT_RELOAD;

verus! {

/// The total elapsed time of a run of steps.
pub open spec fn total_elapsed(dts: Seq<int>) -> int
    decreases dts.len(),
{
    if dts.len() == 0 {
        0
    } else {
        total_elapsed(dts.drop_last()) + dts.last()
    }
}

/// A spawner countdown run over the elapsed times `dts`, starting from
/// `t0` and resetting to `reset` on expiry: the remaining time after the
/// run, and how many times the timer fired. Each step ticks the countdown
/// once; it fires exactly when the tick reaches or crosses zero, and the
/// overshoot is discarded by the reset.
pub open spec fn run_countdown(t0: int, reset: int, dts: Seq<int>) -> (int, nat)
    decreases dts.len(),
{
    if dts.len() == 0 {
        (t0, 0nat)
    } else {
        let pre = run_countdown(t0, reset, dts.drop_last());
        if pre.0 - dts.last() > 0 {
            (pre.0 - dts.last(), pre.1)
        } else {
            (reset, (pre.1 + 1) as nat)
        }
    }
}

/// While a countdown has never fired, its remaining time is exactly the
/// start value less the total elapsed time, and still positive.
proof fn lemma_countdown_no_fire(t0: int, reset: int, dts: Seq<int>)
    requires
        0 < t0,
    ensures
        run_countdown(t0, reset, dts).1 == 0 ==> run_countdown(t0, reset, dts).0 == t0
            - total_elapsed(dts) && run_countdown(t0, reset, dts).0 > 0,
    decreases dts.len(),
{
    if dts.len() > 0 {
        lemma_countdown_no_fire(t0, reset, dts.drop_last());
    }
}

/// A countdown whose run reaches its starting time fires: after any steps
/// of non-negative elapsed times totalling at least the initial remaining
/// time, at least one spawn event has fired.
pub proof fn lemma_countdown_fires(t0: int, reset: int, dts: Seq<int>)
    requires
        0 < t0,
        total_elapsed(dts) >= t0,
    ensures
        run_countdown(t0, reset, dts).1 >= 1,
{
    lemma_countdown_no_fire(t0, reset, dts);
}

/// A countdown never fires more than once per step, however far the
/// elapsed time overshoots the remaining time.
pub proof fn lemma_countdown_once_per_step(t0: int, reset: int, dts: Seq<int>, dt: int)
    ensures
        run_countdown(t0, reset, dts.push(dt)).1 <= run_countdown(t0, reset, dts).1 + 1,
{
    assert(dts.push(dt).drop_last() =~= dts);
    assert(dts.push(dt).last() == dt);
}

/// One pass of the plant system ticks a plant's reload countdown exactly
/// once: its new reload value and whether it fired are one step of the
/// countdown with its fixed reset interval.
pub proof fn lemma_plant_follows_countdown(p: Plant, dt: int)
    requires
        wf_plant(p),
        0 <= dt <= TIMER_LIMIT,
    ensures
        ticked_plant(p, dt).reload == run_countdown(p.reload as int, PLANT_RELOAD as int, seq![dt]).0,
        plant_fires(p, dt) <==> run_countdown(p.reload as int, PLANT_RELOAD as int, seq![dt]).1
            == 1,
{
    let one = seq![dt];
    assert(one.drop_last() =~= Seq::<int>::empty());
    assert(one.last() == dt);
    assert(run_countdown(p.reload as int, PLANT_RELOAD as int, Seq::<int>::empty()) == (
        p.reload as int,
        0nat,
    ));
    if p.reload - dt > 0 {
        assert(run_countdown(p.reload as int, PLANT_RELOAD as int, one) == (p.reload - dt, 0nat));
    } else {
        assert(run_countdown(p.reload as int, PLANT_RELOAD as int, one) == (
            PLANT_RELOAD as int,
            1nat,
        ));
    }
}

/// One pass of the zombie spawner ticks the player's spawn countdown
/// exactly once: the new remaining time and whether a zombie spawned are
/// one step of the countdown whose reset value is the sampled speed.
pub proof fn lemma_spawner_follows_countdown(t0: int, speed: int, dt: int)
    requires
        -TIMER_LIMIT <= t0 <= TIMER_LIMIT,
        0 <= dt <= TIMER_LIMIT,
    ensures
        (if t0 - dt > 0 {
            t0 - dt
        } else {
            speed
        }) == run_countdown(t0, speed, seq![dt]).0,
        (t0 - dt <= 0) <==> run_countdown(t0, speed, seq![dt]).1 == 1,
{
    let one = seq![dt];
    assert(one.drop_last() =~= Seq::<int>::empty());
    assert(one.last() == dt);
    assert(run_countdown(t0, speed, Seq::<int>::empty()) == (t0, 0nat));
    if t0 - dt > 0 {
        assert(run_countdown(t0, speed, one) == (t0 - dt, 0nat));
    } else {
        assert(run_countdown(t0, speed, one) == (speed, 1nat));
    }
}

/// One pass of the plant system fires at most one bullet per plant.
pub proof fn lemma_one_bullet_per_plant(s: Seq<Plant>, dt: int)
    ensures
        spec_fired_bullets(s, dt).len() <= s.len(),
    decreases s.len(),
{
    if s.len() > 0 {
        lemma_one_bullet_per_plant(s.drop_last(), dt);
    }
}

/// Zombie motion law: every zombie surviving a movement pass advanced by
/// exactly its own speed; every survivor sits strictly right of the left
/// boundary, so a zombie whose advance reached the boundary is absent from
/// the store afterwards; and every zombie whose advance stays inside does
/// survive.
pub proof fn lemma_zombie_motion(s: Seq<Zombie>)
    requires
        forall|i: int| 0 <= i < s.len() ==> wf_zombie(#[trigger] s[i]),
    ensures
        forall|i: int|
            0 <= i < spec_zombie_step(s).len() ==> #[trigger] spec_zombie_step(s)[i].x
                > LEFT_BOUND,
        forall|i: int|
            0 <= i < spec_zombie_step(s).len() ==> exists|j: int|
                0 <= j < s.len() && #[trigger] spec_zombie_step(s)[i] == moved_zombie(s[j]),
        forall|j: int|
            0 <= j < s.len() && (#[trigger] s[j]).x - s[j].speed > LEFT_BOUND
                ==> spec_zombie_step(s).contains(moved_zombie(s[j])),
    decreases s.len(),
{
    if s.len() > 0 {
        assert forall|k: int| 0 <= k < s.drop_last().len() implies wf_zombie(
            #[trigger] s.drop_last()[k],
        ) by {
            assert(s.drop_last()[k] == s[k]);
        }
        lemma_zombie_motion(s.drop_last());
        let pre = spec_zombie_step(s.drop_last());
        let m = moved_zombie(s.last());
        assert forall|j: int|
            0 <= j < s.len() && (#[trigger] s[j]).x - s[j].speed > LEFT_BOUND implies
            spec_zombie_step(s).contains(moved_zombie(s[j])) by {
            if j < s.len() - 1 {
                assert(s.drop_last()[j] == s[j]);
                assert(pre.contains(moved_zombie(s[j])));
                let k = choose|k: int| 0 <= k < pre.len() && pre[k] == moved_zombie(s[j]);
                assert(spec_zombie_step(s)[k] == moved_zombie(s[j]));
            } else {
                assert(spec_zombie_step(s).last() == m);
            }
        }
        assert forall|i: int|
            0 <= i < spec_zombie_step(s).len() implies exists|j: int|
            0 <= j < s.len() && #[trigger] spec_zombie_step(s)[i] == moved_zombie(s[j]) by {
            if i < pre.len() {
                assert(spec_zombie_step(s)[i] == pre[i]);
                let j = choose|j: int|
                    0 <= j < s.drop_last().len() && pre[i] == moved_zombie(s.drop_last()[j]);
                assert(s.drop_last()[j] == s[j]);
                assert(spec_zombie_step(s)[i] == moved_zombie(s[j]));
            } else {
                assert(spec_zombie_step(s)[i] == m);
                assert(spec_zombie_step(s)[i] == moved_zombie(s[s.len() - 1]));
            }
        }
    }
}

/// Bullet motion law: every bullet surviving a movement pass advanced by
/// exactly its own speed; every survivor sits strictly left of the right
/// boundary, so a bullet that left the field is absent from the store
/// afterwards; and every bullet whose advance stays inside does survive.
pub proof fn lemma_bullet_motion(s: Seq<Bullet>)
    requires
        forall|i: int| 0 <= i < s.len() ==> wf_bullet(#[trigger] s[i]),
    ensures
        forall|i: int|
            0 <= i < spec_bullet_move_step(s).len() ==> #[trigger] spec_bullet_move_step(s)[i].x
                < RIGHT_BOUND,
        forall|i: int|
            0 <= i < spec_bullet_move_step(s).len() ==> exists|j: int|
                0 <= j < s.len() && #[trigger] spec_bullet_move_step(s)[i] == moved_bullet(s[j]),
        forall|j: int|
            0 <= j < s.len() && (#[trigger] s[j]).x + s[j].speed < RIGHT_BOUND
                ==> spec_bullet_move_step(s).contains(moved_bullet(s[j])),
    decreases s.len(),
{
    if s.len() > 0 {
        assert forall|k: int| 0 <= k < s.drop_last().len() implies wf_bullet(
            #[trigger] s.drop_last()[k],
        ) by {
            assert(s.drop_last()[k] == s[k]);
        }
        lemma_bullet_motion(s.drop_last());
        let pre = spec_bullet_move_step(s.drop_last());
        let m = moved_bullet(s.last());
        assert forall|j: int|
            0 <= j < s.len() && (#[trigger] s[j]).x + s[j].speed < RIGHT_BOUND implies
            spec_bullet_move_step(s).contains(moved_bullet(s[j])) by {
            if j < s.len() - 1 {
                assert(s.drop_last()[j] == s[j]);
                assert(pre.contains(moved_bullet(s[j])));
                let k = choose|k: int| 0 <= k < pre.len() && pre[k] == moved_bullet(s[j]);
                assert(spec_bullet_move_step(s)[k] == moved_bullet(s[j]));
            } else {
                assert(spec_bullet_move_step(s).last() == m);
            }
        }
        assert forall|i: int|
            0 <= i < spec_bullet_move_step(s).len() implies exists|j: int|
            0 <= j < s.len() && #[trigger] spec_bullet_move_step(s)[i] == moved_bullet(s[j]) by {
            if i < pre.len() {
                assert(spec_bullet_move_step(s)[i] == pre[i]);
                let j = choose|j: int|
                    0 <= j < s.drop_last().len() && pre[i] == moved_bullet(s.drop_last()[j]);
                assert(s.drop_last()[j] == s[j]);
                assert(spec_bullet_move_step(s)[i] == moved_bullet(s[j]));
            } else {
                assert(spec_bullet_move_step(s)[i] == m);
                assert(spec_bullet_move_step(s)[i] == moved_bullet(s[s.len() - 1]));
            }
        }
    }
}

/// Bullet lifetime law: a lifetime pass ticks every live bullet's lifetime
/// down exactly once by the elapsed time; a bullet survives it exactly when
/// its remaining lifetime stays positive, so every bullet whose lifetime
/// elapsed is absent from the store afterwards.
pub proof fn lemma_bullet_lifetime(s: Seq<Bullet>, dt: int)
    requires
        forall|i: int| 0 <= i < s.len() ==> wf_bullet(#[trigger] s[i]),
        0 <= dt <= TIMER_LIMIT,
    ensures
        forall|i: int|
            0 <= i < spec_bullet_life_step(s, dt).len() ==> (#[trigger] spec_bullet_life_step(
                s,
                dt,
            )[i]).lifetime > 0,
        forall|i: int|
            0 <= i < spec_bullet_life_step(s, dt).len() ==> exists|j: int|
                0 <= j < s.len() && #[trigger] spec_bullet_life_step(s, dt)[i] == ticked_bullet(
                    s[j],
                    dt,
                ),
        forall|j: int|
            0 <= j < s.len() && (#[trigger] s[j]).lifetime - dt > 0 ==> spec_bullet_life_step(
                s,
                dt,
            ).contains(ticked_bullet(s[j], dt)),
    decreases s.len(),
{
    if s.len() > 0 {
        assert forall|k: int| 0 <= k < s.drop_last().len() implies wf_bullet(
            #[trigger] s.drop_last()[k],
        ) by {
            assert(s.drop_last()[k] == s[k]);
        }
        lemma_bullet_lifetime(s.drop_last(), dt);
        let pre = spec_bullet_life_step(s.drop_last(), dt);
        let m = ticked_bullet(s.last(), dt);
        assert forall|j: int|
            0 <= j < s.len() && (#[trigger] s[j]).lifetime - dt > 0 implies spec_bullet_life_step(
            s,
            dt,
        ).contains(ticked_bullet(s[j], dt)) by {
            if j < s.len() - 1 {
                assert(s.drop_last()[j] == s[j]);
                assert(pre.contains(ticked_bullet(s[j], dt)));
                let k = choose|k: int| 0 <= k < pre.len() && pre[k] == ticked_bullet(s[j], dt);
                assert(spec_bullet_life_step(s, dt)[k] == ticked_bullet(s[j], dt));
            } else {
                assert(spec_bullet_life_step(s, dt).last() == m);
            }
        }
        assert forall|i: int|
            0 <= i < spec_bullet_life_step(s, dt).len() implies exists|j: int|
            0 <= j < s.len() && #[trigger] spec_bullet_life_step(s, dt)[i] == ticked_bullet(
            s[j],
            dt,
        ) by {
            if i < pre.len() {
                assert(spec_bullet_life_step(s, dt)[i] == pre[i]);
                let j = choose|j: int|
                    0 <= j < s.drop_last().len() && pre[i] == ticked_bullet(s.drop_last()[j], dt);
                assert(s.drop_last()[j] == s[j]);
                assert(spec_bullet_life_step(s, dt)[i] == ticked_bullet(s[j], dt));
            } else {
                assert(spec_bullet_life_step(s, dt)[i] == m);
                assert(spec_bullet_life_step(s, dt)[i] == ticked_bullet(s[s.len() - 1], dt));
            }
        }
    }
}

} // verus!
