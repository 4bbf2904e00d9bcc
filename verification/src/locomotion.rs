//! Behavior locomotion: each behavior tag defines a deterministic base
//! velocity from elapsed per-actor time, phase offset, assigned speed and
//! (for target-seeking tags) the tracked target position.  The final
//! velocity is the base velocity plus the awareness impulse; position
//! integrates velocity by the frame delta; facing is a cosmetic function
//! of the horizontal velocity alone.  Out-of-range inputs degenerate
//! gracefully — every divisor is floored before use.

use vstd::prelude::*;
use crate::actor::{Enemy, TIMER_CAP, enemy_wf};
use crate::behavior::EnemyBehavior;
use crate::config::{Config, config_wf};
use crate::tracker::{PlayerTracker, tracker_wf};
use crate::vec2::{Vec2I, abs, in_world, lemma_prod_bound2, lemma_tdiv_abs, spec_unit_milli, tdiv, unit_milli};

verus! {

/// Piecewise-linear oscillation with the period of a full turn in
/// milli-radians: 0 at 0, up to 1000 at a quarter turn, down through 0 at
/// a half turn to -1000 at three quarters, and back to 0.
pub open spec fn spec_wave(x: int) -> int
    recommends
        x >= 0,
{
    let m = x % 6284;
    if m < 1571 {
        tdiv(m * 1000, 1571)
    } else if m < 4713 {
        tdiv((3142 - m) * 1000, 1571)
    } else {
        tdiv((m - 6284) * 1000, 1571)
    }
}

pub fn wave(x: i64) -> (w: i64)
    requires
        0 <= x <= 4_611_686_018_427_387,
    ensures
        w == spec_wave(x as int),
        -1000 <= w <= 1000,
{
    let m = x % 6284;
    proof {
        lemma_tdiv_abs(m * 1000, 1571);
        lemma_tdiv_abs((3142 - m) * 1000, 1571);
        lemma_tdiv_abs((m - 6284) * 1000, 1571);
        crate::vec2::lemma_abs_mul(m as int, 1000);
        crate::vec2::lemma_abs_mul(3142 - m, 1000);
        crate::vec2::lemma_abs_mul(m - 6284, 1000);
    }
    if m < 1571 {
        crate::vec2::div_trunc(m * 1000, 1571)
    } else if m < 4713 {
        crate::vec2::div_trunc((3142 - m) * 1000, 1571)
    } else {
        crate::vec2::div_trunc((m - 6284) * 1000, 1571)
    }
}

/// The same oscillation a quarter turn ahead.
pub fn wave_shifted(x: i64) -> (w: i64)
    requires
        0 <= x <= 4_611_686_018_425_000,
    ensures
        w == spec_wave(x as int + 1571),
        -1000 <= w <= 1000,
{
    wave(x + 1571)
}

/// The base velocity (units/s) of an actor with the given AI state, as a
/// function of its tag, advanced timer, phase, speed and the tracked
/// target position.
pub open spec fn spec_base_velocity(e: Enemy, target: Vec2I, cfg: Config) -> Vec2I {
    let t = e.ai.timer;
    let ph = e.ai.phase;
    let sp = e.speed as int;
    match e.ai.behavior {
        EnemyBehavior::Linear => Vec2I { x: 0, y: (-sp) as i64 },
        EnemyBehavior::Zigzag => Vec2I {
            x: tdiv(spec_wave(t * 3 + ph) * sp, 1000) as i64,
            y: (-tdiv(sp, 2)) as i64,
        },
        EnemyBehavior::Homing => {
            let u = spec_unit_milli(target.spec_sub(e.pos));
            Vec2I { x: tdiv(u.x * sp, 1000) as i64, y: tdiv(u.y * sp, 1000) as i64 }
        },
        EnemyBehavior::Orbital => {
            let angle = t * 2 + ph;
            let ox = spec_wave(angle + 1571) * 150;
            let oy = 100_000 + spec_wave(angle) * 150;
            let u = spec_unit_milli((Vec2I { x: ox as i64, y: oy as i64 }).spec_sub(e.pos));
            Vec2I { x: tdiv(u.x * sp, 1000) as i64, y: tdiv(u.y * sp, 1000) as i64 }
        },
        EnemyBehavior::Sniper => {
            let target_y = cfg.half_height - 100_000;
            let y_diff = target_y - e.pos.y;
            let approach = if tdiv(abs(y_diff), 1000) < sp {
                tdiv(abs(y_diff), 1000)
            } else {
                sp
            };
            Vec2I {
                x: tdiv(spec_wave(tdiv(t * 3, 2) + ph) * sp, 1000) as i64,
                y: (if y_diff >= 0 {
                    approach
                } else {
                    -approach
                }) as i64,
            }
        },
        EnemyBehavior::Kamikaze => {
            let u = spec_unit_milli(target.spec_sub(e.pos));
            Vec2I { x: tdiv(u.x * 2 * sp, 1000) as i64, y: tdiv(u.y * 2 * sp, 1000) as i64 }
        },
        EnemyBehavior::Weaver => Vec2I {
            x: tdiv(spec_wave(t * 4 + ph) * sp, 1000) as i64,
            y: (-tdiv(sp * 7, 10)) as i64,
        },
        EnemyBehavior::Spawner => {
            if e.pos.y > cfg.half_height - 150_000 {
                Vec2I { x: 0, y: (-tdiv(sp * 3, 10)) as i64 }
            } else {
                Vec2I { x: tdiv(spec_wave(tdiv(t as int, 2)) * sp * 3, 10_000) as i64, y: 0 }
            }
        },
        EnemyBehavior::Tank => {
            let u = spec_unit_milli(target.spec_sub(e.pos));
            Vec2I { x: tdiv(u.x * sp * 3, 10_000) as i64, y: (-tdiv(sp * 4, 10)) as i64 }
        },
        EnemyBehavior::Disintegrator => {
            let to_player = target.spec_sub(e.pos);
            let d2 = crate::vec2::mag_sq(to_player);
            let u = spec_unit_milli(to_player);
            let approach: int = if d2 > 250_000 * 250_000 {
                tdiv(sp * 8, 10)
            } else if d2 < 150_000 * 150_000 {
                -tdiv(sp * 5, 10)
            } else {
                0
            };
            let w = spec_wave(t * 2);
            Vec2I {
                x: (tdiv(u.x * approach, 1000) + tdiv(-u.y * w * sp * 4, 10_000_000)) as i64,
                y: (tdiv(u.y * approach, 1000) + tdiv(u.x * w * sp * 4, 10_000_000) - tdiv(
                    sp * 2,
                    10,
                )) as i64,
            }
        },
    }
}

/// Exec computation of the base velocity; every component stays within
/// twice the assigned speed plus a small strafe allowance.
#[verifier::rlimit(100)]
pub fn base_velocity(e: &Enemy, target: Vec2I, cfg: &Config) -> (v: Vec2I)
    requires
        enemy_wf(*e),
        in_world(target),
        config_wf(*cfg),
    ensures
        v == spec_base_velocity(*e, target, *cfg),
        -3000 <= v.x <= 3000,
        -3000 <= v.y <= 3000,
{
    let t = e.ai.timer;
    let ph = e.ai.phase;
    let sp = e.speed;
    match e.ai.behavior {
        EnemyBehavior::Linear => Vec2I { x: 0, y: -sp },
        EnemyBehavior::Zigzag => {
            let w = wave(t * 3 + ph);
            Vec2I { x: scale_speed(w, sp), y: -(sp / 2) }
        },
        EnemyBehavior::Homing => {
            let u = unit_milli(target.sub(e.pos));
            Vec2I { x: scale_speed(u.x, sp), y: scale_speed(u.y, sp) }
        },
        EnemyBehavior::Orbital => {
            let angle = t * 2 + ph;
            let ox = wave_shifted(angle) * 150;
            let oy = 100_000 + wave(angle) * 150;
            let u = unit_milli((Vec2I { x: ox, y: oy }).sub(e.pos));
            Vec2I { x: scale_speed(u.x, sp), y: scale_speed(u.y, sp) }
        },
        EnemyBehavior::Sniper => {
            let target_y = cfg.half_height - 100_000;
            let y_diff = target_y - e.pos.y;
            let ad = if y_diff >= 0 {
                y_diff
            } else {
                -y_diff
            };
            let adu = ad / 1000;
            let approach = if adu < sp {
                adu
            } else {
                sp
            };
            let w = wave(t * 3 / 2 + ph);
            Vec2I {
                x: scale_speed(w, sp),
                y: if y_diff >= 0 {
                    approach
                } else {
                    -approach
                },
            }
        },
        EnemyBehavior::Kamikaze => {
            let u = unit_milli(target.sub(e.pos));
            proof {
                lemma_prod_bound2(u.x as int, 2, 1000, 2);
                lemma_prod_bound2(u.y as int, 2, 1000, 2);
                lemma_prod_bound2(u.x * 2, sp as int, 2000, 1000);
                lemma_prod_bound2(u.y * 2, sp as int, 2000, 1000);
                lemma_tdiv_abs(u.x * 2 * sp, 1000);
                lemma_tdiv_abs(u.y * 2 * sp, 1000);
            }
            let vx = crate::vec2::div_trunc(u.x * 2 * sp, 1000);
            let vy = crate::vec2::div_trunc(u.y * 2 * sp, 1000);
            Vec2I { x: vx, y: vy }
        },
        EnemyBehavior::Weaver => {
            let w = wave(t * 4 + ph);
            Vec2I { x: scale_speed(w, sp), y: -(sp * 7 / 10) }
        },
        EnemyBehavior::Spawner => {
            if e.pos.y > cfg.half_height - 150_000 {
                Vec2I { x: 0, y: -(sp * 3 / 10) }
            } else {
                let w = wave(t / 2);
                proof {
                    lemma_prod_bound2(spec_wave(tdiv(t as int, 2)), sp as int, 1000, 1000);
                    lemma_prod_bound2(spec_wave(tdiv(t as int, 2)) * sp, 3, 1_000_000, 3);
                    lemma_tdiv_abs(spec_wave(tdiv(t as int, 2)) * sp * 3, 10_000);
                }
                let vx = crate::vec2::div_trunc(w * sp * 3, 10_000);
                Vec2I { x: vx, y: 0 }
            }
        },
        EnemyBehavior::Tank => {
            let u = unit_milli(target.sub(e.pos));
            proof {
                lemma_prod_bound2(u.x as int, sp as int, 1000, 1000);
                lemma_prod_bound2(u.x * sp, 3, 1_000_000, 3);
                lemma_tdiv_abs(u.x * sp * 3, 10_000);
            }
            let vx = crate::vec2::div_trunc(u.x * sp * 3, 10_000);
            Vec2I { x: vx, y: -(sp * 4 / 10) }
        },
        EnemyBehavior::Disintegrator => {
            let to_player = target.sub(e.pos);
            let d2 = to_player.magnitude_sq();
            let u = unit_milli(to_player);
            let approach = if d2 > 250_000 * 250_000 {
                sp * 8 / 10
            } else if d2 < 150_000 * 150_000 {
                -(sp * 5 / 10)
            } else {
                0
            };
            let w = wave(t * 2);
            proof {
                lemma_prod_bound2(u.x as int, approach as int, 1000, 1000);
                lemma_prod_bound2(u.y as int, approach as int, 1000, 1000);
                lemma_tdiv_abs(u.x * approach, 1000);
                lemma_tdiv_abs(u.y * approach, 1000);
                lemma_prod_bound2(-u.y as int, w as int, 1000, 1000);
                lemma_prod_bound2(u.x as int, w as int, 1000, 1000);
                lemma_prod_bound2(-u.y * w, sp as int, 1_000_000, 1000);
                lemma_prod_bound2(u.x * w, sp as int, 1_000_000, 1000);
                lemma_prod_bound2(-u.y * w * sp, 4, 1_000_000_000, 4);
                lemma_prod_bound2(u.x * w * sp, 4, 1_000_000_000, 4);
                lemma_tdiv_abs(-u.y * w * sp * 4, 10_000_000);
                lemma_tdiv_abs(u.x * w * sp * 4, 10_000_000);
            }
            let ax = crate::vec2::div_trunc(u.x * approach, 1000);
            let ay = crate::vec2::div_trunc(u.y * approach, 1000);
            let sx = crate::vec2::div_trunc(-u.y * w * sp * 4, 10_000_000);
            let sy = crate::vec2::div_trunc(u.x * w * sp * 4, 10_000_000);
            Vec2I { x: ax + sx, y: ay + sy - sp * 2 / 10 }
        },
    }
}

/// A milli-scaled factor times the speed: `f * sp / 1000`.
fn scale_speed(f: i64, sp: i64) -> (r: i64)
    requires
        -1000 <= f <= 1000,
        0 <= sp <= 1000,
    ensures
        r == tdiv(f as int * sp, 1000),
        -1000 <= r <= 1000,
{
    proof {
        lemma_prod_bound2(f as int, sp as int, 1000, 1000);
        lemma_tdiv_abs(f * sp, 1000);
    }
    crate::vec2::div_trunc(f * sp, 1000)
}

/// One world coordinate clamped to the world box.
pub open spec fn spec_clamp_world(c: int) -> int {
    if c < -100_000_000 {
        -100_000_000
    } else if c > 100_000_000 {
        100_000_000
    } else {
        c
    }
}

/// Cosmetic facing tilt, in milli-radians, from the horizontal velocity
/// component only: `(vx / max(speed, 1)) * 0.2`, clamped to one fifth of a
/// radian either way.  The speed is floored before use as a divisor.
pub open spec fn spec_tilt(vx: int, speed: int) -> int {
    let s = if speed < 1 {
        1
    } else {
        speed
    };
    let t = tdiv(vx * 200, s);
    if t < -200 {
        -200
    } else if t > 200 {
        200
    } else {
        t
    }
}

pub fn tilt_milli(vx: i64, speed: i64) -> (t: i64)
    requires
        -200_000 <= vx <= 200_000,
        0 <= speed <= 1000,
    ensures
        t == spec_tilt(vx as int, speed as int),
        -200 <= t <= 200,
{
    let s = if speed < 1 {
        1
    } else {
        speed
    };
    proof {
        lemma_prod_bound2(vx as int, 200, 200_000, 200);
        lemma_tdiv_abs(vx * 200, s as int);
    }
    let t = crate::vec2::div_trunc(vx * 200, s);
    if t < -200 {
        -200
    } else if t > 200 {
        200
    } else {
        t
    }
}

/// The actor one frame later: timer advanced (saturating at the cap),
/// position integrated by the total velocity — base velocity plus the
/// awareness impulse — and clamped to the world box.
pub open spec fn spec_moved(e: Enemy, target: Vec2I, dt: int, cfg: Config) -> Enemy {
    let t2 = if e.ai.timer + dt <= TIMER_CAP {
        e.ai.timer + dt
    } else {
        TIMER_CAP as int
    };
    let stepped = Enemy {
        ai: crate::actor::EnemyAI { timer: t2 as i64, ..e.ai },
        ..e
    };
    let base = spec_base_velocity(stepped, target, cfg);
    let total = base.spec_add(e.ai.dodge_impulse);
    Enemy {
        pos: Vec2I {
            x: spec_clamp_world(e.pos.x + total.x * dt) as i64,
            y: spec_clamp_world(e.pos.y + total.y * dt) as i64,
        },
        ..stepped
    }
}

/// The per-frame locomotion pass: every actor advances by its behavior's
/// base velocity plus the steering impulse the awareness pass stored this
/// frame.
pub fn enemy_movement(enemies: &mut Vec<Enemy>, tracker: &PlayerTracker, dt: i64, cfg: &Config)
    requires
        tracker_wf(*tracker),
        config_wf(*cfg),
        1 <= dt <= 1000,
        old(enemies)@.len() <= 100_000,
        forall|k: int| 0 <= k < old(enemies)@.len() ==> enemy_wf(#[trigger] old(enemies)@[k]),
    ensures
        final(enemies)@.len() == old(enemies)@.len(),
        forall|k: int| 0 <= k < old(enemies)@.len() ==> #[trigger] final(enemies)@[k]
            == spec_moved(old(enemies)@[k], tracker.position, dt as int, *cfg),
        forall|k: int| 0 <= k < final(enemies)@.len() ==> enemy_wf(#[trigger] final(enemies)@[k]),
{
    let ghost orig = enemies@;
    let target = tracker.position;
    let mut k: usize = 0;
    while k < enemies.len()
        invariant
            tracker_wf(*tracker),
            config_wf(*cfg),
            1 <= dt <= 1000,
            target == tracker.position,
            orig.len() <= 100_000,
            enemies@.len() == orig.len(),
            k <= orig.len(),
            forall|m: int| 0 <= m < orig.len() ==> enemy_wf(#[trigger] orig[m]),
            forall|m: int| 0 <= m < k ==> #[trigger] enemies@[m] == spec_moved(
                orig[m],
                tracker.position,
                dt as int,
                *cfg,
            ) && enemy_wf(enemies@[m]),
            forall|m: int| k <= m < orig.len() ==> #[trigger] enemies@[m] == orig[m],
        decreases orig.len() - k,
    {
        let em = crate::vec2::vec_mut(enemies, k);
        let t2 = if em.ai.timer + dt <= TIMER_CAP {
            em.ai.timer + dt
        } else {
            TIMER_CAP
        };
        em.ai.timer = t2;
        let base = base_velocity(em, target, cfg);
        proof {
            lemma_prod_bound2(
                base.x + em.ai.dodge_impulse.x as int,
                dt as int,
                1_003_000,
                1000,
            );
            lemma_prod_bound2(
                base.y + em.ai.dodge_impulse.y as int,
                dt as int,
                1_003_000,
                1000,
            );
        }
        let total = base.add(em.ai.dodge_impulse);
        let nx = clamp_world_exec(em.pos.x + total.x * dt);
        let ny = clamp_world_exec(em.pos.y + total.y * dt);
        em.pos = Vec2I { x: nx, y: ny };
        k = k + 1;
    }
}

fn clamp_world_exec(c: i64) -> (r: i64)
    requires
        -0x4000_0000_0000_0000 <= c <= 0x4000_0000_0000_0000,
    ensures
        r == spec_clamp_world(c as int),
        -100_000_000 <= r <= 100_000_000,
{
    if c < -100_000_000 {
        -100_000_000
    } else if c > 100_000_000 {
        100_000_000
    } else {
        c
    }
}

/// Whether an actor has left the playable bounds by more than the removal
/// margin.
pub open spec fn spec_out_of_bounds(pos: Vec2I, cfg: Config) -> bool {
    ||| pos.y < -cfg.half_height - cfg.bounds_margin
    ||| pos.y > cfg.half_height + cfg.bounds_margin
    ||| abs(pos.x as int) > cfg.half_width + cfg.bounds_margin
}

pub fn out_of_bounds(pos: Vec2I, cfg: &Config) -> (r: bool)
    requires
        in_world(pos),
        config_wf(*cfg),
    ensures
        r == spec_out_of_bounds(pos, *cfg),
{
    let ax = if pos.x >= 0 {
        pos.x
    } else {
        -pos.x
    };
    pos.y < -cfg.half_height - cfg.bounds_margin || pos.y > cfg.half_height + cfg.bounds_margin
        || ax > cfg.half_width + cfg.bounds_margin
}

/// Remove every actor beyond the playable bounds (plus margin), keeping
/// the rest in order.
pub fn enemy_bounds_check(enemies: &mut Vec<Enemy>, cfg: &Config)
    requires
        config_wf(*cfg),
        forall|k: int| 0 <= k < old(enemies)@.len() ==> enemy_wf(#[trigger] old(enemies)@[k]),
    ensures
        final(enemies)@ == old(enemies)@.filter(
            |e: Enemy| !spec_out_of_bounds(e.pos, *cfg),
        ),
        forall|k: int| 0 <= k < final(enemies)@.len() ==> enemy_wf(#[trigger] final(enemies)@[k]),
{
    let ghost orig = enemies@;
    let ghost pred = |e: Enemy| !spec_out_of_bounds(e.pos, *cfg);
    let mut kept: Vec<Enemy> = Vec::new();
    let mut k: usize = 0;
    proof {
        reveal(Seq::filter);
        assert(orig.take(0) =~= Seq::<Enemy>::empty());
    }
    while k < enemies.len()
        invariant
            config_wf(*cfg),
            enemies@ == orig,
            k <= orig.len(),
            forall|m: int| 0 <= m < orig.len() ==> enemy_wf(#[trigger] orig[m]),
            pred == (|e: Enemy| !spec_out_of_bounds(e.pos, *cfg)),
            kept@ == orig.take(k as int).filter(pred),
            forall|m: int| 0 <= m < kept@.len() ==> enemy_wf(#[trigger] kept@[m]),
        decreases orig.len() - k,
    {
        let e = enemies[k];
        let oob = out_of_bounds(e.pos, cfg);
        proof {
            reveal(Seq::filter);
            assert(orig.take(k as int + 1).drop_last() =~= orig.take(k as int));
            assert(orig.take(k as int + 1).last() == orig[k as int]);
        }
        if !oob {
            kept.push(e);
        }
        k = k + 1;
    }
    proof {
        assert(orig.take(orig.len() as int) =~= orig);
    }
    *enemies = kept;
}

} // verus!
