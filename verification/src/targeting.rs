//! Predictive targeting: when an actor's firing cooldown reaches zero, it
//! estimates the projectile flight time from the straight-line distance to
//! the tracked target, leads the shot by the target's estimated velocity
//! weighted by its tag's accuracy coefficient, and emits a fire request.
//! A zero-accuracy actor degenerates to direct aiming.

use vstd::prelude::*;
use crate::actor::{Enemy, enemy_wf};
use crate::config::{Config, config_wf};
use crate::tracker::{PlayerTracker, tracker_wf};
use crate::vec2::{
    Vec2I, abs, in_bounds, in_world, lemma_prod_bound2, lemma_tdiv_abs, mag_sq, spec_unit_milli,
    sqrt_floor, tdiv, unit_milli,
};

verus! {

/// An actor's weapon: fire rate in milli-shots per second, cooldown in
/// milliseconds, bullet speed in units/s, damage in milli-damage.
#[derive(Clone, Copy, Debug, PartialEq, Eq, Structural)]
pub struct EnemyWeapon {
    pub fire_rate: i64,
    pub cooldown: i64,
    pub bullet_speed: i64,
    pub damage: i64,
}

/// An emitted fire request: origin, milli-scaled unit direction, damage
/// and projectile speed, for the projectile-spawning collaborator.
#[derive(Clone, Copy, Debug, PartialEq, Eq, Structural)]
pub struct FireRequest {
    pub origin: Vec2I,
    pub direction: Vec2I,
    pub damage: i64,
    pub bullet_speed: i64,
}

pub open spec fn weapon_wf(w: EnemyWeapon) -> bool {
    &&& 1 <= w.fire_rate <= 1_000_000
    &&& -2_000_000 <= w.cooldown <= 2_000_000
    &&& 0 <= w.bullet_speed <= 1_000_000
    &&& 0 <= w.damage <= 1_000_000
}

/// Milliseconds between two shots: a rate of `fire_rate` milli-shots per
/// second fires every `1_000_000 / fire_rate` milliseconds.
pub open spec fn spec_fire_period(fire_rate: int) -> int {
    tdiv(1_000_000, if fire_rate < 1 {
        1
    } else {
        fire_rate
    })
}

/// Estimated projectile flight time in milliseconds: distance over bullet
/// speed, the speed floored before use as a divisor, saturating at a
/// hundred seconds.
pub open spec fn spec_flight_ms(dist: int, bullet_speed: int) -> int {
    let t = tdiv(dist, if bullet_speed < 1 {
        1
    } else {
        bullet_speed
    });
    if t > 100_000 {
        100_000
    } else {
        t
    }
}

/// The lead offset applied to the aim point: target velocity times flight
/// time, weighted by the accuracy coefficient in per-mille, each
/// component clamped to the world box.
pub open spec fn spec_lead_offset(target_vel: Vec2I, flight_ms: int, accuracy: int) -> Vec2I {
    Vec2I {
        x: crate::locomotion::spec_clamp_world(
            tdiv(target_vel.x * flight_ms * accuracy, 1000),
        ) as i64,
        y: crate::locomotion::spec_clamp_world(
            tdiv(target_vel.y * flight_ms * accuracy, 1000),
        ) as i64,
    }
}

/// The direction an actor fires in: the milli-scaled unit vector from the
/// actor toward the target's predicted position.
pub open spec fn spec_aim_direction(
    actor_pos: Vec2I,
    target_pos: Vec2I,
    target_vel: Vec2I,
    bullet_speed: int,
    accuracy: int,
) -> Vec2I {
    let dist = sqrt_floor(crate::vec2::dist_sq(target_pos, actor_pos));
    let flight = spec_flight_ms(dist, bullet_speed);
    let lead = spec_lead_offset(target_vel, flight, accuracy);
    spec_unit_milli(target_pos.spec_add(lead).spec_sub(actor_pos))
}

/// Exec lead offset.
pub fn lead_offset(target_vel: Vec2I, flight_ms: i64, accuracy: i64) -> (r: Vec2I)
    requires
        in_bounds(target_vel),
        0 <= flight_ms <= 100_000,
        0 <= accuracy <= 1000,
    ensures
        r == spec_lead_offset(target_vel, flight_ms as int, accuracy as int),
        -100_000_000 <= r.x <= 100_000_000,
        -100_000_000 <= r.y <= 100_000_000,
{
    proof {
        lemma_prod_bound2(target_vel.x as int, flight_ms as int, 0x4000_0000, 100_000);
        lemma_prod_bound2(target_vel.y as int, flight_ms as int, 0x4000_0000, 100_000);
        lemma_prod_bound2(target_vel.x * flight_ms, accuracy as int, 0x186A0_4000_0000, 1000);
        lemma_prod_bound2(target_vel.y * flight_ms, accuracy as int, 0x186A0_4000_0000, 1000);
        lemma_tdiv_abs(target_vel.x * flight_ms * accuracy, 1000);
        lemma_tdiv_abs(target_vel.y * flight_ms * accuracy, 1000);
    }
    let lx = crate::vec2::div_trunc(target_vel.x * flight_ms * accuracy, 1000);
    let ly = crate::vec2::div_trunc(target_vel.y * flight_ms * accuracy, 1000);
    Vec2I { x: clamp_world(lx), y: clamp_world(ly) }
}

fn clamp_world(c: i64) -> (r: i64)
    ensures
        r == crate::locomotion::spec_clamp_world(c as int),
        -100_000_000 <= r <= 100_000_000,
{
    if c < -100_000_000 {
        -100_000_000
    } else if c > 100_000_000 {
        100_000_000
    } else {
        c
    }
}

/// Exec aim direction.
pub fn aim_direction(
    actor_pos: Vec2I,
    target_pos: Vec2I,
    target_vel: Vec2I,
    bullet_speed: i64,
    accuracy: i64,
) -> (r: Vec2I)
    requires
        in_world(actor_pos),
        in_world(target_pos),
        in_bounds(target_vel),
        0 <= bullet_speed <= 1_000_000,
        0 <= accuracy <= 1000,
    ensures
        r == spec_aim_direction(
            actor_pos,
            target_pos,
            target_vel,
            bullet_speed as int,
            accuracy as int,
        ),
        -1000 <= r.x <= 1000,
        -1000 <= r.y <= 1000,
{
    let d2 = crate::vec2::distance_sq(target_pos, actor_pos);
    let dist = crate::vec2::isqrt(d2);
    let sp = if bullet_speed < 1 {
        1
    } else {
        bullet_speed
    };
    let t = crate::vec2::div_trunc(dist, sp);
    let flight = if t > 100_000 {
        100_000
    } else {
        t
    };
    let lead = lead_offset(target_vel, flight, accuracy);
    let predicted = target_pos.add(lead);
    unit_milli(predicted.sub(actor_pos))
}

/// One cooldown tick: the cooldown shrinks by the frame delta, and the
/// weapon fires — resetting the cooldown to the full firing period —
/// exactly when it runs out.
pub fn weapon_step(w: &mut EnemyWeapon, dt: i64) -> (fired: bool)
    requires
        weapon_wf(*old(w)),
        0 <= dt <= 1_000_000,
    ensures
        weapon_wf(*final(w)),
        fired == (old(w).cooldown - dt <= 0),
        final(w).fire_rate == old(w).fire_rate,
        final(w).bullet_speed == old(w).bullet_speed,
        final(w).damage == old(w).damage,
        fired ==> final(w).cooldown == spec_fire_period(old(w).fire_rate as int),
        !fired ==> final(w).cooldown == old(w).cooldown - dt,
{
    if w.cooldown - dt <= 0 {
        w.cooldown = 1_000_000 / w.fire_rate;
        true
    } else {
        w.cooldown = w.cooldown - dt;
        false
    }
}

/// Whether this actor fires this frame.
pub open spec fn spec_fires(e: Enemy, w: EnemyWeapon, dt: int) -> bool {
    e.ai.active && w.cooldown - dt <= 0
}

/// The request an actor emits when it fires.
pub open spec fn spec_request(e: Enemy, w: EnemyWeapon, tracker: PlayerTracker) -> FireRequest {
    FireRequest {
        origin: e.pos,
        direction: spec_aim_direction(
            e.pos,
            tracker.position,
            tracker.velocity,
            w.bullet_speed as int,
            e.ai.behavior.spec_aim_accuracy(),
        ),
        damage: w.damage,
        bullet_speed: w.bullet_speed,
    }
}

/// The fire requests of one frame, in actor order.
pub open spec fn spec_fire_requests(
    enemies: Seq<Enemy>,
    weapons: Seq<EnemyWeapon>,
    tracker: PlayerTracker,
    dt: int,
) -> Seq<FireRequest>
    decreases enemies.len(),
{
    if enemies.len() == 0 {
        Seq::empty()
    } else {
        let prefix = spec_fire_requests(enemies.drop_last(), weapons.take(enemies.len() - 1), tracker, dt);
        if spec_fires(enemies.last(), weapons[enemies.len() - 1], dt) {
            prefix.push(spec_request(enemies.last(), weapons[enemies.len() - 1], tracker))
        } else {
            prefix
        }
    }
}

/// The per-frame shooting pass: each active actor's cooldown ticks down,
/// and each actor whose cooldown ran out emits one predictively aimed
/// fire request.  Inactive actors neither tick nor fire.
pub fn enemy_shooting(
    enemies: &Vec<Enemy>,
    weapons: &mut Vec<EnemyWeapon>,
    tracker: &PlayerTracker,
    dt: i64,
    cfg: &Config,
) -> (requests: Vec<FireRequest>)
    requires
        enemies@.len() == old(weapons)@.len(),
        enemies@.len() <= 100_000,
        1 <= dt <= 1000,
        tracker_wf(*tracker),
        config_wf(*cfg),
        forall|k: int| 0 <= k < enemies@.len() ==> enemy_wf(#[trigger] enemies@[k]),
        forall|k: int| 0 <= k < old(weapons)@.len() ==> weapon_wf(#[trigger] old(weapons)@[k]),
    ensures
        final(weapons)@.len() == old(weapons)@.len(),
        forall|k: int| 0 <= k < old(weapons)@.len() ==> weapon_wf(#[trigger] final(weapons)@[k]),
        forall|k: int| 0 <= k < enemies@.len() && !enemies@[k].ai.active
            ==> #[trigger] final(weapons)@[k] == old(weapons)@[k],
        forall|k: int| 0 <= k < enemies@.len() && enemies@[k].ai.active && !spec_fires(
            enemies@[k],
            old(weapons)@[k],
            dt as int,
        ) ==> (#[trigger] final(weapons)@[k]).cooldown == old(weapons)@[k].cooldown - dt,
        forall|k: int| 0 <= k < enemies@.len() && spec_fires(enemies@[k], old(weapons)@[k], dt as int)
            ==> (#[trigger] final(weapons)@[k]).cooldown == spec_fire_period(
            old(weapons)@[k].fire_rate as int,
        ),
        forall|k: int| 0 <= k < old(weapons)@.len() ==> {
            &&& (#[trigger] final(weapons)@[k]).fire_rate == old(weapons)@[k].fire_rate
            &&& final(weapons)@[k].bullet_speed == old(weapons)@[k].bullet_speed
            &&& final(weapons)@[k].damage == old(weapons)@[k].damage
        },
        requests@ == spec_fire_requests(enemies@, old(weapons)@, *tracker, dt as int),
{
    let ghost orig = weapons@;
    let mut requests: Vec<FireRequest> = Vec::new();
    let mut k: usize = 0;
    proof {
        assert(enemies@.take(0) =~= Seq::<Enemy>::empty());
    }
    while k < enemies.len()
        invariant
            enemies@.len() == orig.len(),
            weapons@.len() == orig.len(),
            enemies@.len() <= 100_000,
            1 <= dt <= 1000,
            tracker_wf(*tracker),
            config_wf(*cfg),
            k <= enemies@.len(),
            forall|m: int| 0 <= m < enemies@.len() ==> enemy_wf(#[trigger] enemies@[m]),
            forall|m: int| 0 <= m < orig.len() ==> weapon_wf(#[trigger] orig[m]),
            forall|m: int| 0 <= m < orig.len() ==> weapon_wf(#[trigger] weapons@[m]),
            forall|m: int| k <= m < orig.len() ==> #[trigger] weapons@[m] == orig[m],
            forall|m: int| 0 <= m < k && !enemies@[m].ai.active ==> #[trigger] weapons@[m]
                == orig[m],
            forall|m: int| 0 <= m < k && enemies@[m].ai.active && !spec_fires(
                enemies@[m],
                orig[m],
                dt as int,
            ) ==> (#[trigger] weapons@[m]).cooldown == orig[m].cooldown - dt,
            forall|m: int| 0 <= m < k && spec_fires(enemies@[m], orig[m], dt as int)
                ==> (#[trigger] weapons@[m]).cooldown == spec_fire_period(orig[m].fire_rate as int),
            forall|m: int| 0 <= m < orig.len() ==> {
                &&& (#[trigger] weapons@[m]).fire_rate == orig[m].fire_rate
                &&& weapons@[m].bullet_speed == orig[m].bullet_speed
                &&& weapons@[m].damage == orig[m].damage
            },
            requests@ == spec_fire_requests(
                enemies@.take(k as int),
                orig.take(k as int),
                *tracker,
                dt as int,
            ),
        decreases enemies@.len() - k,
    {
        let e = enemies[k];
        proof {
            assert(enemies@.take(k as int + 1).drop_last() =~= enemies@.take(k as int));
            assert(enemies@.take(k as int + 1).last() == enemies@[k as int]);
            assert(orig.take(k as int + 1).take(k as int) =~= orig.take(k as int));
            assert(orig.take(k as int + 1)[k as int] == orig[k as int]);
        }
        if e.ai.active {
            let wm = crate::vec2::vec_mut(weapons, k);
            let fired = weapon_step(wm, dt);
            if fired {
                let acc = e.ai.behavior.aim_accuracy();
                let dir = aim_direction(
                    e.pos,
                    tracker.position,
                    tracker.velocity,
                    wm.bullet_speed,
                    acc,
                );
                requests.push(
                    FireRequest {
                        origin: e.pos,
                        direction: dir,
                        damage: wm.damage,
                        bullet_speed: wm.bullet_speed,
                    },
                );
            }
        }
        k = k + 1;
    }
    proof {
        assert(enemies@.take(enemies@.len() as int) =~= enemies@);
        assert(orig.take(orig.len() as int) =~= orig);
    }
    requests
}

/// Predictive-lead-scaling law: for a fixed target velocity and flight
/// time, raising the accuracy coefficient never shrinks — and up to
/// rounding, grows — the magnitude of the lead offset applied to the aim
/// point.
pub proof fn lemma_lead_monotone(target_vel: Vec2I, flight_ms: int, acc1: int, acc2: int)
    requires
        in_bounds(target_vel),
        0 <= flight_ms <= 100_000,
        0 <= acc1 <= acc2 <= 1000,
    ensures
        mag_sq(spec_lead_offset(target_vel, flight_ms, acc1)) <= mag_sq(
            spec_lead_offset(target_vel, flight_ms, acc2),
        ),
{
    lemma_lead_comp_monotone(target_vel.x as int, flight_ms, acc1, acc2);
    lemma_lead_comp_monotone(target_vel.y as int, flight_ms, acc1, acc2);
    let l1 = spec_lead_offset(target_vel, flight_ms, acc1);
    let l2 = spec_lead_offset(target_vel, flight_ms, acc2);
    crate::vec2::lemma_square_abs(l1.x as int);
    crate::vec2::lemma_square_abs(l1.y as int);
    crate::vec2::lemma_square_abs(l2.x as int);
    crate::vec2::lemma_square_abs(l2.y as int);
    crate::vec2::lemma_sq_le(abs(l1.x as int), abs(l2.x as int));
    crate::vec2::lemma_sq_le(abs(l1.y as int), abs(l2.y as int));
}

/// One component of the lead offset grows in magnitude with accuracy.
proof fn lemma_lead_comp_monotone(v: int, flight_ms: int, acc1: int, acc2: int)
    requires
        -0x4000_0000 <= v <= 0x4000_0000,
        0 <= flight_ms <= 100_000,
        0 <= acc1 <= acc2 <= 1000,
    ensures
        abs(crate::locomotion::spec_clamp_world(tdiv(v * flight_ms * acc1, 1000))) <= abs(
            crate::locomotion::spec_clamp_world(tdiv(v * flight_ms * acc2, 1000)),
        ),
{
    let p = v * flight_ms;
    crate::vec2::lemma_mul_sign(v, flight_ms);
    crate::vec2::lemma_abs_mul(p, acc1);
    crate::vec2::lemma_abs_mul(p, acc2);
    vstd::arithmetic::mul::lemma_mul_inequality(acc1, acc2, abs(p));
    assert(acc1 * abs(p) == abs(p) * acc1) by (nonlinear_arith);
    assert(acc2 * abs(p) == abs(p) * acc2) by (nonlinear_arith);
    lemma_tdiv_abs(p * acc1, 1000);
    lemma_tdiv_abs(p * acc2, 1000);
    vstd::arithmetic::div_mod::lemma_div_is_ordered(abs(p) * acc1, abs(p) * acc2, 1000);
    let t1 = tdiv(p * acc1, 1000);
    let t2 = tdiv(p * acc2, 1000);
    assert(abs(t1) <= abs(t2));
    // clamping to the world box preserves the ordering of magnitudes
    assert(abs(crate::locomotion::spec_clamp_world(t1)) <= abs(
        crate::locomotion::spec_clamp_world(t2),
    ));
}

impl EnemyWeapon {
    /// A weapon with a fresh, randomly staggered initial cooldown between
    /// half a second and a second and a half, so a spawned wave does not
    /// fire in one volley.  Whatever the draw yields, the weapon starts
    /// well-formed with the given parameters.
    pub fn spawn(fire_rate: i64, bullet_speed: i64, damage: i64) -> (w: EnemyWeapon)
        requires
            1 <= fire_rate <= 1_000_000,
            0 <= bullet_speed <= 1_000_000,
            0 <= damage <= 1_000_000,
        ensures
            weapon_wf(w),
            w.fire_rate == fire_rate,
            w.bullet_speed == bullet_speed,
            w.damage == damage,
            500 <= w.cooldown < 1500,
    {
        let c = crate::rng::random_below(1000) as i64;
        EnemyWeapon { fire_rate, cooldown: 500 + c, bullet_speed, damage }
    }
}

} // verus!
