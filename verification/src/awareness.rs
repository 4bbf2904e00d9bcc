//! Reactive awareness: for every active hostile actor with nonzero dodge
//! sensitivity, one combined steering impulse blended from four
//! contributions — projectile dodge, inter-actor separation, playable-area
//! edge avoidance, and squad cohesion — with the sum's magnitude clamped
//! to a fixed ceiling.
//!
//! Each force is an independently testable pure function returning a vector
//! contribution; a thin combinator sums and clamps them.  The final
//! scaling of every force component rounds away from zero, so a live force
//! is never lost to quantization.

use vstd::prelude::*;
use crate::actor::{Enemy, Projectile, enemy_wf, projectile_wf};
use crate::config::{Config, config_wf};
use crate::vec2::{
    Vec2I, abs, dist_sq, in_bounds, in_world, lemma_frac_per_mille, lemma_prod_bound,
    lemma_rdiv_away_le, lemma_rdiv_away_props, lemma_sq_le, lemma_square_nonneg, lemma_tdiv_abs,
    mag_sq, rdiv_away, spec_unit_milli, sqrt_floor, tdiv, unit_milli,
};

verus! {

/// Dodge contribution of one hostile projectile: if the projectile is
/// within the detection radius, farther than one unit, and closing (the
/// dot of its travel direction with the direction toward the actor exceeds
/// the threshold), push perpendicular to its travel, on the side that
/// increases separation, scaled by urgency, dodge strength and the actor's
/// sensitivity.
pub open spec fn spec_dodge_contribution(
    actor_pos: Vec2I,
    proj: Projectile,
    sens: int,
    cfg: Config,
) -> Vec2I {
    let to_enemy = actor_pos.spec_sub(proj.pos);
    let d2 = mag_sq(to_enemy);
    let r = cfg.dodge_detection_radius as int;
    if 1_000_000 < d2 && d2 < r * r {
        let pd = spec_unit_milli(proj.vel);
        let td = spec_unit_milli(to_enemy);
        if pd.spec_dot(td) > cfg.approach_threshold * 1000 {
            let perp = Vec2I { x: (-pd.y) as i64, y: pd.x };
            let dirx: int = if perp.spec_dot(to_enemy) >= 0 {
                perp.x as int
            } else {
                -(perp.x as int)
            };
            let diry: int = if perp.spec_dot(to_enemy) >= 0 {
                perp.y as int
            } else {
                -(perp.y as int)
            };
            let urgency = 1000 - tdiv(sqrt_floor(d2) * 1000, r);
            Vec2I {
                x: rdiv_away(dirx * urgency * cfg.dodge_strength * sens, 1_000_000_000) as i64,
                y: rdiv_away(diry * urgency * cfg.dodge_strength * sens, 1_000_000_000) as i64,
            }
        } else {
            Vec2I { x: 0, y: 0 }
        }
    } else {
        Vec2I { x: 0, y: 0 }
    }
}

pub fn dodge_contribution(actor_pos: Vec2I, proj: Projectile, sens: i64, cfg: &Config) -> (r:
    Vec2I)
    requires
        in_world(actor_pos),
        projectile_wf(proj),
        0 <= sens <= 1000,
        config_wf(*cfg),
    ensures
        r == spec_dodge_contribution(actor_pos, proj, sens as int, *cfg),
        -1000 <= r.x <= 1000,
        -1000 <= r.y <= 1000,
{
    let to_enemy = actor_pos.sub(proj.pos);
    let d2 = to_enemy.magnitude_sq();
    let rr = cfg.dodge_detection_radius;
    proof {
        lemma_prod_bound(rr as int, rr as int, 1_000_000);
    }
    if 1_000_000 < d2 && d2 < rr * rr {
        let pd = unit_milli(proj.vel);
        let td = unit_milli(to_enemy);
        if pd.dot(td) > cfg.approach_threshold * 1000 {
            let perp = Vec2I { x: -pd.y, y: pd.x };
            let sd = perp.dot(to_enemy);
            let dirx = if sd >= 0 { perp.x } else { -perp.x };
            let diry = if sd >= 0 { perp.y } else { -perp.y };
            let dist = crate::vec2::isqrt(d2);
            proof {
                if dist >= rr {
                    lemma_sq_le(rr as int, dist as int);
                }
                lemma_frac_per_mille(dist as int, rr as int);
            }
            let urgency = 1000 - div_milli(dist * 1000, rr);
            let cx = scaled_force(dirx, urgency, cfg.dodge_strength, sens);
            let cy = scaled_force(diry, urgency, cfg.dodge_strength, sens);
            Vec2I { x: cx, y: cy }
        } else {
            Vec2I { x: 0, y: 0 }
        }
    } else {
        Vec2I { x: 0, y: 0 }
    }
}

/// `tdiv` under a friendlier name for per-mille fractions.
fn div_milli(a: i64, b: i64) -> (r: i64)
    requires
        b >= 1,
        a > i64::MIN,
    ensures
        r == tdiv(a as int, b as int),
{
    crate::vec2::div_trunc(a, b)
}

/// One scaled force component with four per-mille factors:
/// `dir * urgency * strength * coeff / 1e9`, rounded away from zero.
fn scaled_force(dir: i64, urgency: i64, strength: i64, coeff: i64) -> (r: i64)
    requires
        -1000 <= dir <= 1000,
        0 <= urgency <= 1000,
        0 <= strength <= 1000,
        0 <= coeff <= 1000,
    ensures
        r == rdiv_away(dir * urgency * strength * coeff, 1_000_000_000),
        -1000 <= r <= 1000,
{
    proof {
        crate::vec2::lemma_prod_bound2(dir as int, urgency as int, 1000, 1000);
        crate::vec2::lemma_prod_bound2(dir * urgency, strength as int, 1_000_000, 1000);
        crate::vec2::lemma_prod_bound2(dir * urgency * strength, coeff as int, 1_000_000_000, 1000);
        lemma_rdiv_away_le(dir * urgency * strength * coeff, 1_000_000_000, 1000);
    }
    crate::vec2::div_away(dir * urgency * strength * coeff, 1_000_000_000)
}

/// One scaled force component with three per-mille factors:
/// `dir * urgency * strength / 1e6`, rounded away from zero.
fn scaled_force3(dir: i64, urgency: i64, strength: i64) -> (r: i64)
    requires
        -1000 <= dir <= 1000,
        0 <= urgency <= 1000,
        0 <= strength <= 1000,
    ensures
        r == rdiv_away(dir * urgency * strength, 1_000_000),
        -1000 <= r <= 1000,
{
    proof {
        crate::vec2::lemma_prod_bound2(dir as int, urgency as int, 1000, 1000);
        crate::vec2::lemma_prod_bound2(dir * urgency, strength as int, 1_000_000, 1000);
        lemma_rdiv_away_le(dir * urgency * strength, 1_000_000, 1000);
    }
    crate::vec2::div_away(dir * urgency * strength, 1_000_000)
}

/// Separation contribution of one other actor: within the separation
/// radius (and at a distinct position), push directly away, scaled by
/// `1 - distance / separationRadius` and the separation strength.
pub open spec fn spec_separation_contribution(actor_pos: Vec2I, other_pos: Vec2I, cfg: Config) -> Vec2I {
    let diff = actor_pos.spec_sub(other_pos);
    let d2 = mag_sq(diff);
    let r = cfg.separation_radius as int;
    if 0 < d2 && d2 < r * r {
        let u = spec_unit_milli(diff);
        let urgency = 1000 - tdiv(sqrt_floor(d2) * 1000, r);
        Vec2I {
            x: rdiv_away(u.x * urgency * cfg.separation_strength, 1_000_000) as i64,
            y: rdiv_away(u.y * urgency * cfg.separation_strength, 1_000_000) as i64,
        }
    } else {
        Vec2I { x: 0, y: 0 }
    }
}

pub fn separation_contribution(actor_pos: Vec2I, other_pos: Vec2I, cfg: &Config) -> (r: Vec2I)
    requires
        in_world(actor_pos),
        in_world(other_pos),
        config_wf(*cfg),
    ensures
        r == spec_separation_contribution(actor_pos, other_pos, *cfg),
        -1000 <= r.x <= 1000,
        -1000 <= r.y <= 1000,
{
    let diff = actor_pos.sub(other_pos);
    let d2 = diff.magnitude_sq();
    let rr = cfg.separation_radius;
    proof {
        lemma_prod_bound(rr as int, rr as int, 1_000_000);
    }
    if 0 < d2 && d2 < rr * rr {
        let u = unit_milli(diff);
        let dist = crate::vec2::isqrt(d2);
        proof {
            if dist >= rr {
                lemma_sq_le(rr as int, dist as int);
            }
            lemma_frac_per_mille(dist as int, rr as int);
        }
        let urgency = 1000 - div_milli(dist * 1000, rr);
        let cx = scaled_force3(u.x, urgency, cfg.separation_strength);
        let cy = scaled_force3(u.y, urgency, cfg.separation_strength);
        Vec2I { x: cx, y: cy }
    } else {
        Vec2I { x: 0, y: 0 }
    }
}

/// Edge-avoidance contribution: within the margin of a playable-area
/// boundary, push inward, scaled by penetration depth into the margin.
pub open spec fn spec_edge_contribution(pos: Vec2I, cfg: Config) -> Vec2I {
    let m = cfg.edge_avoidance_margin as int;
    let s = cfg.edge_push_strength as int;
    let hw = cfg.half_width as int;
    let hh = cfg.half_height as int;
    let left: int = if pos.x < -hw + m {
        rdiv_away((1000 - tdiv((pos.x + hw) * 1000, m)) * s, 1000)
    } else {
        0
    };
    let right: int = if pos.x > hw - m {
        -rdiv_away((1000 - tdiv((hw - pos.x) * 1000, m)) * s, 1000)
    } else {
        0
    };
    let top: int = if pos.y > hh - m {
        -rdiv_away((1000 - tdiv((hh - pos.y) * 1000, m)) * s, 1000)
    } else {
        0
    };
    let bottom: int = if pos.y < -hh + m {
        rdiv_away((1000 - tdiv((pos.y + hh) * 1000, m)) * s, 1000)
    } else {
        0
    };
    Vec2I { x: (left + right) as i64, y: (top + bottom) as i64 }
}

pub fn edge_contribution(pos: Vec2I, cfg: &Config) -> (r: Vec2I)
    requires
        in_world(pos),
        config_wf(*cfg),
    ensures
        r == spec_edge_contribution(pos, *cfg),
        -420_000_000 <= r.x <= 420_000_000,
        -420_000_000 <= r.y <= 420_000_000,
{
    let m = cfg.edge_avoidance_margin;
    let s = cfg.edge_push_strength;
    let hw = cfg.half_width;
    let hh = cfg.half_height;
    let left = if pos.x < -hw + m {
        edge_push(pos.x + hw, m, s)
    } else {
        0
    };
    let right = if pos.x > hw - m {
        -edge_push(hw - pos.x, m, s)
    } else {
        0
    };
    let top = if pos.y > hh - m {
        -edge_push(hh - pos.y, m, s)
    } else {
        0
    };
    let bottom = if pos.y < -hh + m {
        edge_push(pos.y + hh, m, s)
    } else {
        0
    };
    Vec2I { x: left + right, y: top + bottom }
}

/// One edge's inward push: `(1000 - depth * 1000 / margin) * strength /
/// 1000`, where `depth` is how far inside the playable area the actor
/// still is (negative once it has crossed the boundary, which only pushes
/// harder).
fn edge_push(depth: i64, m: i64, s: i64) -> (r: i64)
    requires
        -200_000_000 <= depth <= 200_000_000,
        1000 <= m <= 1_000_000,
        0 <= s <= 1000,
    ensures
        r == rdiv_away((1000 - tdiv(depth * 1000, m as int)) * s, 1000),
        -210_000_000 <= r <= 210_000_000,
{
    proof {
        lemma_tdiv_abs(depth * 1000, m as int);
        crate::vec2::lemma_abs_mul(depth as int, 1000);
        vstd::arithmetic::div_mod::lemma_div_is_ordered(abs(depth as int) * 1000, 200_000_000_000, m as int);
        vstd::arithmetic::div_mod::lemma_div_is_ordered_by_denominator(200_000_000_000, 1000, m as int);
        let t = tdiv(depth * 1000, m as int);
        assert(abs(t) <= 200_000_000);
        crate::vec2::lemma_prod_bound2(1000 - t, s as int, 210_000_000, 1000);
        lemma_rdiv_away_le((1000 - t) * s, 1000, 210_000_000);
    }
    let t = div_milli(depth * 1000, m);
    crate::vec2::div_away((1000 - t) * s, 1000)
}

/// Positions of the squad leaders (Spawner and Tank actors), in order.
pub open spec fn spec_leaders(enemies: Seq<Enemy>) -> Seq<Vec2I>
    decreases enemies.len(),
{
    if enemies.len() == 0 {
        Seq::empty()
    } else {
        let prefix = spec_leaders(enemies.drop_last());
        if enemies.last().ai.behavior.spec_is_leader() {
            prefix.push(enemies.last().pos)
        } else {
            prefix
        }
    }
}

/// Left fold selecting the strictly nearest leader, starting from `best`
/// at squared distance `best_d2` (the rally radius squared, initially, so
/// only leaders inside the rally radius are ever chosen).
pub open spec fn spec_nearest_leader(
    pos: Vec2I,
    leaders: Seq<Vec2I>,
    best: Option<Vec2I>,
    best_d2: int,
) -> (Option<Vec2I>, int)
    decreases leaders.len(),
{
    if leaders.len() == 0 {
        (best, best_d2)
    } else {
        let d2 = dist_sq(leaders[0], pos);
        if d2 < best_d2 {
            spec_nearest_leader(pos, leaders.drop_first(), Some(leaders[0]), d2)
        } else {
            spec_nearest_leader(pos, leaders.drop_first(), best, best_d2)
        }
    }
}

/// Squad-cohesion contribution: a non-leader within the rally radius of
/// the nearest leader, but farther than the comfortable escort distance,
/// is pulled toward that leader, scaled by distance over rally radius.
/// Leaders themselves feel no pull.
pub open spec fn spec_cohesion_contribution(
    pos: Vec2I,
    is_ldr: bool,
    leaders: Seq<Vec2I>,
    cfg: Config,
) -> Vec2I {
    if is_ldr {
        Vec2I { x: 0, y: 0 }
    } else {
        let rr = cfg.leader_rally_radius as int;
        let sel = spec_nearest_leader(pos, leaders, None, rr * rr);
        match sel.0 {
            Option::None => Vec2I { x: 0, y: 0 },
            Option::Some(lp) => {
                let to_leader = lp.spec_sub(pos);
                let d2 = mag_sq(to_leader);
                if d2 > cfg.escort_distance * cfg.escort_distance {
                    let u = spec_unit_milli(to_leader);
                    let factor = tdiv(sqrt_floor(d2) * 1000, rr);
                    Vec2I {
                        x: rdiv_away(u.x * factor * cfg.leader_cohesion_strength, 1_000_000) as i64,
                        y: rdiv_away(u.y * factor * cfg.leader_cohesion_strength, 1_000_000) as i64,
                    }
                } else {
                    Vec2I { x: 0, y: 0 }
                }
            },
        }
    }
}

/// The nearest leader within the rally radius, if any.
pub fn nearest_leader(pos: Vec2I, leaders: &Vec<Vec2I>, cfg: &Config) -> (r: Option<Vec2I>)
    requires
        in_world(pos),
        config_wf(*cfg),
        forall|k: int| 0 <= k < leaders@.len() ==> in_world(#[trigger] leaders@[k]),
    ensures
        r == spec_nearest_leader(
            pos,
            leaders@,
            None,
            cfg.leader_rally_radius * cfg.leader_rally_radius,
        ).0,
        r matches Some(b) ==> in_world(b) && dist_sq(b, pos) < cfg.leader_rally_radius
            * cfg.leader_rally_radius,
{
    let rr = cfg.leader_rally_radius;
    proof {
        lemma_prod_bound(rr as int, rr as int, 1_000_000);
        assert(leaders@.skip(0) =~= leaders@);
    }
    let rr2 = rr * rr;
    let mut best: Option<Vec2I> = None;
    let mut best_d2: i64 = rr2;
    let mut k: usize = 0;
    while k < leaders.len()
        invariant
            in_world(pos),
            config_wf(*cfg),
            forall|m: int| 0 <= m < leaders@.len() ==> in_world(#[trigger] leaders@[m]),
            rr == cfg.leader_rally_radius,
            rr2 == rr * rr,
            k <= leaders@.len(),
            0 <= best_d2 <= rr2,
            best matches Some(b) ==> in_world(b) && dist_sq(b, pos) == best_d2 && best_d2 < rr2,
            spec_nearest_leader(pos, leaders@, None, rr2 as int) == spec_nearest_leader(
                pos,
                leaders@.skip(k as int),
                best,
                best_d2 as int,
            ),
        decreases leaders@.len() - k,
    {
        let lp = leaders[k];
        let d2 = crate::vec2::distance_sq(lp, pos);
        proof {
            assert(leaders@.skip(k as int).drop_first() =~= leaders@.skip(k as int + 1));
            assert(leaders@.skip(k as int)[0] == leaders@[k as int]);
        }
        if d2 < best_d2 {
            best = Some(lp);
            best_d2 = d2;
        }
        k = k + 1;
    }
    proof {
        assert(leaders@.skip(leaders@.len() as int) =~= Seq::<Vec2I>::empty());
    }
    best
}

pub fn cohesion_contribution(pos: Vec2I, is_ldr: bool, leaders: &Vec<Vec2I>, cfg: &Config) -> (r:
    Vec2I)
    requires
        in_world(pos),
        config_wf(*cfg),
        forall|k: int| 0 <= k < leaders@.len() ==> in_world(#[trigger] leaders@[k]),
    ensures
        r == spec_cohesion_contribution(pos, is_ldr, leaders@, *cfg),
        -1000 <= r.x <= 1000,
        -1000 <= r.y <= 1000,
{
    if is_ldr {
        return Vec2I { x: 0, y: 0 };
    }
    let sel = nearest_leader(pos, leaders, cfg);
    match sel {
        None => Vec2I { x: 0, y: 0 },
        Some(lp) => {
            let to_leader = lp.sub(pos);
            let d2 = to_leader.magnitude_sq();
            let esc = cfg.escort_distance;
            proof {
                lemma_prod_bound(esc as int, esc as int, 1_000_000);
            }
            if d2 > esc * esc {
                let u = unit_milli(to_leader);
                let dist = crate::vec2::isqrt(d2);
                let rr = cfg.leader_rally_radius;
                proof {
                    lemma_prod_bound(rr as int, rr as int, 1_000_000);
                    if dist >= rr {
                        lemma_sq_le(rr as int, dist as int);
                    }
                    lemma_frac_per_mille(dist as int, rr as int);
                }
                let factor = div_milli(dist * 1000, rr);
                let cx = scaled_force3(u.x, factor, cfg.leader_cohesion_strength);
                let cy = scaled_force3(u.y, factor, cfg.leader_cohesion_strength);
                Vec2I { x: cx, y: cy }
            } else {
                Vec2I { x: 0, y: 0 }
            }
        },
    }
}

/// Sum of the dodge contributions of all hostile projectiles.
pub open spec fn spec_dodge_sum(pos: Vec2I, sens: int, projs: Seq<Projectile>, cfg: Config) -> Vec2I
    decreases projs.len(),
{
    if projs.len() == 0 {
        Vec2I { x: 0, y: 0 }
    } else {
        spec_dodge_sum(pos, sens, projs.drop_last(), cfg).spec_add(
            spec_dodge_contribution(pos, projs.last(), sens, cfg),
        )
    }
}

/// Sum of the separation contributions of all other actors (the actor at
/// `skip_idx` is the one being steered).
pub open spec fn spec_separation_sum(pos: Vec2I, enemies: Seq<Enemy>, skip_idx: int, cfg: Config) -> Vec2I
    decreases enemies.len(),
{
    if enemies.len() == 0 {
        Vec2I { x: 0, y: 0 }
    } else {
        let prefix = spec_separation_sum(pos, enemies.drop_last(), skip_idx, cfg);
        if enemies.len() - 1 == skip_idx {
            prefix
        } else {
            prefix.spec_add(spec_separation_contribution(pos, enemies.last().pos, cfg))
        }
    }
}

/// The combined steering impulse of the actor at index `i`: the zero
/// vector for an inactive or zero-sensitivity (rush-type) actor;
/// otherwise the sum of all four contributions — dodge, separation, edge
/// avoidance and squad cohesion — clamped to the configured ceiling.
pub open spec fn spec_impulse(i: int, enemies: Seq<Enemy>, projs: Seq<Projectile>, cfg: Config) -> Vec2I {
    let e = enemies[i];
    let sens = e.ai.behavior.spec_dodge_sensitivity();
    if !e.ai.active || sens <= 0 {
        Vec2I { x: 0, y: 0 }
    } else {
        let reactive = spec_dodge_sum(e.pos, sens, projs, cfg).spec_add(
            spec_separation_sum(e.pos, enemies, i, cfg),
        ).spec_add(spec_edge_contribution(e.pos, cfg));
        let coh = spec_cohesion_contribution(
            e.pos,
            e.ai.behavior.spec_is_leader(),
            spec_leaders(enemies),
            cfg,
        );
        crate::vec2::spec_clamp_len(reactive.spec_add(coh), cfg.max_dodge_impulse as int)
    }
}

/// Compute one actor's combined steering impulse from the current actor
/// and projectile sets.  The result's magnitude never exceeds the
/// configured ceiling — the impulse-bound law.
#[verifier::rlimit(100)]
pub fn compute_impulse(
    self_idx: usize,
    enemies: &Vec<Enemy>,
    projectiles: &Vec<Projectile>,
    cfg: &Config,
) -> (imp: Vec2I)
    requires
        self_idx < enemies@.len(),
        enemies@.len() <= 100_000,
        projectiles@.len() <= 100_000,
        forall|k: int| 0 <= k < enemies@.len() ==> enemy_wf(#[trigger] enemies@[k]),
        forall|k: int| 0 <= k < projectiles@.len() ==> projectile_wf(#[trigger] projectiles@[k]),
        config_wf(*cfg),
    ensures
        imp == spec_impulse(self_idx as int, enemies@, projectiles@, *cfg),
        mag_sq(imp) <= cfg.max_dodge_impulse * cfg.max_dodge_impulse,
        in_bounds(imp),
{
    let e = enemies[self_idx];
    proof {
        lemma_square_nonneg(cfg.max_dodge_impulse as int);
    }
    let sens = e.ai.behavior.dodge_sensitivity();
    if !e.ai.active || sens == 0 {
        return Vec2I { x: 0, y: 0 };
    }
    let mut dsum = Vec2I { x: 0, y: 0 };
    let mut k: usize = 0;
    while k < projectiles.len()
        invariant
            in_world(e.pos),
            0 < sens <= 1000,
            config_wf(*cfg),
            k <= projectiles@.len(),
            projectiles@.len() <= 100_000,
            forall|m: int| 0 <= m < projectiles@.len() ==> projectile_wf(
                #[trigger] projectiles@[m],
            ),
            dsum == spec_dodge_sum(e.pos, sens as int, projectiles@.take(k as int), *cfg),
            -1000 * k <= dsum.x <= 1000 * k,
            -1000 * k <= dsum.y <= 1000 * k,
        decreases projectiles@.len() - k,
    {
        let c = dodge_contribution(e.pos, projectiles[k], sens, cfg);
        proof {
            assert(projectiles@.take(k as int + 1).drop_last() =~= projectiles@.take(
                k as int,
            ));
            assert(projectiles@.take(k as int + 1).last() == projectiles@[k as int]);
        }
        dsum = dsum.add(c);
        k = k + 1;
    }
    proof {
        assert(projectiles@.take(projectiles@.len() as int) =~= projectiles@);
    }
    let mut ssum = Vec2I { x: 0, y: 0 };
    let mut k2: usize = 0;
    while k2 < enemies.len()
        invariant
            in_world(e.pos),
            config_wf(*cfg),
            k2 <= enemies@.len(),
            enemies@.len() <= 100_000,
            self_idx < enemies@.len(),
            forall|m: int| 0 <= m < enemies@.len() ==> enemy_wf(#[trigger] enemies@[m]),
            ssum == spec_separation_sum(
                e.pos,
                enemies@.take(k2 as int),
                self_idx as int,
                *cfg,
            ),
            -1000 * k2 <= ssum.x <= 1000 * k2,
            -1000 * k2 <= ssum.y <= 1000 * k2,
        decreases enemies@.len() - k2,
    {
        proof {
            assert(enemies@.take(k2 as int + 1).drop_last() =~= enemies@.take(k2 as int));
            assert(enemies@.take(k2 as int + 1).last() == enemies@[k2 as int]);
        }
        if k2 != self_idx {
            let c = separation_contribution(e.pos, enemies[k2].pos, cfg);
            ssum = ssum.add(c);
        }
        k2 = k2 + 1;
    }
    proof {
        assert(enemies@.take(enemies@.len() as int) =~= enemies@);
    }
    let edge = edge_contribution(e.pos, cfg);
    let reactive = dsum.add(ssum).add(edge);
    let mut leaders: Vec<Vec2I> = Vec::new();
    let mut k3: usize = 0;
    while k3 < enemies.len()
        invariant
            k3 <= enemies@.len(),
            forall|m: int| 0 <= m < enemies@.len() ==> enemy_wf(#[trigger] enemies@[m]),
            leaders@ == spec_leaders(enemies@.take(k3 as int)),
            forall|m: int| 0 <= m < leaders@.len() ==> in_world(#[trigger] leaders@[m]),
        decreases enemies@.len() - k3,
    {
        proof {
            assert(enemies@.take(k3 as int + 1).drop_last() =~= enemies@.take(k3 as int));
            assert(enemies@.take(k3 as int + 1).last() == enemies@[k3 as int]);
        }
        if enemies[k3].ai.behavior.is_leader() {
            leaders.push(enemies[k3].pos);
        }
        k3 = k3 + 1;
    }
    proof {
        assert(enemies@.take(enemies@.len() as int) =~= enemies@);
    }
    let coh = cohesion_contribution(e.pos, e.ai.behavior.is_leader(), &leaders, cfg);
    let total = reactive.add(coh);
    crate::vec2::clamp_len(total, cfg.max_dodge_impulse)
}

/// The actor `e` with its steering impulse replaced.
pub open spec fn spec_with_impulse(e: Enemy, v: Vec2I) -> Enemy {
    Enemy { ai: crate::actor::EnemyAI { dodge_impulse: v, ..e.ai }, ..e }
}

/// The per-frame awareness pass: every actor's steering impulse is
/// recomputed from the same frame-start snapshot of positions, exactly as
/// `spec_impulse` states, and nothing else about any actor changes.
pub fn enemy_spatial_awareness(
    enemies: &mut Vec<Enemy>,
    projectiles: &Vec<Projectile>,
    cfg: &Config,
)
    requires
        old(enemies)@.len() <= 100_000,
        projectiles@.len() <= 100_000,
        forall|k: int| 0 <= k < old(enemies)@.len() ==> enemy_wf(#[trigger] old(enemies)@[k]),
        forall|k: int| 0 <= k < projectiles@.len() ==> projectile_wf(#[trigger] projectiles@[k]),
        config_wf(*cfg),
    ensures
        final(enemies)@.len() == old(enemies)@.len(),
        forall|k: int| 0 <= k < old(enemies)@.len() ==> #[trigger] final(enemies)@[k]
            == spec_with_impulse(
            old(enemies)@[k],
            spec_impulse(k, old(enemies)@, projectiles@, *cfg),
        ),
        forall|k: int| 0 <= k < final(enemies)@.len() ==> enemy_wf(#[trigger] final(enemies)@[k]),
        forall|k: int| 0 <= k < final(enemies)@.len() ==> mag_sq(
            #[trigger] final(enemies)@[k].ai.dodge_impulse,
        ) <= cfg.max_dodge_impulse * cfg.max_dodge_impulse,
{
    let ghost orig = enemies@;
    let mut imps: Vec<Vec2I> = Vec::new();
    let mut k: usize = 0;
    while k < enemies.len()
        invariant
            enemies@ == orig,
            orig.len() <= 100_000,
            projectiles@.len() <= 100_000,
            forall|m: int| 0 <= m < orig.len() ==> enemy_wf(#[trigger] orig[m]),
            forall|m: int| 0 <= m < projectiles@.len() ==> projectile_wf(
                #[trigger] projectiles@[m],
            ),
            config_wf(*cfg),
            k <= orig.len(),
            imps@.len() == k,
            forall|m: int| 0 <= m < k ==> #[trigger] imps@[m] == spec_impulse(
                m,
                orig,
                projectiles@,
                *cfg,
            ) && mag_sq(imps@[m]) <= cfg.max_dodge_impulse * cfg.max_dodge_impulse
                && in_bounds(imps@[m]),
        decreases orig.len() - k,
    {
        let imp = compute_impulse(k, enemies, projectiles, cfg);
        imps.push(imp);
        k = k + 1;
    }
    let mut k2: usize = 0;
    while k2 < enemies.len()
        invariant
            enemies@.len() == orig.len(),
            orig.len() <= 100_000,
            config_wf(*cfg),
            imps@.len() == orig.len(),
            k2 <= orig.len(),
            forall|m: int| 0 <= m < k2 ==> #[trigger] enemies@[m] == spec_with_impulse(
                orig[m],
                spec_impulse(m, orig, projectiles@, *cfg),
            ),
            forall|m: int| k2 <= m < orig.len() ==> #[trigger] enemies@[m] == orig[m],
            forall|m: int| 0 <= m < orig.len() ==> enemy_wf(#[trigger] orig[m]),
            forall|m: int| 0 <= m < orig.len() ==> #[trigger] imps@[m] == spec_impulse(
                m,
                orig,
                projectiles@,
                *cfg,
            ) && mag_sq(imps@[m]) <= cfg.max_dodge_impulse * cfg.max_dodge_impulse
                && in_bounds(imps@[m]),
        decreases orig.len() - k2,
    {
        let imp = imps[k2];
        let em = crate::vec2::vec_mut(enemies, k2);
        em.ai.dodge_impulse = imp;
        k2 = k2 + 1;
    }
    proof {
        assert forall|m: int| 0 <= m < enemies@.len() implies enemy_wf(#[trigger] enemies@[m]) by {
            assert(enemies@[m] == spec_with_impulse(orig[m], spec_impulse(m, orig, projectiles@, *cfg)));
            let v = spec_impulse(m, orig, projectiles@, *cfg);
            assert(imps@[m] == v);
            lemma_prod_bound(cfg.max_dodge_impulse as int, cfg.max_dodge_impulse as int, 100_000);
            lemma_square_nonneg(v.x as int);
            lemma_square_nonneg(v.y as int);
            assert(mag_sq(v) <= cfg.max_dodge_impulse * cfg.max_dodge_impulse);
            assert(mag_sq(v) <= 100_000 * 100_000);
            crate::vec2::lemma_comp_le_sqrt(v.x as int, 100_000);
            crate::vec2::lemma_comp_le_sqrt(v.y as int, 100_000);
        }
        assert forall|m: int| 0 <= m < enemies@.len() implies mag_sq(
            #[trigger] enemies@[m].ai.dodge_impulse,
        ) <= cfg.max_dodge_impulse * cfg.max_dodge_impulse by {
            assert(enemies@[m] == spec_with_impulse(orig[m], spec_impulse(m, orig, projectiles@, *cfg)));
            let v = spec_impulse(m, orig, projectiles@, *cfg);
            assert(imps@[m] == v);
        }
    }
}

/// Dodge-neutrality law: an active actor whose tag has zero dodge
/// sensitivity (the rush type) produces the zero steering impulse,
/// regardless of nearby projectiles, neighbours, edges or leaders: all
/// four contributions are computed only for actors with nonzero
/// sensitivity.
pub proof fn lemma_dodge_neutrality(
    i: int,
    enemies: Seq<Enemy>,
    projs: Seq<Projectile>,
    cfg: Config,
)
    requires
        0 <= i < enemies.len(),
        enemies[i].ai.behavior.spec_dodge_sensitivity() == 0,
    ensures
        spec_impulse(i, enemies, projs, cfg) == (Vec2I { x: 0, y: 0 }),
{
}

/// Exact shape of a nonzero separation push: formulas, bounds and sign of
/// each component, and an urgency of at least one per-mille anywhere
/// strictly inside the radius.
proof fn lemma_sep_unfold(p1: Vec2I, p2: Vec2I, cfg: Config)
    requires
        in_world(p1),
        in_world(p2),
        config_wf(cfg),
        0 < mag_sq(p1.spec_sub(p2)),
        mag_sq(p1.spec_sub(p2)) < cfg.separation_radius * cfg.separation_radius,
    ensures
        ({
            let diff = p1.spec_sub(p2);
            let d2 = mag_sq(diff);
            let l = crate::vec2::sqrt_ceil(d2);
            let urg = 1000 - tdiv(sqrt_floor(d2) * 1000, cfg.separation_radius as int);
            let st = cfg.separation_strength as int;
            let f = spec_separation_contribution(p1, p2, cfg);
            &&& l >= 1
            &&& 1 <= urg <= 1000
            &&& spec_unit_milli(diff).x as int == tdiv(diff.x * 1000, l)
            &&& spec_unit_milli(diff).y as int == tdiv(diff.y * 1000, l)
            &&& -1000 <= spec_unit_milli(diff).x <= 1000
            &&& -1000 <= spec_unit_milli(diff).y <= 1000
            &&& f.x as int == rdiv_away(tdiv(diff.x * 1000, l) * urg * st, 1_000_000)
            &&& f.y as int == rdiv_away(tdiv(diff.y * 1000, l) * urg * st, 1_000_000)
            &&& -1000 <= f.x <= 1000
            &&& -1000 <= f.y <= 1000
            &&& (diff.x >= 0 ==> f.x >= 0)
            &&& (diff.x <= 0 ==> f.x <= 0)
            &&& (diff.y >= 0 ==> f.y >= 0)
            &&& (diff.y <= 0 ==> f.y <= 0)
        }),
{
    let diff = p1.spec_sub(p2);
    let d2 = mag_sq(diff);
    let r = cfg.separation_radius as int;
    let st = cfg.separation_strength as int;
    lemma_sqrt_floor_nonneg(d2);
    crate::vec2::lemma_sqrt_floor_exists(d2);
    let l = crate::vec2::sqrt_ceil(d2);
    assert(sqrt_floor(d2) <= r - 1) by {
        if sqrt_floor(d2) > r - 1 {
            lemma_sq_le(r, sqrt_floor(d2));
        }
    }
    lemma_frac_per_mille(sqrt_floor(d2), r);
    // urgency stays at least one per-mille strictly inside the radius
    vstd::arithmetic::mul::lemma_mul_inequality(sqrt_floor(d2), r - 1, 1000);
    assert(sqrt_floor(d2) * 1000 < r * 1000) by (nonlinear_arith)
        requires
            sqrt_floor(d2) * 1000 <= (r - 1) * 1000,
            r >= 1,
        ;
    vstd::arithmetic::div_mod::lemma_multiply_divide_lt(sqrt_floor(d2) * 1000, r, 1000);
    vstd::arithmetic::mul::lemma_mul_nonnegative(sqrt_floor(d2), 1000);
    let urg = 1000 - tdiv(sqrt_floor(d2) * 1000, r);
    assert(1 <= urg <= 1000);
    assert(!(diff.x == 0 && diff.y == 0)) by {
        if diff.x == 0 && diff.y == 0 {
            assert(d2 == 0);
        }
    }
    crate::vec2::lemma_square_nonneg(diff.x as int);
    crate::vec2::lemma_square_nonneg(diff.y as int);
    crate::vec2::lemma_comp_le_sqrt(diff.x as int, l);
    crate::vec2::lemma_comp_le_sqrt(diff.y as int, l);
    crate::vec2::lemma_unit_comp_bound(diff.x as int, l);
    crate::vec2::lemma_unit_comp_bound(diff.y as int, l);
    let ux = tdiv(diff.x * 1000, l);
    let uy = tdiv(diff.y * 1000, l);
    lemma_scaled_bound(ux, urg, st);
    lemma_scaled_bound(uy, urg, st);
    // signs flow from the separation axis through every factor
    crate::vec2::lemma_mul_sign(diff.x as int, 1000);
    crate::vec2::lemma_mul_sign(diff.y as int, 1000);
    lemma_tdiv_abs(diff.x * 1000, l);
    lemma_tdiv_abs(diff.y * 1000, l);
    vstd::arithmetic::div_mod::lemma_div_pos_is_pos(abs(diff.x * 1000), l);
    vstd::arithmetic::div_mod::lemma_div_pos_is_pos(abs(diff.y * 1000), l);
    lemma_sign_scaled(ux, urg, st);
    lemma_sign_scaled(uy, urg, st);
}

/// Sign preservation through the scaled-force chain.
proof fn lemma_sign_scaled(u: int, urg: int, st: int)
    requires
        urg >= 0,
        st >= 0,
    ensures
        u >= 0 ==> rdiv_away(u * urg * st, 1_000_000) >= 0,
        u <= 0 ==> rdiv_away(u * urg * st, 1_000_000) <= 0,
        abs(rdiv_away(u * urg * st, 1_000_000)) == (abs(u) * urg * st + 1_000_000 - 1)
            / 1_000_000,
{
    crate::vec2::lemma_mul_sign(u, urg);
    crate::vec2::lemma_mul_sign(u * urg, st);
    lemma_rdiv_away_props(u * urg * st, 1_000_000);
    crate::vec2::lemma_abs_mul(u, urg);
    crate::vec2::lemma_abs_mul(u * urg, st);
}

/// Per-mille factors keep the scaled force within the strength.
proof fn lemma_scaled_bound(u: int, urg: int, st: int)
    requires
        -1000 <= u <= 1000,
        0 <= urg <= 1000,
        0 <= st <= 1000,
    ensures
        -1000 <= rdiv_away(u * urg * st, 1_000_000) <= 1000,
{
    crate::vec2::lemma_prod_bound2(u, urg, 1000, 1000);
    crate::vec2::lemma_prod_bound2(u * urg, st, 1_000_000, 1000);
    lemma_rdiv_away_le(u * urg * st, 1_000_000, 1000);
}

/// The ceiling root of a positive number is at least one.
proof fn lemma_sqrt_floor_nonneg(n: int)
    requires
        n >= 1,
    ensures
        crate::vec2::sqrt_ceil(n) >= 1,
        sqrt_floor(n) >= 0,
{
    crate::vec2::lemma_sqrt_floor_exists(n);
    let f = sqrt_floor(n);
    if crate::vec2::sqrt_ceil(n) < 1 {
        assert(f == 0);
        assert(f * f == 0);
        assert(n >= 1);
    }
}

/// Separation is antisymmetric: the push of actor B on actor A is exactly
/// the negation of the push of A on B.
pub proof fn lemma_separation_antisymmetric(p1: Vec2I, p2: Vec2I, cfg: Config)
    requires
        in_world(p1),
        in_world(p2),
        config_wf(cfg),
    ensures
        spec_separation_contribution(p2, p1, cfg).x as int == -(spec_separation_contribution(
            p1,
            p2,
            cfg,
        ).x as int),
        spec_separation_contribution(p2, p1, cfg).y as int == -(spec_separation_contribution(
            p1,
            p2,
            cfg,
        ).y as int),
{
    let d12 = p1.spec_sub(p2);
    let d21 = p2.spec_sub(p1);
    assert(d21.x as int == -(d12.x as int) && d21.y as int == -(d12.y as int));
    crate::vec2::lemma_square_abs(d12.x as int);
    crate::vec2::lemma_square_abs(d12.y as int);
    assert(mag_sq(d21) == mag_sq(d12));
    let d2 = mag_sq(d12);
    let r = cfg.separation_radius as int;
    if 0 < d2 && d2 < r * r {
        lemma_sep_unfold(p1, p2, cfg);
        lemma_sep_unfold(p2, p1, cfg);
        let l = crate::vec2::sqrt_ceil(d2);
        lemma_sqrt_floor_nonneg(d2);
        let urg = 1000 - tdiv(sqrt_floor(d2) * 1000, r);
        let st = cfg.separation_strength as int;
        crate::vec2::lemma_mul_sign(d12.x as int, 1000);
        crate::vec2::lemma_mul_sign(d12.y as int, 1000);
        lemma_tdiv_abs(d12.x * 1000, l);
        lemma_tdiv_abs(d12.y * 1000, l);
        let ux = tdiv(d12.x * 1000, l);
        let uy = tdiv(d12.y * 1000, l);
        assert(tdiv(d21.x * 1000, l) == -ux && tdiv(d21.y * 1000, l) == -uy);
        lemma_neg_chain(ux, urg, st);
        lemma_neg_chain(uy, urg, st);
    }
}

/// Negating the direction factor negates the whole scaled force.
proof fn lemma_neg_chain(u: int, urg: int, st: int)
    requires
        urg >= 0,
        st >= 0,
    ensures
        rdiv_away((-u) * urg * st, 1_000_000) == -rdiv_away(u * urg * st, 1_000_000),
{
    crate::vec2::lemma_mul_sign(u, urg);
    assert((-u) * urg == -(u * urg));
    crate::vec2::lemma_mul_sign(u * urg, st);
    assert((-(u * urg)) * st == -(u * urg * st));
    lemma_rdiv_away_props(u * urg * st, 1_000_000);
}

/// The separation push on an actor points strictly away from the other
/// actor, for any pair of distinct positions inside the separation radius:
/// the away-from-zero rounding never lets a live push vanish.
pub proof fn lemma_separation_push_positive(p1: Vec2I, p2: Vec2I, cfg: Config)
    requires
        in_world(p1),
        in_world(p2),
        config_wf(cfg),
        cfg.separation_strength >= 1,
        0 < dist_sq(p1, p2),
        dist_sq(p1, p2) < cfg.separation_radius * cfg.separation_radius,
    ensures
        spec_separation_contribution(p1, p2, cfg).spec_dot(p1.spec_sub(p2)) >= 1,
{
    let diff = p1.spec_sub(p2);
    let d2 = mag_sq(diff);
    assert(d2 == dist_sq(p1, p2));
    lemma_sep_unfold(p1, p2, cfg);
    let r = cfg.separation_radius as int;
    let l = crate::vec2::sqrt_ceil(d2);
    let urg = 1000 - tdiv(sqrt_floor(d2) * 1000, r);
    let st = cfg.separation_strength as int;
    let f = spec_separation_contribution(p1, p2, cfg);
    let dx = diff.x as int;
    let dy = diff.y as int;
    // each term of the dot product is non-negative
    assert(f.x * dx >= 0) by (nonlinear_arith)
        requires
            dx >= 0 ==> f.x >= 0,
            dx <= 0 ==> f.x <= 0,
    ;
    assert(f.y * dy >= 0) by (nonlinear_arith)
        requires
            dy >= 0 ==> f.y >= 0,
            dy <= 0 ==> f.y <= 0,
    ;
    // the dominant axis holds at least half the separation
    let adx = abs(dx);
    let ady = abs(dy);
    crate::vec2::lemma_square_abs(dx);
    crate::vec2::lemma_square_abs(dy);
    assert((adx + ady) * (adx + ady) >= d2) by (nonlinear_arith)
        requires
            adx >= 0,
            ady >= 0,
            adx * adx + ady * ady == d2,
        ;
    crate::vec2::lemma_sqrt_ceil_le(d2, adx + ady);
    if adx >= ady {
        lemma_axis_at_least(dx, l, urg, st);
        assert(f.x * dx >= 1) by (nonlinear_arith)
            requires
                abs(f.x as int) >= 1,
                abs(dx) >= 1,
                dx >= 0 ==> f.x >= 0,
                dx <= 0 ==> f.x <= 0,
                abs(dx) == if dx >= 0 { dx } else { -dx },
                abs(f.x as int) == if f.x as int >= 0 { f.x as int } else { -(f.x as int) },
                f.x as int == rdiv_away(tdiv(dx * 1000, l) * urg * st, 1_000_000),
                abs(rdiv_away(tdiv(dx * 1000, l) * urg * st, 1_000_000)) >= 1,
        ;
        assert(f.spec_dot(diff) >= 1);
    } else {
        lemma_axis_at_least(dy, l, urg, st);
        assert(f.y * dy >= 1) by (nonlinear_arith)
            requires
                abs(f.y as int) >= 1,
                abs(dy) >= 1,
                dy >= 0 ==> f.y >= 0,
                dy <= 0 ==> f.y <= 0,
                abs(dy) == if dy >= 0 { dy } else { -dy },
                abs(f.y as int) == if f.y as int >= 0 { f.y as int } else { -(f.y as int) },
                f.y as int == rdiv_away(tdiv(dy * 1000, l) * urg * st, 1_000_000),
                abs(rdiv_away(tdiv(dy * 1000, l) * urg * st, 1_000_000)) >= 1,
        ;
        assert(f.spec_dot(diff) >= 1);
    }
}

/// An axis holding at least half the separation yields a unit-direction
/// component of at least 500 per-mille, hence — rounding away from zero —
/// a force of at least one.
proof fn lemma_axis_at_least(d: int, l: int, urg: int, st: int)
    requires
        l >= 1,
        2 * abs(d) >= l,
        1 <= urg <= 1000,
        1 <= st <= 1000,
    ensures
        abs(rdiv_away(tdiv(d * 1000, l) * urg * st, 1_000_000)) >= 1,
        abs(d) >= 1,
{
    lemma_tdiv_abs(d * 1000, l);
    crate::vec2::lemma_abs_mul(d, 1000);
    assert(abs(d) * 1000 >= 500 * l) by (nonlinear_arith)
        requires
            2 * abs(d) >= l,
            abs(d) >= 0,
        ;
    crate::vec2::lemma_div_at_least(abs(d) * 1000, l, 500);
    let u = tdiv(d * 1000, l);
    assert(abs(u) >= 500);
    lemma_sign_scaled(u, urg, st);
    assert(abs(u) * urg * st >= 500) by (nonlinear_arith)
        requires
            abs(u) >= 500,
            urg >= 1,
            st >= 1,
        ;
    vstd::arithmetic::div_mod::lemma_div_is_ordered(
        1_000_000,
        abs(u) * urg * st + 1_000_000 - 1,
        1_000_000,
    );
    vstd::arithmetic::div_mod::lemma_div_by_self(1_000_000);
}

/// Separation-convergence law, one frame: two actors at distinct positions
/// anywhere inside the separation radius that each move by their own
/// separation impulse for one frame end the frame strictly farther apart —
/// by at least `4 * dt` in squared distance, so repeated frames drive the
/// pair past the radius.
pub proof fn lemma_separation_convergence(p1: Vec2I, p2: Vec2I, dt: int, cfg: Config)
    requires
        in_world(p1),
        in_world(p2),
        config_wf(cfg),
        cfg.separation_strength >= 1,
        1 <= dt <= 1000,
        0 < dist_sq(p1, p2),
        dist_sq(p1, p2) < cfg.separation_radius * cfg.separation_radius,
    ensures
        dist_sq(
            Vec2I {
                x: (p1.x + spec_separation_contribution(p1, p2, cfg).x * dt) as i64,
                y: (p1.y + spec_separation_contribution(p1, p2, cfg).y * dt) as i64,
            },
            Vec2I {
                x: (p2.x + spec_separation_contribution(p2, p1, cfg).x * dt) as i64,
                y: (p2.y + spec_separation_contribution(p2, p1, cfg).y * dt) as i64,
            },
        ) >= dist_sq(p1, p2) + 4 * dt,
{
    let f = spec_separation_contribution(p1, p2, cfg);
    let g = spec_separation_contribution(p2, p1, cfg);
    lemma_sep_unfold(p1, p2, cfg);
    lemma_separation_antisymmetric(p1, p2, cfg);
    lemma_separation_push_positive(p1, p2, cfg);
    let diff = p1.spec_sub(p2);
    let dx = diff.x as int;
    let dy = diff.y as int;
    assert(f.x * dx + f.y * dy >= 1);
    crate::vec2::lemma_prod_bound2(f.x as int, dt, 1000, 1000);
    crate::vec2::lemma_prod_bound2(f.y as int, dt, 1000, 1000);
    crate::vec2::lemma_prod_bound2(g.x as int, dt, 1000, 1000);
    crate::vec2::lemma_prod_bound2(g.y as int, dt, 1000, 1000);
    let nx = (p1.x + f.x * dt) - (p2.x + g.x * dt);
    let ny = (p1.y + f.y * dt) - (p2.y + g.y * dt);
    assert(g.x * dt == -(f.x * dt) && g.y * dt == -(f.y * dt)) by (nonlinear_arith)
        requires
            g.x as int == -(f.x as int),
            g.y as int == -(f.y as int),
        ;
    assert(nx == dx + 2 * (f.x * dt) && ny == dy + 2 * (f.y * dt));
    lemma_grow_apart(dx, dy, f.x as int, f.y as int, dt);
}

/// Moving both points apart along a direction with positive projection on
/// their separation grows the squared distance by at least four times the
/// frame delta.
proof fn lemma_grow_apart(dx: int, dy: int, fx: int, fy: int, dt: int)
    requires
        fx * dx + fy * dy >= 1,
        1 <= dt <= 1000,
    ensures
        (dx + 2 * (fx * dt)) * (dx + 2 * (fx * dt)) + (dy + 2 * (fy * dt)) * (dy + 2 * (fy * dt))
            >= dx * dx + dy * dy + 4 * dt,
{
    let a = fx * dt;
    let b = fy * dt;
    assert(a * dx + b * dy >= dt) by (nonlinear_arith)
        requires
            a == fx * dt,
            b == fy * dt,
            fx * dx + fy * dy >= 1,
            dt >= 1,
        ;
    assert((dx + 2 * a) * (dx + 2 * a) == dx * dx + 4 * (a * dx) + 4 * (a * a))
        by (nonlinear_arith);
    assert((dy + 2 * b) * (dy + 2 * b) == dy * dy + 4 * (b * dy) + 4 * (b * b))
        by (nonlinear_arith);
    crate::vec2::lemma_square_nonneg(a);
    crate::vec2::lemma_square_nonneg(b);
}

} // verus!
