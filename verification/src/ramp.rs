//! Ramping beam damage: a per-actor state machine for continuous-beam
//! weapons.  While the beam stays on target the damage multiplier climbs
//! linearly from 1 toward a maximum; the instant the target leaves range the
//! multiplier snaps back to 1 — there is no gradual decay.
//!
//! Fixed-point conventions: damage and multipliers in milli (1.0 is 1000),
//! time in milliseconds.

use vstd::prelude::*;
use crate::actor::{Enemy, enemy_wf};
use crate::config::{Config, config_wf};
use crate::vec2::{Vec2I, dist_sq, in_world};

verus! {

/// Ramping damage state of a beam-equipped actor.
///
/// Two states: Idle (`time_on_target == 0`, `current_mult == 1000`, beam
/// inactive) and Ramping (`time_on_target > 0`, multiplier interpolated,
/// beam active).
#[derive(Clone, Copy, Debug, PartialEq, Eq, Structural)]
pub struct DisintegratorRamp {
    /// Base damage per second, in milli-damage.
    pub base_damage: i64,
    /// Maximum damage multiplier, in milli (2000 = 2x).
    pub ramp_max: i64,
    /// Time to reach the maximum, in milliseconds.
    pub ramp_time: i64,
    /// Accumulated time on target, in milliseconds.
    pub time_on_target: i64,
    /// Current damage multiplier, in milli (1000 to `ramp_max`).
    pub current_mult: i64,
    /// Whether the beam is currently active.
    pub beam_active: bool,
    /// Beam visual intensity, in per-mille.
    pub beam_intensity: i64,
}

/// Progress of the ramp in per-mille: on-target time over ramp time,
/// capped at 1000.
pub open spec fn spec_ramp_progress(time_on_target: int, ramp_time: int) -> int
    recommends
        ramp_time >= 1,
{
    if time_on_target >= ramp_time {
        1000
    } else {
        time_on_target * 1000 / ramp_time
    }
}

/// Multiplier interpolated between 1000 and `ramp_max` by progress.
pub open spec fn spec_ramp_mult(ramp_max: int, progress: int) -> int {
    1000 + (ramp_max - 1000) * progress / 1000
}

/// The ramp one frame later: on target, the on-target time grows by `dt`
/// (capped at `ramp_time`) and the multiplier and intensity follow the
/// interpolation; off target, everything resets at once.
pub open spec fn spec_ramp_after(r: DisintegratorRamp, dt: int, hitting: bool) -> DisintegratorRamp {
    if hitting {
        let t = if r.time_on_target + dt <= r.ramp_time {
            r.time_on_target + dt
        } else {
            r.ramp_time as int
        };
        let progress = spec_ramp_progress(t, r.ramp_time as int);
        DisintegratorRamp {
            time_on_target: t as i64,
            current_mult: spec_ramp_mult(r.ramp_max as int, progress) as i64,
            beam_active: true,
            beam_intensity: (300 + 700 * progress / 1000) as i64,
            ..r
        }
    } else {
        DisintegratorRamp {
            time_on_target: 0,
            current_mult: 1000,
            beam_active: false,
            beam_intensity: 0,
            ..r
        }
    }
}

/// The ramp invariant: parameters in range, on-target time within
/// `[0, ramp_time]`, multiplier within `[1000, ramp_max]` and consistent
/// with the accumulated time, intensity within `[0, 1000]`.
pub open spec fn ramp_wf(r: DisintegratorRamp) -> bool {
    &&& 0 <= r.base_damage <= 1_000_000
    &&& 1000 <= r.ramp_max <= 100_000
    &&& 1 <= r.ramp_time <= 10_000_000
    &&& 0 <= r.time_on_target <= r.ramp_time
    &&& 1000 <= r.current_mult <= r.ramp_max
    &&& 0 <= r.beam_intensity <= 1000
}

impl DisintegratorRamp {
    /// A fresh, idle ramp with the given parameters.
    pub fn new(base_damage: i64, ramp_max: i64, ramp_time: i64) -> (r: DisintegratorRamp)
        requires
            0 <= base_damage <= 1_000_000,
            1000 <= ramp_max <= 100_000,
            1 <= ramp_time <= 10_000_000,
        ensures
            ramp_wf(r),
            r.base_damage == base_damage,
            r.ramp_max == ramp_max,
            r.ramp_time == ramp_time,
            r.time_on_target == 0,
            r.current_mult == 1000,
            !r.beam_active,
            r.beam_intensity == 0,
    {
        DisintegratorRamp {
            base_damage,
            ramp_max,
            ramp_time,
            time_on_target: 0,
            current_mult: 1000,
            beam_active: false,
            beam_intensity: 0,
        }
    }

    /// Re-evaluate the ramp for one frame.
    ///
    /// On target: on-target time grows by `dt` (capped at `ramp_time`), the
    /// multiplier is interpolated by progress and the beam lights up at 30%
    /// to 100% intensity.  Off target, even for a single frame: everything
    /// resets at once.
    pub fn update(&mut self, dt: i64, hitting_target: bool)
        requires
            ramp_wf(*old(self)),
            0 <= dt <= 1_000_000,
        ensures
            ramp_wf(*final(self)),
            *final(self) == spec_ramp_after(*old(self), dt as int, hitting_target),
            final(self).base_damage == old(self).base_damage,
            final(self).ramp_max == old(self).ramp_max,
            final(self).ramp_time == old(self).ramp_time,
            hitting_target ==> {
                &&& final(self).time_on_target == if old(self).time_on_target + dt
                    <= old(self).ramp_time {
                    old(self).time_on_target + dt
                } else {
                    old(self).ramp_time as int
                }
                &&& final(self).current_mult == spec_ramp_mult(
                    old(self).ramp_max as int,
                    spec_ramp_progress(final(self).time_on_target as int, old(self).ramp_time as int),
                )
                &&& final(self).beam_active
                &&& final(self).beam_intensity == 300 + 700 * spec_ramp_progress(
                    final(self).time_on_target as int,
                    old(self).ramp_time as int,
                ) / 1000
            },
            !hitting_target ==> {
                &&& final(self).time_on_target == 0
                &&& final(self).current_mult == 1000
                &&& !final(self).beam_active
                &&& final(self).beam_intensity == 0
            },
    {
        if hitting_target {
            let t = if self.time_on_target + dt <= self.ramp_time {
                self.time_on_target + dt
            } else {
                self.ramp_time
            };
            self.time_on_target = t;
            let progress = self.ramp_progress();
            proof {
                lemma_mult_in_range(self.ramp_max as int, progress as int);
            }
            self.current_mult = 1000 + (self.ramp_max - 1000) * progress / 1000;
            self.beam_active = true;
            self.beam_intensity = 300 + 700 * progress / 1000;
        } else {
            self.time_on_target = 0;
            self.current_mult = 1000;
            self.beam_active = false;
            self.beam_intensity = 0;
        }
    }

    /// Ramp progress in per-mille (0 to 1000).
    pub fn ramp_progress(&self) -> (p: i64)
        requires
            ramp_wf(*self),
        ensures
            p == spec_ramp_progress(self.time_on_target as int, self.ramp_time as int),
            0 <= p <= 1000,
    {
        if self.time_on_target >= self.ramp_time {
            1000
        } else {
            proof {
                lemma_progress_range(self.time_on_target as int, self.ramp_time as int);
            }
            self.time_on_target * 1000 / self.ramp_time
        }
    }

    /// Current damage output per second, in milli-damage: base times the
    /// current multiplier.
    pub fn current_damage(&self) -> (d: i64)
        requires
            ramp_wf(*self),
        ensures
            d == self.base_damage * self.current_mult / 1000,
            0 <= d <= self.base_damage * self.ramp_max / 1000,
    {
        proof {
            crate::vec2::lemma_prod_bound(self.base_damage as int, self.current_mult as int, 1_000_000);
            crate::vec2::lemma_prod_bound(self.base_damage as int, self.ramp_max as int, 1_000_000);
            vstd::arithmetic::mul::lemma_mul_inequality(
                self.current_mult as int,
                self.ramp_max as int,
                self.base_damage as int,
            );
            assert(self.current_mult * self.base_damage == self.base_damage * self.current_mult)
                by (nonlinear_arith);
            assert(self.ramp_max * self.base_damage == self.base_damage * self.ramp_max)
                by (nonlinear_arith);
            vstd::arithmetic::div_mod::lemma_div_is_ordered(
                self.base_damage * self.current_mult,
                self.base_damage * self.ramp_max,
                1000,
            );
            vstd::arithmetic::div_mod::lemma_div_pos_is_pos(
                self.base_damage * self.current_mult,
                1000,
            );
            vstd::arithmetic::mul::lemma_mul_nonnegative(
                self.base_damage as int,
                self.current_mult as int,
            );
        }
        self.base_damage * self.current_mult / 1000
    }

    /// Damage applied this frame, in milli-damage: the per-second rate
    /// scaled by the frame delta.
    pub fn frame_damage(&self, dt: i64) -> (d: i64)
        requires
            ramp_wf(*self),
            0 <= dt <= 1_000_000,
        ensures
            d == self.base_damage * self.current_mult / 1000 * dt / 1000,
            d >= 0,
    {
        let per_second = self.current_damage();
        proof {
            crate::vec2::lemma_prod_bound(self.base_damage as int, self.ramp_max as int, 1_000_000);
            vstd::arithmetic::mul::lemma_mul_nonnegative(
                self.base_damage as int,
                self.ramp_max as int,
            );
            crate::vec2::lemma_prod_bound(per_second as int, dt as int, 1_000_000_000);
            vstd::arithmetic::mul::lemma_mul_nonnegative(per_second as int, dt as int);
            vstd::arithmetic::div_mod::lemma_div_pos_is_pos(per_second * dt, 1000);
        }
        per_second * dt / 1000
    }
}

/// Interpolating by a per-mille progress lands the multiplier inside
/// `[1000, ramp_max]`.
proof fn lemma_mult_in_range(ramp_max: int, progress: int)
    requires
        1000 <= ramp_max <= 100_000,
        0 <= progress <= 1000,
    ensures
        1000 <= 1000 + (ramp_max - 1000) * progress / 1000 <= ramp_max,
{
    vstd::arithmetic::mul::lemma_mul_nonnegative(ramp_max - 1000, progress);
    vstd::arithmetic::div_mod::lemma_div_pos_is_pos((ramp_max - 1000) * progress, 1000);
    assert((ramp_max - 1000) * progress <= (ramp_max - 1000) * 1000) by (nonlinear_arith)
        requires
            0 <= progress <= 1000,
            ramp_max >= 1000,
        ;
    vstd::arithmetic::div_mod::lemma_div_is_ordered(
        (ramp_max - 1000) * progress,
        (ramp_max - 1000) * 1000,
        1000,
    );
    vstd::arithmetic::div_mod::lemma_div_by_multiple(ramp_max - 1000, 1000);
}

/// Before the cap, progress is a proper fraction in per-mille.
proof fn lemma_progress_range(t: int, ramp_time: int)
    requires
        0 <= t < ramp_time,
        ramp_time >= 1,
    ensures
        0 <= t * 1000 / ramp_time <= 1000,
{
    vstd::arithmetic::mul::lemma_mul_nonnegative(t, 1000);
    vstd::arithmetic::div_mod::lemma_div_pos_is_pos(t * 1000, ramp_time);
    assert(t * 1000 <= ramp_time * 1000) by (nonlinear_arith)
        requires
            t <= ramp_time,
        ;
    vstd::arithmetic::div_mod::lemma_div_is_ordered(t * 1000, ramp_time * 1000, ramp_time);
    assert(ramp_time * 1000 / ramp_time == 1000) by {
        vstd::arithmetic::div_mod::lemma_div_multiples_vanish(1000, ramp_time);
        assert(ramp_time * 1000 == 1000 * ramp_time) by (nonlinear_arith);
    }
}

/// Instant-reset law: the frame the target leaves beam range — even for a
/// single frame — the ramp snaps back: the multiplier is exactly 1 again,
/// however high it had climbed.  There is no gradual decay.
pub proof fn lemma_instant_reset(r: DisintegratorRamp, dt: int)
    requires
        ramp_wf(r),
        r.current_mult > 1000,
    ensures
        spec_ramp_after(r, dt, false).current_mult == 1000,
        spec_ramp_after(r, dt, false).time_on_target == 0,
        !spec_ramp_after(r, dt, false).beam_active,
{
}

/// Ramp bounds law: any well-formed ramp state — and `new` and `update`
/// only produce well-formed states — keeps its multiplier within
/// `[1, ramp_max]` and its on-target time within `[0, ramp_time]`, so the
/// bounds hold at every frame boundary.
pub proof fn lemma_ramp_bounds(r: DisintegratorRamp)
    requires
        ramp_wf(r),
    ensures
        1000 <= r.current_mult <= r.ramp_max,
        0 <= r.time_on_target <= r.ramp_time,
{
}

/// The beam variants the waves ship with, tuned per hull: a fast frigate, a
/// fragile quick-ramp frigate, a heavy cruiser, a debuffing cruiser and a
/// battlecruiser boss with the longest, highest ramp.
pub fn damavik_ramp() -> (r: DisintegratorRamp)
    ensures
        ramp_wf(r),
        r.base_damage == 5000 && r.ramp_max == 2000 && r.ramp_time == 6000,
        r.time_on_target == 0 && r.current_mult == 1000 && !r.beam_active,
{
    DisintegratorRamp::new(5000, 2000, 6000)
}

pub fn starving_damavik_ramp() -> (r: DisintegratorRamp)
    ensures
        ramp_wf(r),
        r.base_damage == 4000 && r.ramp_max == 1800 && r.ramp_time == 4000,
        r.time_on_target == 0 && r.current_mult == 1000 && !r.beam_active,
{
    DisintegratorRamp::new(4000, 1800, 4000)
}

pub fn vedmak_ramp() -> (r: DisintegratorRamp)
    ensures
        ramp_wf(r),
        r.base_damage == 9000 && r.ramp_max == 2000 && r.ramp_time == 8000,
        r.time_on_target == 0 && r.current_mult == 1000 && !r.beam_active,
{
    DisintegratorRamp::new(9000, 2000, 8000)
}

pub fn blinding_vedmak_ramp() -> (r: DisintegratorRamp)
    ensures
        ramp_wf(r),
        r.base_damage == 7000 && r.ramp_max == 2000 && r.ramp_time == 6000,
        r.time_on_target == 0 && r.current_mult == 1000 && !r.beam_active,
{
    DisintegratorRamp::new(7000, 2000, 6000)
}

pub fn drekavac_ramp() -> (r: DisintegratorRamp)
    ensures
        ramp_wf(r),
        r.base_damage == 14_000 && r.ramp_max == 2500 && r.ramp_time == 10_000,
        r.time_on_target == 0 && r.current_mult == 1000 && !r.beam_active,
{
    DisintegratorRamp::new(14_000, 2500, 10_000)
}

/// Whether the target is within beam range of an actor.
pub open spec fn spec_in_beam_range(enemy_pos: Vec2I, player_pos: Vec2I, cfg: Config) -> bool {
    dist_sq(player_pos, enemy_pos) < cfg.beam_range * cfg.beam_range
}

/// Damage a beam deals to the protagonist this frame: source position and
/// milli-damage amount, for the damage-application collaborator.
#[derive(Clone, Copy, Debug, PartialEq, Eq, Structural)]
pub struct BeamHit {
    pub source_position: Vec2I,
    pub damage: i64,
}

/// The beam hits of one frame, in actor order: one per beam actor whose
/// updated beam is active, unless the protagonist is invulnerable.
pub open spec fn spec_beam_hits(
    actors: Seq<Enemy>,
    ramps: Seq<DisintegratorRamp>,
    player_pos: Vec2I,
    player_invulnerable: bool,
    dt: int,
    cfg: Config,
) -> Seq<BeamHit>
    decreases actors.len(),
{
    if actors.len() == 0 {
        Seq::empty()
    } else {
        let i = actors.len() - 1;
        let prefix = spec_beam_hits(
            actors.drop_last(),
            ramps.take(i),
            player_pos,
            player_invulnerable,
            dt,
            cfg,
        );
        let hitting = actors[i].ai.active && spec_in_beam_range(actors[i].pos, player_pos, cfg);
        let after = spec_ramp_after(ramps[i], dt, hitting);
        if after.beam_active && !player_invulnerable {
            prefix.push(
                BeamHit {
                    source_position: actors[i].pos,
                    damage: (crate::vec2::tdiv(
                        crate::vec2::tdiv(after.base_damage * after.current_mult, 1000) * dt,
                        1000,
                    )) as i64,
                },
            )
        } else {
            prefix
        }
    }
}

/// The per-frame beam pass: every beam actor's ramp is re-evaluated
/// against whether the target is in range — inactive actors reset — and
/// each active beam deals its ramped per-second damage scaled by the
/// frame delta, unless the protagonist is invulnerable.
pub fn disintegrator_update(
    actors: &Vec<Enemy>,
    ramps: &mut Vec<DisintegratorRamp>,
    player_pos: Vec2I,
    player_invulnerable: bool,
    dt: i64,
    cfg: &Config,
) -> (hits: Vec<BeamHit>)
    requires
        actors@.len() == old(ramps)@.len(),
        actors@.len() <= 100_000,
        1 <= dt <= 1000,
        in_world(player_pos),
        config_wf(*cfg),
        forall|k: int| 0 <= k < actors@.len() ==> enemy_wf(#[trigger] actors@[k]),
        forall|k: int| 0 <= k < old(ramps)@.len() ==> ramp_wf(#[trigger] old(ramps)@[k]),
    ensures
        final(ramps)@.len() == old(ramps)@.len(),
        forall|k: int| 0 <= k < old(ramps)@.len() ==> ramp_wf(#[trigger] final(ramps)@[k]),
        forall|k: int| 0 <= k < old(ramps)@.len() ==> #[trigger] final(ramps)@[k]
            == spec_ramp_after(
            old(ramps)@[k],
            dt as int,
            actors@[k].ai.active && spec_in_beam_range(actors@[k].pos, player_pos, *cfg),
        ),
        hits@ == spec_beam_hits(
            actors@,
            old(ramps)@,
            player_pos,
            player_invulnerable,
            dt as int,
            *cfg,
        ),
{
    let ghost orig = ramps@;
    let mut hits: Vec<BeamHit> = Vec::new();
    let mut k: usize = 0;
    proof {
        assert(actors@.take(0) =~= Seq::<Enemy>::empty());
        crate::vec2::lemma_prod_bound(cfg.beam_range as int, cfg.beam_range as int, 10_000_000);
    }
    let range2 = cfg.beam_range * cfg.beam_range;
    while k < actors.len()
        invariant
            actors@.len() == orig.len(),
            ramps@.len() == orig.len(),
            actors@.len() <= 100_000,
            1 <= dt <= 1000,
            in_world(player_pos),
            config_wf(*cfg),
            range2 == cfg.beam_range * cfg.beam_range,
            k <= actors@.len(),
            forall|m: int| 0 <= m < actors@.len() ==> enemy_wf(#[trigger] actors@[m]),
            forall|m: int| 0 <= m < orig.len() ==> ramp_wf(#[trigger] orig[m]),
            forall|m: int| 0 <= m < orig.len() ==> ramp_wf(#[trigger] ramps@[m]),
            forall|m: int| k <= m < orig.len() ==> #[trigger] ramps@[m] == orig[m],
            forall|m: int| 0 <= m < k ==> #[trigger] ramps@[m] == spec_ramp_after(
                orig[m],
                dt as int,
                actors@[m].ai.active && spec_in_beam_range(actors@[m].pos, player_pos, *cfg),
            ),
            hits@ == spec_beam_hits(
                actors@.take(k as int),
                orig.take(k as int),
                player_pos,
                player_invulnerable,
                dt as int,
                *cfg,
            ),
        decreases actors@.len() - k,
    {
        let e = actors[k];
        proof {
            assert(actors@.take(k as int + 1).drop_last() =~= actors@.take(k as int));
            assert(actors@.take(k as int + 1).last() == actors@[k as int]);
            assert(orig.take(k as int + 1).take(k as int) =~= orig.take(k as int));
            assert(orig.take(k as int + 1)[k as int] == orig[k as int]);
        }
        let d2 = crate::vec2::distance_sq(player_pos, e.pos);
        let in_range = d2 < range2;
        let hitting = e.ai.active && in_range;
        let rm = crate::vec2::vec_mut(ramps, k);
        rm.update(dt, hitting);
        if rm.beam_active && !player_invulnerable {
            let dmg = rm.frame_damage(dt);
            hits.push(BeamHit { source_position: e.pos, damage: dmg });
        }
        k = k + 1;
    }
    proof {
        assert(actors@.take(actors@.len() as int) =~= actors@);
        assert(orig.take(orig.len() as int) =~= orig);
    }
    hits
}

} // verus!
