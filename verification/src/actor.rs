//! The hostile actor as the simulation sees it: position, speed, and the
//! per-actor AI state (behavior tag, animation timer, phase offset, active
//! flag, and the steering impulse recomputed every frame).

use vstd::prelude::*;
use crate::behavior::EnemyBehavior;
use crate::vec2::{Vec2I, in_world};

verus! {

/// One full oscillation of the movement wave, in milli-radians.
pub const WAVE_PERIOD: i64 = 6284;

/// Animation timers saturate here (about thirty-five years of play), so
/// wave arguments never overflow.
pub const TIMER_CAP: i64 = 1_000_000_000_000;

/// Per-actor AI state.
#[derive(Clone, Copy, Debug, PartialEq, Eq, Structural)]
pub struct EnemyAI {
    /// Current behavior tag.
    pub behavior: EnemyBehavior,
    /// Elapsed per-actor time for movement patterns, in milliseconds.
    pub timer: i64,
    /// Phase offset for oscillating patterns, in milli-radians.
    pub phase: i64,
    /// Whether the actor currently reacts and fires at all.
    pub active: bool,
    /// Combined steering impulse from spatial awareness, in units/s;
    /// recomputed every frame, never carried to the next.
    pub dodge_impulse: Vec2I,
}

/// A hostile actor: where it is, how fast it moves, and its AI state.
#[derive(Clone, Copy, Debug, PartialEq, Eq, Structural)]
pub struct Enemy {
    /// World position, in milli-units.
    pub pos: Vec2I,
    /// Assigned movement speed, in units/s.
    pub speed: i64,
    /// AI state.
    pub ai: EnemyAI,
}

/// A hostile projectile the actors dodge: position in milli-units,
/// velocity in units/s.
#[derive(Clone, Copy, Debug, PartialEq, Eq, Structural)]
pub struct Projectile {
    pub pos: Vec2I,
    pub vel: Vec2I,
}

/// Actor state the simulation steps preserve: position in the world,
/// speed and timers in range, phase within one wave period, and a bounded
/// steering impulse.
pub open spec fn enemy_wf(e: Enemy) -> bool {
    &&& in_world(e.pos)
    &&& 0 <= e.speed <= 1000
    &&& 0 <= e.ai.timer <= TIMER_CAP
    &&& 0 <= e.ai.phase < WAVE_PERIOD
    &&& -1_000_000 <= e.ai.dodge_impulse.x <= 1_000_000
    &&& -1_000_000 <= e.ai.dodge_impulse.y <= 1_000_000
}

/// A projectile the awareness step can reason about.
pub open spec fn projectile_wf(p: Projectile) -> bool {
    &&& in_world(p.pos)
    &&& -1_000_000 <= p.vel.x <= 1_000_000
    &&& -1_000_000 <= p.vel.y <= 1_000_000
}

/// Escort-deployment state of a Spawner actor: how often it deploys a
/// fighter, and how many it may field at once.  The decision lives here;
/// actually creating the fighter is the owning frame loop's business.
#[derive(Clone, Copy, Debug, PartialEq, Eq, Structural)]
pub struct EnemySpawner {
    /// Time between deployments, in milliseconds.
    pub spawn_rate: i64,
    /// Cooldown until the next deployment, in milliseconds.
    pub spawn_timer: i64,
    /// Most fighters fielded at once.
    pub max_spawned: u32,
    /// Fighters currently fielded.
    pub spawned_count: u32,
}

pub open spec fn spawner_wf(s: EnemySpawner) -> bool {
    &&& 1 <= s.spawn_rate <= 10_000_000
    &&& -2_000_000 <= s.spawn_timer <= 10_000_000
    &&& s.max_spawned <= 1000
    &&& s.spawned_count <= s.max_spawned
}

impl EnemySpawner {
    /// One frame's deployment decision: the timer ticks down, and a new
    /// fighter is deployed — resetting the timer and counting it — exactly
    /// when the timer runs out with room left in the escort.
    pub fn step(&mut self, dt: i64) -> (deploy: bool)
        requires
            spawner_wf(*old(self)),
            0 <= dt <= 1_000_000,
        ensures
            spawner_wf(*final(self)),
            deploy == (old(self).spawn_timer - dt <= 0 && old(self).spawned_count
                < old(self).max_spawned),
            deploy ==> final(self).spawn_timer == old(self).spawn_rate
                && final(self).spawned_count == old(self).spawned_count + 1,
            !deploy ==> final(self).spawn_timer == if old(self).spawn_timer - dt
                >= -2_000_000 {
                old(self).spawn_timer - dt
            } else {
                -2_000_000
            } && final(self).spawned_count == old(self).spawned_count,
            final(self).spawn_rate == old(self).spawn_rate,
            final(self).max_spawned == old(self).max_spawned,
    {
        if self.spawn_timer - dt <= 0 && self.spawned_count < self.max_spawned {
            self.spawn_timer = self.spawn_rate;
            self.spawned_count = self.spawned_count + 1;
            true
        } else {
            self.spawn_timer = if self.spawn_timer - dt >= -2_000_000 {
                self.spawn_timer - dt
            } else {
                -2_000_000
            };
            false
        }
    }

    /// One fielded fighter was destroyed, freeing a deployment slot.
    pub fn on_escort_lost(&mut self)
        requires
            spawner_wf(*old(self)),
        ensures
            spawner_wf(*final(self)),
            final(self).spawned_count == if old(self).spawned_count > 0 {
                old(self).spawned_count - 1
            } else {
                0
            },
            final(self).spawn_rate == old(self).spawn_rate,
            final(self).spawn_timer == old(self).spawn_timer,
            final(self).max_spawned == old(self).max_spawned,
    {
        if self.spawned_count > 0 {
            self.spawned_count = self.spawned_count - 1;
        }
    }
}

impl Enemy {
    /// A fresh actor with an explicitly chosen phase offset.
    pub fn with_phase(behavior: EnemyBehavior, pos: Vec2I, speed: i64, phase: i64) -> (e: Enemy)
        requires
            in_world(pos),
            0 <= speed <= 1000,
            0 <= phase < WAVE_PERIOD,
        ensures
            enemy_wf(e),
            e.pos == pos,
            e.speed == speed,
            e.ai.behavior == behavior,
            e.ai.timer == 0,
            e.ai.phase == phase,
            e.ai.active,
            e.ai.dodge_impulse == (Vec2I { x: 0, y: 0 }),
    {
        Enemy {
            pos,
            speed,
            ai: EnemyAI {
                behavior,
                timer: 0,
                phase,
                active: true,
                dodge_impulse: Vec2I { x: 0, y: 0 },
            },
        }
    }

    /// A fresh actor with a random phase offset, so identical hulls spawned
    /// together do not oscillate in lockstep.  Whatever phase the draw
    /// yields, the actor starts in the same well-formed state.
    pub fn spawn(behavior: EnemyBehavior, pos: Vec2I, speed: i64) -> (e: Enemy)
        requires
            in_world(pos),
            0 <= speed <= 1000,
        ensures
            enemy_wf(e),
            e.pos == pos,
            e.speed == speed,
            e.ai.behavior == behavior,
            e.ai.timer == 0,
            0 <= e.ai.phase < WAVE_PERIOD,
            e.ai.active,
            e.ai.dodge_impulse == (Vec2I { x: 0, y: 0 }),
    {
        let phase = crate::rng::random_below(WAVE_PERIOD as u64) as i64;
        Enemy::with_phase(behavior, pos, speed, phase)
    }
}

} // verus!
