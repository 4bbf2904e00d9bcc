//! The fixed set of hostile behavior tags, and the per-tag coefficient
//! table: dodge sensitivity and aim accuracy, both in per-mille (a
//! coefficient of 1.0 is written 1000).

use vstd::prelude::*;

verus! {

/// Enemy AI behavior tag.
#[derive(Clone, Copy, Debug, PartialEq, Eq, Structural)]
pub enum EnemyBehavior {
    /// Moves straight down.
    Linear,
    /// Weaves side to side.
    Zigzag,
    /// Moves toward the tracked target.
    Homing,
    /// Circles around a point.
    Orbital,
    /// Stays at distance, strafes horizontally, fires long-range.
    Sniper,
    /// Rushes the target at double speed (suicide).
    Kamikaze,
    /// Fast oscillation, harassing.
    Weaver,
    /// Slow, deploys fighter escorts.
    Spawner,
    /// Heavy armor, slow advance.
    Tank,
    /// Tracks the target and fires a continuous beam with ramping damage.
    Disintegrator,
}

impl EnemyBehavior {
    /// How strongly this tag reacts to incoming projectiles, in per-mille
    /// (0 = ignores them, 1000 = maximum dodge).
    pub open spec fn spec_dodge_sensitivity(self) -> int {
        match self {
            EnemyBehavior::Linear => 300,
            EnemyBehavior::Zigzag => 500,
            EnemyBehavior::Homing => 300,
            EnemyBehavior::Orbital => 500,
            EnemyBehavior::Sniper => 800,
            EnemyBehavior::Kamikaze => 0,
            EnemyBehavior::Weaver => 700,
            EnemyBehavior::Spawner => 200,
            EnemyBehavior::Tank => 100,
            EnemyBehavior::Disintegrator => 500,
        }
    }

    pub fn dodge_sensitivity(self) -> (r: i64)
        ensures
            r == self.spec_dodge_sensitivity(),
            0 <= r <= 1000,
    {
        match self {
            EnemyBehavior::Linear => 300,
            EnemyBehavior::Zigzag => 500,
            EnemyBehavior::Homing => 300,
            EnemyBehavior::Orbital => 500,
            EnemyBehavior::Sniper => 800,
            EnemyBehavior::Kamikaze => 0,
            EnemyBehavior::Weaver => 700,
            EnemyBehavior::Spawner => 200,
            EnemyBehavior::Tank => 100,
            EnemyBehavior::Disintegrator => 500,
        }
    }

    /// How accurately this tag leads its shots, in per-mille (0 = no lead,
    /// 1000 = perfect prediction).
    pub open spec fn spec_aim_accuracy(self) -> int {
        match self {
            EnemyBehavior::Linear => 200,
            EnemyBehavior::Zigzag => 400,
            EnemyBehavior::Homing => 500,
            EnemyBehavior::Orbital => 400,
            EnemyBehavior::Sniper => 900,
            EnemyBehavior::Kamikaze => 0,
            EnemyBehavior::Weaver => 300,
            EnemyBehavior::Spawner => 200,
            EnemyBehavior::Tank => 500,
            EnemyBehavior::Disintegrator => 600,
        }
    }

    pub fn aim_accuracy(self) -> (r: i64)
        ensures
            r == self.spec_aim_accuracy(),
            0 <= r <= 1000,
    {
        match self {
            EnemyBehavior::Linear => 200,
            EnemyBehavior::Zigzag => 400,
            EnemyBehavior::Homing => 500,
            EnemyBehavior::Orbital => 400,
            EnemyBehavior::Sniper => 900,
            EnemyBehavior::Kamikaze => 0,
            EnemyBehavior::Weaver => 300,
            EnemyBehavior::Spawner => 200,
            EnemyBehavior::Tank => 500,
            EnemyBehavior::Disintegrator => 600,
        }
    }

    /// Spawner and Tank enemies act as squad leaders: escorts rally near
    /// them.
    pub open spec fn spec_is_leader(self) -> bool {
        self == EnemyBehavior::Spawner || self == EnemyBehavior::Tank
    }

    pub fn is_leader(self) -> (r: bool)
        ensures
            r == self.spec_is_leader(),
    {
        match self {
            EnemyBehavior::Spawner => true,
            EnemyBehavior::Tank => true,
            _ => false,
        }
    }
}

} // verus!
