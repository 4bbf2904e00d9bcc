//! The simulation's tunables, carried as one injected context value so every
//! step is a pure function of its inputs.  Distances are in milli-units,
//! forces and speeds in units per second, time in milliseconds.

use vstd::prelude::*;

verus! {

/// Configuration constants of the combat core.
#[derive(Clone, Copy, Debug, PartialEq, Eq, Structural)]
pub struct Config {
    /// How far actors detect incoming hostile projectiles (milli-units).
    pub dodge_detection_radius: i64,
    /// Base dodge force applied when evading projectiles (units/s).
    pub dodge_strength: i64,
    /// Distance at which actors repel from each other (milli-units).
    pub separation_radius: i64,
    /// Force applied to keep actors apart (units/s).
    pub separation_strength: i64,
    /// Playable-area edge margin for soft boundary avoidance (milli-units).
    pub edge_avoidance_margin: i64,
    /// Force pushing actors away from the edges (units/s).
    pub edge_push_strength: i64,
    /// Maximum total steering-impulse magnitude (units/s).
    pub max_dodge_impulse: i64,
    /// Radius within which actors rally around leader units (milli-units).
    pub leader_rally_radius: i64,
    /// Cohesion force pulling escorts toward their leader (units/s).
    pub leader_cohesion_strength: i64,
    /// Comfortable escort distance below which no cohesion pull applies
    /// (milli-units).
    pub escort_distance: i64,
    /// Closing-approach threshold for the dodge trigger, in per-mille of a
    /// full parallel approach.
    pub approach_threshold: i64,
    /// Half the playable area's width (milli-units).
    pub half_width: i64,
    /// Half the playable area's height (milli-units).
    pub half_height: i64,
    /// Beam weapons reach the target within this distance (milli-units).
    pub beam_range: i64,
    /// Actors beyond the playable bounds by this margin are removed
    /// (milli-units).
    pub bounds_margin: i64,
}

/// Geometry stays comfortably inside the arithmetic bounds: every radius
/// and margin is positive and at most a thousand units, every force at
/// most a thousand units/s, and the playable area within ten thousand
/// units of the origin.
pub open spec fn config_wf(cfg: Config) -> bool {
    &&& 1 <= cfg.dodge_detection_radius <= 1_000_000
    &&& 0 <= cfg.dodge_strength <= 1000
    &&& 1 <= cfg.separation_radius <= 1_000_000
    &&& 0 <= cfg.separation_strength <= 1000
    &&& 1000 <= cfg.edge_avoidance_margin <= 1_000_000
    &&& 0 <= cfg.edge_push_strength <= 1000
    &&& 0 <= cfg.max_dodge_impulse <= 100_000
    &&& 1 <= cfg.leader_rally_radius <= 1_000_000
    &&& 0 <= cfg.leader_cohesion_strength <= 1000
    &&& 0 <= cfg.escort_distance <= 1_000_000
    &&& 0 <= cfg.approach_threshold <= 1000
    &&& 1 <= cfg.half_width <= 10_000_000
    &&& 1 <= cfg.half_height <= 10_000_000
    &&& 1 <= cfg.beam_range <= 10_000_000
    &&& 0 <= cfg.bounds_margin <= 1_000_000
}

impl Config {
    /// The tuning the game ships with: detection radius 100 units, dodge
    /// strength 150, separation 55 / 80, edge margin 40 / strength 120,
    /// impulse ceiling 300, rally radius 150 / cohesion 40 beyond 40 units,
    /// a 0.2 closing threshold, an 800 x 600 playable area, 350-unit beam
    /// range and a 100-unit removal margin.
    pub fn standard() -> (cfg: Config)
        ensures
            config_wf(cfg),
            cfg.dodge_detection_radius == 100_000,
            cfg.dodge_strength == 150,
            cfg.separation_radius == 55_000,
            cfg.separation_strength == 80,
            cfg.edge_avoidance_margin == 40_000,
            cfg.edge_push_strength == 120,
            cfg.max_dodge_impulse == 300,
            cfg.leader_rally_radius == 150_000,
            cfg.leader_cohesion_strength == 40,
            cfg.escort_distance == 40_000,
            cfg.approach_threshold == 200,
            cfg.half_width == 400_000,
            cfg.half_height == 300_000,
            cfg.beam_range == 350_000,
            cfg.bounds_margin == 100_000,
    {
        Config {
            dodge_detection_radius: 100_000,
            dodge_strength: 150,
            separation_radius: 55_000,
            separation_strength: 80,
            edge_avoidance_margin: 40_000,
            edge_push_strength: 120,
            max_dodge_impulse: 300,
            leader_rally_radius: 150_000,
            leader_cohesion_strength: 40,
            escort_distance: 40_000,
            approach_threshold: 200,
            half_width: 400_000,
            half_height: 300_000,
            beam_range: 350_000,
            bounds_margin: 100_000,
        }
    }
}

} // verus!
