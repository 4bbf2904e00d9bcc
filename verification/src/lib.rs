//! Real-time combat-simulation core of an arcade space shooter.
//!
//! Every frame the core decides where each hostile actor moves, whether it
//! dodges danger, how accurately it fires, and how a continuous-beam weapon's
//! damage ramps over sustained contact.  All geometry is carried in
//! fixed-point integers: distances in milli-units (one unit = 1000) and time
//! in milliseconds, so that every formula is exact and provable.

pub mod actor;
pub mod awareness;
pub mod behavior;
pub mod config;
pub mod grid;
pub mod locomotion;
pub mod ramp;
pub mod rng;
pub mod targeting;
pub mod tracker;
pub mod vec2;

use vstd::prelude::*;

verus! {

/// Component bound for all vector arithmetic in the crate: every coordinate,
/// velocity and force component stays well inside this, so squares and
/// products of a few factors never overflow an `i64`.
pub const COORD_BOUND: i64 = 0x4000_0000;

} // verus!
