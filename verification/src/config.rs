//! Tunable constants of the simulation.
//!
//! All lengths and speeds are in fixed-point milli-units: `SCALE` ticks make
//! one world unit, so `MAX_SPEED` below is 300 world units per second.

use vstd::prelude::*;

verus! {

/// Fixed-point resolution: ticks per world unit.
pub const SCALE: i64 = 1000;

/// Population cap used by `BoidsPlugin::default`.
pub const DEFAULT_MAX_BOID_COUNT: u32 = 600;

/// Agent radius margin added to the half-extents for wrap-around slack
/// (5 world units).
pub const R_MARGIN: i64 = 5_000;

/// Bound on the magnitude of a single steering force (5 world units/s).
pub const MAX_FORCE: i64 = 5_000;

/// Bound on the magnitude of an agent's velocity (300 world units/s).
pub const MAX_SPEED: i64 = 300_000;

/// Radius of the separation scan (50 world units).
pub const DESIRED_SEPARATION: i64 = 50_000;

/// Radius of the alignment and cohesion scans (100 world units).
pub const NEIGHBOUR_RADIUS: i64 = 100_000;

/// Separation weight 1.2, as the ratio `SEPARATION_MULTIPLIER_NUM /
/// SEPARATION_MULTIPLIER_DEN`.
pub const SEPARATION_MULTIPLIER_NUM: i64 = 12;

/// Denominator of the separation weight.
pub const SEPARATION_MULTIPLIER_DEN: i64 = 10;

/// Alignment weight.
pub const ALIGN_MULTIPLIER: i64 = 1;

/// Cohesion weight.
pub const COHESION_MULTIPLIER: i64 = 1;

/// Machine limit on the viewport half-extents plus margin (100 000 world
/// units); keeps every coordinate product inside `i64`.
pub const BOUND_CAP: i64 = 100_000_000;

/// Machine limit on a per-agent `max_speed` parameter.
pub const SPEED_CAP: i64 = 1_000_000;

/// Machine limit on a per-agent `max_force` parameter.
pub const FORCE_CAP: i64 = 1_000_000;

/// Machine limit on an accumulated per-frame acceleration component:
/// covers the three weighted steering outputs.
pub const ACC_CAP: i64 = 4_000_000;

/// Machine limit on the frame time in milliseconds (1000 seconds).
pub const DT_CAP: i64 = 1_000_000;

/// Machine limit on the population length; keeps accumulated sums inside
/// `i64`.
pub const POP_CAP: u64 = 0x1_0000_0000;

} // verus!
