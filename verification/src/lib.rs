//! A 2D rigid-circle physics simulation: circular bodies move under velocity
//! integration in fixed-point (milli-unit) arithmetic, bounce off the walls of
//! a rectangular area, and exchange momentum through mass-weighted elastic
//! collisions. A host drives the simulation with per-frame elapsed times and
//! pointer-press events and reads the bodies back for display.

use vstd::prelude::*;

pub mod arith;
pub mod body;
pub mod laws;
pub mod sim;

verus! {

/// Fixed-point scale: one simulation unit is `SCALE` raw ticks. Positions,
/// velocities, radii and masses are all stored as `i64` counts of ticks.
pub const SCALE: i64 = 1000;

/// The circle constant, in ticks (fixed-point approximation of pi).
pub const PI_MILLI: i64 = 3142;

/// Uniform density of every body, in ticks (5.514 units).
pub const DENSITY_MILLI: i64 = 5514;

/// Radius given to bodies spawned by `Circle::new` and by pointer placement:
/// 15 units.
pub const DEFAULT_RADIUS: i64 = 15_000;

/// Largest magnitude a position coordinate may take (100 000 units).
pub const POS_LIMIT: i64 = 100_000_000;

/// Largest magnitude a velocity component may take (1 000 000 units per
/// second).
pub const VEL_LIMIT: i64 = 1_000_000_000;

/// Smallest radius that still derives a positive mass in tick arithmetic.
pub const RADIUS_MIN: i64 = 32;

/// Largest radius a body may take (2 000 units).
pub const RADIUS_LIMIT: i64 = 2_000_000;

/// The mass derived from `RADIUS_LIMIT`; no valid body is heavier.
pub const MASS_LIMIT: i64 = 69_299_952_000;

/// Upper bound on the configurable speed scale (reference value 100).
pub const SPEED_SCALE_LIMIT: i64 = 1_000_000;

/// Upper bound on the configurable drag-to-velocity divisor (reference 50).
pub const DRAG_SCALE_LIMIT: i64 = 1_000_000;

/// The most bodies a simulation will hold; pointer placement reports a range
/// diagnostic rather than grow past it.
pub const BODY_CAP: usize = 1_000_000_000;

} // verus!
