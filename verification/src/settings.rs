//! Global configuration constants for the epidemic spread simulation.
//!
//! All quantities are fixed-point integers: a value of `SCALE` stands for
//! one pixel, one second, or a probability of one, depending on the unit.

use vstd::prelude::*;

verus! {

/// Fixed-point scale: how many integer units stand for one whole unit.
pub const SCALE: i64 = 1000;

/// Width and height of the main community area, in fixed-point pixels
/// (350 pixels).
pub const SIMULATION_AREA_SIZE: i64 = 350 * 1000;

/// How far every person moves per second, in fixed-point pixels
/// (1.25 pixels).
pub const MOVING_SPEED: i64 = 1250;

/// Margin that keeps people away from the area border, in fixed-point
/// pixels (10 pixels).
pub const MARGIN_FROM_WALL: i64 = 10 * 1000;

/// Number of people infected when a community is first built.
pub const INITIAL_INFECTED_PEOPLE: usize = 3;

/// Probability that an exposed susceptible person is infected in one tick,
/// as a fixed-point fraction of one (0.3).
pub const INFECTION_PROBABILITY: i64 = 300;

/// Speed cap applied while social distancing is enabled, in fixed-point
/// pixels per second (0.75 pixels).
pub const SOCIAL_DISTANCING_MAX_SPEED: i64 = 750;

/// Width and height of the quarantine zone, in fixed-point pixels
/// (200 pixels).
pub const QUARANTINE_AREA_SIZE: i64 = 200 * 1000;

/// Default number of seconds an infection lasts before recovery, in
/// fixed-point seconds (8 seconds).
pub const RECOVERED_DAY: i64 = 8 * 1000;

/// Upper bound on any coordinate the simulation works with, in fixed-point
/// pixels. Both area sizes stay under it, and it keeps every product in
/// the distance and force computations inside `i64`.
pub const AREA_CAP: i64 = 10_000_000;

/// Upper bound on the magnitude of a velocity component, in fixed-point
/// pixels per second.
pub const VELOCITY_CAP: i64 = 1_000_000;

/// Upper bound on the time step of a single tick, in fixed-point seconds.
pub const TIME_STEP_CAP: i64 = 1_000_000;

/// Upper bound on any interaction radius, in fixed-point pixels.
pub const RADIUS_CAP: i64 = 10_000_000;

/// Upper bound on the configured recovery duration, in fixed-point
/// seconds.
pub const RECOVERY_CAP: i64 = 1_000_000_000_000;

/// Upper bound on the number of people in a community.
pub const COMMUNITY_CAP: usize = 1_000_000;

/// Upper bound on the magnitude of a social-distancing force component:
/// one fixed-point unit per community member.
pub const FORCE_CAP: i64 = 1_000_000_000;

} // verus!
