//! A spatial SIR epidemic simulation: agents move in a bounded area,
//! reflect off its walls, pass an infection on by proximity, and recover
//! after a configurable duration. Coordinates, velocities, durations and
//! probabilities are fixed-point integers with a scale of `SCALE` units
//! per pixel (or per second, or per unit of probability).

pub mod numeric;
pub mod person;
mod rng;
pub mod settings;
pub mod simulation;
