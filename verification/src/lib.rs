//! Evolving "particle life" colonies: typed particles move under a
//! genome-encoded interaction matrix inside a bounded or toroidal volume,
//! forage for food to accumulate a score, and are bred across epochs by a
//! genetic algorithm.
//!
//! All quantities are fixed-point integers with three decimal places
//! (see [`fixed`]), so every routine has an exact arithmetic contract.

pub mod boundary;
pub mod engine;
pub mod entities;
pub mod errors;
pub mod fixed;
pub mod foraging;
pub mod genetic;
pub mod genome;
pub mod params;
pub mod physics;
pub mod record;
pub mod rng;
pub mod stats;
pub mod vec3;
