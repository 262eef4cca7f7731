//! Error taxonomy: configuration errors are rejected before a run starts,
//! and a lookup of a colony that no longer exists is reported to the
//! caller; the simulation itself never fails mid-tick.

use vstd::prelude::*;

verus! {

/// A configuration that must be rejected before a simulation starts.
#[derive(Clone, Copy, Debug, PartialEq, Eq, Structural)]
pub enum ConfigError {
    /// A grid extent is zero or negative.
    NonPositiveGridExtent,
    /// A grid extent is smaller than one particle's diameter.
    GridTooSmall,
    /// The particle-type count is zero.
    ZeroTypeCount,
    /// Crossover parents disagree on their type count.
    GenomeTypeCountMismatch,
    /// A genetic ratio lies outside its documented range.
    RatioOutOfRange,
    /// The repulsion radius reaches or exceeds the force range.
    ForceRangeTooSmall,
    /// A count is too large for the fixed-point bounds.
    CountTooLarge,
}

/// A request that referenced state that no longer exists.
#[derive(Clone, Copy, Debug, PartialEq, Eq, Structural)]
pub enum LookupError {
    /// No colony carries the requested id.
    ColonyNotFound,
}

impl ConfigError {
    /// A short human-readable name for the error.
    pub fn describe(&self) -> (r: &'static str) {
        match self {
            ConfigError::NonPositiveGridExtent => "grid extent must be positive",
            ConfigError::GridTooSmall => "grid extent must hold at least one particle",
            ConfigError::ZeroTypeCount => "type count must be at least 1",
            ConfigError::GenomeTypeCountMismatch => "crossover parents must share a type count",
            ConfigError::RatioOutOfRange => "genetic ratio out of range",
            ConfigError::ForceRangeTooSmall => "force range must exceed the repulsion radius",
            ConfigError::CountTooLarge => "count exceeds the supported bound",
        }
    }
}

} // verus!
