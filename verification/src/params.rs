//! Run configuration: grid extents, simulation counts and timers, force
//! parameters and genetic ratios, plus the global tuning constants.
//! Configuration errors are caught by `validate` before a run starts.

use vstd::prelude::*;
use crate::errors::ConfigError;

verus! {

/// Default number of particles per colony.
pub const DEFAULT_PARTICLE_COUNT: usize = 100;

/// Default number of particle types.
pub const DEFAULT_PARTICLE_TYPES: usize = 3;

/// Default number of colonies evolved side by side.
pub const DEFAULT_SIMULATION_COUNT: usize = 6;

/// Default epoch length, in fixed-point seconds (60 s).
pub const DEFAULT_EPOCH_DURATION: i64 = 60_000;

/// Fixed physics timestep, in fixed-point seconds (0.008 s), independent
/// of any display rate.
pub const PHYSICS_TIMESTEP: i64 = 8;

/// Default grid extents (800 units each way).
pub const DEFAULT_GRID_WIDTH: i64 = 800_000;

/// Default grid height.
pub const DEFAULT_GRID_HEIGHT: i64 = 800_000;

/// Default grid depth.
pub const DEFAULT_GRID_DEPTH: i64 = 800_000;

/// Default number of food items.
pub const DEFAULT_FOOD_COUNT: usize = 50;

/// Default food respawn cooldown (5 s).
pub const DEFAULT_FOOD_RESPAWN_TIME: i64 = 5_000;

/// Default nutritional value of one food item (1.0).
pub const DEFAULT_FOOD_VALUE: i64 = 1_000;

/// Food radius (2.0 units).
pub const FOOD_RADIUS: i64 = 2_000;

/// Particle radius (4.0 units).
pub const PARTICLE_RADIUS: i64 = 4_000;

/// Speed cap for any particle (200 units/s).
pub const MAX_VELOCITY: i64 = 200_000;

/// Velocity damping applied to the reflected axis on a bounce (0.5).
pub const COLLISION_DAMPING: i64 = 500;

/// Default force range (300 units).
pub const DEFAULT_MAX_FORCE_RANGE: i64 = 300_000;

/// Genome attractions are scaled by this factor (80.0).
pub const FORCE_SCALE_FACTOR: i64 = 80_000;

/// Default half-life of a particle's velocity (0.043 s).
pub const DEFAULT_VELOCITY_HALF_LIFE: i64 = 43;

/// Squared minimum interaction distance (0.001 square units), below which
/// a pair is skipped to avoid near-zero divisions.
pub const MIN_DISTANCE_SQ: i64 = 1_000;

/// At most this many neighbour interactions are counted per particle per
/// tick; later neighbours in iteration order are simply not counted.
pub const MAX_INTERACTIONS: usize = 100;

/// Default share of genomes carried over unchanged (0.1).
pub const DEFAULT_ELITE_RATIO: i64 = 100;

/// Default base mutation rate (0.1).
pub const DEFAULT_MUTATION_RATE: i64 = 100;

/// Default crossover probability (0.7).
pub const DEFAULT_CROSSOVER_RATE: i64 = 700;

/// Largest magnitude any coordinate may reach (1,000,000 units), a
/// fixed-point machine limit, far beyond any sensible grid.
pub const COORD_LIMIT: i64 = 1_000_000_000;

/// Largest accepted grid extent (200,000 units), a machine limit of the
/// fixed-point arithmetic.
pub const GRID_EXTENT_LIMIT: i64 = 200_000_000;

/// Largest supported counts for colonies, particles, types and foods, a
/// machine limit keeping every force sum inside 64 bits.
pub const COUNT_LIMIT: usize = 10_000;

/// How fast the simulation runs: how many fixed timesteps one external
/// update executes.
#[derive(Clone, Copy, Debug, PartialEq, Eq, Structural)]
pub enum SimulationSpeed {
    /// No timestep is executed.
    Paused,
    /// One timestep per update.
    Normal,
    /// Two timesteps per update.
    Fast,
    /// Four timesteps per update.
    VeryFast,
}

impl SimulationSpeed {
    /// The number of fixed timesteps one update executes; doubles as the
    /// factor by which the epoch timer advances.
    pub fn multiplier(&self) -> (r: u32)
        ensures
            r == self.multiplier_spec(),
    {
        match self {
            SimulationSpeed::Paused => 0,
            SimulationSpeed::Normal => 1,
            SimulationSpeed::Fast => 2,
            SimulationSpeed::VeryFast => 4,
        }
    }

    /// Specification twin of `multiplier`.
    pub open spec fn multiplier_spec(self) -> u32 {
        match self {
            SimulationSpeed::Paused => 0,
            SimulationSpeed::Normal => 1,
            SimulationSpeed::Fast => 2,
            SimulationSpeed::VeryFast => 4,
        }
    }
}

impl Default for SimulationSpeed {
    /// The default speed runs one timestep per update.
    fn default() -> (r: SimulationSpeed)
        ensures
            r == SimulationSpeed::Normal,
    {
        SimulationSpeed::Normal
    }
}

/// The two topologies of the simulated volume.
#[derive(Clone, Copy, Debug, PartialEq, Eq, Structural)]
pub enum BoundaryMode {
    /// Walls reflect: the exceeded axis is repositioned and its velocity
    /// damped and negated.
    Bounce,
    /// Toroidal wrap: an exceeded coordinate reappears on the far side.
    Teleport,
}

impl BoundaryMode {
    /// Stable integer code for cross-boundary interfaces: 0 for `Bounce`,
    /// 1 for `Teleport`.
    pub fn code(&self) -> (r: u32)
        ensures
            r == 0 <==> self is Bounce,
            r == 1 <==> self is Teleport,
    {
        match self {
            BoundaryMode::Bounce => 0,
            BoundaryMode::Teleport => 1,
        }
    }

    /// Inverse of `code`: any value other than 0 or 1 names no mode.
    pub fn from_code(code: u32) -> (r: Option<BoundaryMode>)
        ensures
            code == 0 ==> r === Some(BoundaryMode::Bounce),
            code == 1 ==> r === Some(BoundaryMode::Teleport),
            code > 1 ==> r is None,
    {
        if code == 0 {
            Some(BoundaryMode::Bounce)
        } else if code == 1 {
            Some(BoundaryMode::Teleport)
        } else {
            None
        }
    }
}

impl Default for BoundaryMode {
    /// Walls reflect by default.
    fn default() -> (r: BoundaryMode)
        ensures
            r == BoundaryMode::Bounce,
    {
        BoundaryMode::Bounce
    }
}

/// Extents of the simulated volume, centred on the origin.
pub struct GridParameters {
    /// Extent along x.
    pub width: i64,
    /// Extent along y.
    pub height: i64,
    /// Extent along z.
    pub depth: i64,
}

impl GridParameters {
    /// All three extents are positive, hold at least one particle's
    /// diameter, and stay within the fixed-point limit.
    pub open spec fn wf(self) -> bool {
        &&& 2 * PARTICLE_RADIUS <= self.width <= GRID_EXTENT_LIMIT
        &&& 2 * PARTICLE_RADIUS <= self.height <= GRID_EXTENT_LIMIT
        &&& 2 * PARTICLE_RADIUS <= self.depth <= GRID_EXTENT_LIMIT
    }

    /// Rejects non-positive, undersized or oversized extents before a
    /// run starts.
    pub fn validate(&self) -> (r: Result<(), ConfigError>)
        ensures
            r is Ok <==> self.wf(),
            r === Err(ConfigError::NonPositiveGridExtent) <==> (self.width <= 0 || self.height <= 0
                || self.depth <= 0),
            r === Err(ConfigError::GridTooSmall) <==> (self.width > 0 && self.height > 0
                && self.depth > 0 && (self.width < 2 * PARTICLE_RADIUS || self.height < 2
                * PARTICLE_RADIUS || self.depth < 2 * PARTICLE_RADIUS)),
            r === Err(ConfigError::CountTooLarge) <==> (self.width >= 2 * PARTICLE_RADIUS
                && self.height >= 2 * PARTICLE_RADIUS && self.depth >= 2 * PARTICLE_RADIUS && (
            self.width > GRID_EXTENT_LIMIT || self.height > GRID_EXTENT_LIMIT || self.depth
                > GRID_EXTENT_LIMIT)),
    {
        if self.width <= 0 || self.height <= 0 || self.depth <= 0 {
            Err(ConfigError::NonPositiveGridExtent)
        } else if self.width < 2 * PARTICLE_RADIUS || self.height < 2 * PARTICLE_RADIUS
            || self.depth < 2 * PARTICLE_RADIUS {
            Err(ConfigError::GridTooSmall)
        } else if self.width > GRID_EXTENT_LIMIT || self.height > GRID_EXTENT_LIMIT || self.depth
            > GRID_EXTENT_LIMIT {
            Err(ConfigError::CountTooLarge)
        } else {
            Ok(())
        }
    }
}

impl Default for GridParameters {
    /// The default volume is an 800-unit cube.
    fn default() -> (r: GridParameters)
        ensures
            r.width == DEFAULT_GRID_WIDTH,
            r.height == DEFAULT_GRID_HEIGHT,
            r.depth == DEFAULT_GRID_DEPTH,
            r.wf(),
    {
        GridParameters {
            width: DEFAULT_GRID_WIDTH,
            height: DEFAULT_GRID_HEIGHT,
            depth: DEFAULT_GRID_DEPTH,
        }
    }
}

/// Food configuration.
pub struct FoodParameters {
    /// Number of food items placed in the volume.
    pub food_count: usize,
    /// Whether consumed food reappears after a cooldown.
    pub respawn_enabled: bool,
    /// Cooldown before hidden food reappears, in fixed-point seconds.
    pub respawn_cooldown: i64,
    /// Score awarded for one food item.
    pub food_value: i64,
}

impl FoodParameters {
    /// Counts and values stay within the fixed-point limits; the value is
    /// non-negative so a colony's score never decreases within an epoch.
    pub open spec fn wf(self) -> bool {
        &&& self.food_count <= COUNT_LIMIT
        &&& 0 <= self.respawn_cooldown <= COORD_LIMIT
        &&& 0 <= self.food_value <= COORD_LIMIT
    }

    /// Rejects out-of-range food configuration.
    pub fn validate(&self) -> (r: Result<(), ConfigError>)
        ensures
            r is Ok <==> self.wf(),
            r is Err ==> r === Err(ConfigError::CountTooLarge),
    {
        if self.food_count > COUNT_LIMIT || self.respawn_cooldown < 0 || self.respawn_cooldown
            > COORD_LIMIT || self.food_value < 0 || self.food_value > COORD_LIMIT {
            Err(ConfigError::CountTooLarge)
        } else {
            Ok(())
        }
    }
}

impl Default for FoodParameters {
    /// Fifty respawning food items worth one point each.
    fn default() -> (r: FoodParameters)
        ensures
            r.food_count == DEFAULT_FOOD_COUNT,
            r.respawn_enabled,
            r.respawn_cooldown == DEFAULT_FOOD_RESPAWN_TIME,
            r.food_value == DEFAULT_FOOD_VALUE,
            r.wf(),
    {
        FoodParameters {
            food_count: DEFAULT_FOOD_COUNT,
            respawn_enabled: true,
            respawn_cooldown: DEFAULT_FOOD_RESPAWN_TIME,
            food_value: DEFAULT_FOOD_VALUE,
        }
    }
}

/// Counts, timers, force parameters and genetic ratios of one run.
pub struct SimulationParameters {
    /// Index of the current epoch, starting at 0.
    pub current_epoch: usize,
    /// Epochs after which the run is considered done.
    pub max_epochs: usize,
    /// Length of one epoch, in fixed-point seconds.
    pub epoch_duration: i64,
    /// Time elapsed in the current epoch, saturating at the duration.
    pub epoch_elapsed: i64,
    /// Number of colonies evolved side by side.
    pub simulation_count: usize,
    /// Particles per colony.
    pub particle_count: usize,
    /// Number of particle types.
    pub particle_types: usize,
    /// Current speed level.
    pub simulation_speed: SimulationSpeed,
    /// Interactions beyond this distance exert no force.
    pub max_force_range: i64,
    /// Half-life of a particle's velocity, in fixed-point seconds.
    pub velocity_half_life: i64,
    /// Share of genomes carried over unchanged, in (0, 1].
    pub elite_ratio: i64,
    /// Base probability that an entry mutates, in [0, 1].
    pub mutation_rate: i64,
    /// Probability that a new genome is bred from two parents, in [0, 1].
    pub crossover_rate: i64,
}

impl SimulationParameters {
    /// Every count, timer, range and ratio lies in its documented range.
    pub open spec fn wf(self) -> bool {
        &&& 1 <= self.particle_types <= COUNT_LIMIT
        &&& 1 <= self.simulation_count <= COUNT_LIMIT
        &&& 1 <= self.particle_count <= COUNT_LIMIT
        &&& 0 < self.epoch_duration <= COORD_LIMIT
        &&& 0 <= self.epoch_elapsed <= self.epoch_duration
        &&& 0 < self.max_force_range <= COORD_LIMIT
        &&& self.particle_types * PARTICLE_RADIUS < self.max_force_range
        &&& 0 < self.velocity_half_life <= COORD_LIMIT
        &&& 0 < self.elite_ratio <= 1000
        &&& 0 <= self.mutation_rate <= 1000
        &&& 0 <= self.crossover_rate <= 1000
    }

    /// Rejects any configuration outside the documented ranges, naming
    /// the first offence: a zero type count, an oversized count or timer,
    /// a force range not exceeding the repulsion radius, or a ratio out
    /// of range.
    pub fn validate(&self) -> (r: Result<(), ConfigError>)
        ensures
            r is Ok <==> self.wf(),
            r === Err(ConfigError::ZeroTypeCount) <==> self.particle_types == 0,
            r is Err && self.particle_types != 0 ==> (r === Err(ConfigError::CountTooLarge) || r
                === Err(ConfigError::ForceRangeTooSmall) || r === Err(
                ConfigError::RatioOutOfRange,
            )),
    {
        if self.particle_types == 0 {
            Err(ConfigError::ZeroTypeCount)
        } else if self.particle_types > COUNT_LIMIT || self.simulation_count < 1
            || self.simulation_count > COUNT_LIMIT || self.particle_count < 1
            || self.particle_count > COUNT_LIMIT || self.epoch_duration <= 0
            || self.epoch_duration > COORD_LIMIT || self.epoch_elapsed < 0 || self.epoch_elapsed
            > self.epoch_duration || self.max_force_range <= 0 || self.max_force_range > COORD_LIMIT
            || self.velocity_half_life <= 0 || self.velocity_half_life > COORD_LIMIT {
            Err(ConfigError::CountTooLarge)
        } else if self.particle_types as i64 * PARTICLE_RADIUS >= self.max_force_range {
            Err(ConfigError::ForceRangeTooSmall)
        } else if self.elite_ratio <= 0 || self.elite_ratio > 1000 || self.mutation_rate < 0
            || self.mutation_rate > 1000 || self.crossover_rate < 0 || self.crossover_rate > 1000 {
            Err(ConfigError::RatioOutOfRange)
        } else {
            Ok(())
        }
    }

    /// Advances the epoch timer by `delta`, scaled by the speed level and
    /// saturating at the epoch duration; a paused run does not advance.
    pub fn tick(&mut self, delta: i64)
        requires
            old(self).wf(),
            0 <= delta <= COORD_LIMIT,
        ensures
            *final(self) == (SimulationParameters {
                epoch_elapsed: final(self).epoch_elapsed,
                ..*old(self)
            }),
            final(self).epoch_elapsed == (if old(self).epoch_elapsed + delta * old(
                self,
            ).simulation_speed.multiplier_spec() <= old(self).epoch_duration {
                old(self).epoch_elapsed + delta * old(self).simulation_speed.multiplier_spec()
            } else {
                old(self).epoch_duration as int
            }),
            final(self).wf(),
    {
        let factor = self.simulation_speed.multiplier();
        let scaled = delta * (factor as i64);
        if scaled <= self.epoch_duration - self.epoch_elapsed {
            self.epoch_elapsed = self.epoch_elapsed + scaled;
        } else {
            self.epoch_elapsed = self.epoch_duration;
        }
    }

    /// Whether the current epoch's time is up.
    pub fn is_epoch_finished(&self) -> (r: bool)
        ensures
            r == (self.epoch_elapsed >= self.epoch_duration),
    {
        self.epoch_elapsed >= self.epoch_duration
    }

    /// Steps to the next epoch and restarts the timer.
    pub fn start_new_epoch(&mut self)
        requires
            old(self).current_epoch < usize::MAX,
        ensures
            *final(self) == (SimulationParameters {
                current_epoch: (old(self).current_epoch + 1) as usize,
                epoch_elapsed: 0,
                ..*old(self)
            }),
    {
        self.current_epoch = self.current_epoch + 1;
        self.epoch_elapsed = 0;
    }
}

impl Default for SimulationParameters {
    /// The documented default run: six colonies of a hundred particles in
    /// three types, 60-second epochs at normal speed.
    fn default() -> (r: SimulationParameters)
        ensures
            r.current_epoch == 0,
            r.max_epochs == 100,
            r.epoch_duration == DEFAULT_EPOCH_DURATION,
            r.epoch_elapsed == 0,
            r.simulation_count == DEFAULT_SIMULATION_COUNT,
            r.particle_count == DEFAULT_PARTICLE_COUNT,
            r.particle_types == DEFAULT_PARTICLE_TYPES,
            r.simulation_speed == SimulationSpeed::Normal,
            r.max_force_range == DEFAULT_MAX_FORCE_RANGE,
            r.velocity_half_life == DEFAULT_VELOCITY_HALF_LIFE,
            r.elite_ratio == DEFAULT_ELITE_RATIO,
            r.mutation_rate == DEFAULT_MUTATION_RATE,
            r.crossover_rate == DEFAULT_CROSSOVER_RATE,
            r.wf(),
    {
        SimulationParameters {
            current_epoch: 0,
            max_epochs: 100,
            epoch_duration: DEFAULT_EPOCH_DURATION,
            epoch_elapsed: 0,
            simulation_count: DEFAULT_SIMULATION_COUNT,
            particle_count: DEFAULT_PARTICLE_COUNT,
            particle_types: DEFAULT_PARTICLE_TYPES,
            simulation_speed: SimulationSpeed::Normal,
            max_force_range: DEFAULT_MAX_FORCE_RANGE,
            velocity_half_life: DEFAULT_VELOCITY_HALF_LIFE,
            elite_ratio: DEFAULT_ELITE_RATIO,
            mutation_rate: DEFAULT_MUTATION_RATE,
            crossover_rate: DEFAULT_CROSSOVER_RATE,
        }
    }
}

} // verus!
