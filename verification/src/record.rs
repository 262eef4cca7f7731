//! The persisted population record: genome, score and configuration of
//! one colony, sufficient to reconstruct a runnable colony later. The
//! record itself is plain data; durable storage and its encoding live
//! with the persistence collaborator, outside the core.

use vstd::prelude::*;
use crate::genome::Genome;
use crate::params::{
    BoundaryMode, FoodParameters, GridParameters, SimulationParameters, SimulationSpeed,
    DEFAULT_CROSSOVER_RATE, DEFAULT_ELITE_RATIO, DEFAULT_MUTATION_RATE,
};

verus! {

/// A genome as stored in a record.
pub struct GenomeRecord {
    /// Row-major interaction matrix.
    pub force_matrix: Vec<i64>,
    /// Food affinity per type.
    pub food_forces: Vec<i64>,
    /// Number of particle types.
    pub type_count: usize,
}

/// The simulation parameters worth persisting.
pub struct SimParamsRecord {
    /// Particles per colony.
    pub particle_count: usize,
    /// Number of particle types.
    pub particle_types: usize,
    /// Force range.
    pub max_force_range: i64,
    /// Velocity half-life.
    pub velocity_half_life: i64,
    /// Epoch length.
    pub epoch_duration: i64,
}

/// The grid extents as persisted.
pub struct GridRecord {
    /// Extent along x.
    pub width: i64,
    /// Extent along y.
    pub height: i64,
    /// Extent along z.
    pub depth: i64,
}

/// The food configuration as persisted.
pub struct FoodRecord {
    /// Number of food items.
    pub food_count: usize,
    /// Whether consumed food respawns.
    pub respawn_enabled: bool,
    /// Respawn cooldown.
    pub respawn_cooldown: i64,
    /// Value of one food item.
    pub food_value: i64,
}

/// One saved population: a name, a timestamp, the genome and score at
/// save time, and the configuration in effect.
pub struct PopulationRecord {
    /// User-chosen name.
    pub name: String,
    /// Creation time, formatted by the persistence layer's clock.
    pub timestamp: String,
    /// The colony's genome.
    pub genome: GenomeRecord,
    /// The colony's score at save time.
    pub score: i64,
    /// Simulation parameters in effect.
    pub simulation_params: SimParamsRecord,
    /// Grid extents in effect.
    pub grid_params: GridRecord,
    /// Food configuration in effect.
    pub food_params: FoodRecord,
    /// Boundary topology in effect.
    pub boundary_mode: BoundaryMode,
    /// Optional free-form description.
    pub description: Option<String>,
}

/// Relies on chrono's `Utc::now` and `format`: a human-readable wall
/// clock timestamp; nothing is assumed about its value.
#[verifier::external_body]
fn now_timestamp() -> String {
    chrono::Utc::now().format("%Y-%m-%d_%H-%M-%S").to_string()
}

impl PopulationRecord {
    /// Captures one colony's state and the active configuration into a
    /// record; every numeric field is copied bit for bit.
    pub fn from_current_state(
        name: String,
        description: Option<String>,
        genome: &Genome,
        score: i64,
        sim_params: &SimulationParameters,
        grid_params: &GridParameters,
        food_params: &FoodParameters,
        boundary_mode: BoundaryMode,
    ) -> (r: PopulationRecord)
        ensures
            r.name@ == name@,
            r.description == description,
            r.genome.force_matrix@ == genome.force_matrix@,
            r.genome.food_forces@ == genome.food_forces@,
            r.genome.type_count == genome.type_count,
            r.score == score,
            r.simulation_params.particle_count == sim_params.particle_count,
            r.simulation_params.particle_types == sim_params.particle_types,
            r.simulation_params.max_force_range == sim_params.max_force_range,
            r.simulation_params.velocity_half_life == sim_params.velocity_half_life,
            r.simulation_params.epoch_duration == sim_params.epoch_duration,
            r.grid_params.width == grid_params.width,
            r.grid_params.height == grid_params.height,
            r.grid_params.depth == grid_params.depth,
            r.food_params.food_count == food_params.food_count,
            r.food_params.respawn_enabled == food_params.respawn_enabled,
            r.food_params.respawn_cooldown == food_params.respawn_cooldown,
            r.food_params.food_value == food_params.food_value,
            r.boundary_mode == boundary_mode,
    {
        PopulationRecord {
            name,
            timestamp: now_timestamp(),
            genome: GenomeRecord {
                force_matrix: crate::genome::copy_vec(&genome.force_matrix),
                food_forces: crate::genome::copy_vec(&genome.food_forces),
                type_count: genome.type_count,
            },
            score,
            simulation_params: SimParamsRecord {
                particle_count: sim_params.particle_count,
                particle_types: sim_params.particle_types,
                max_force_range: sim_params.max_force_range,
                velocity_half_life: sim_params.velocity_half_life,
                epoch_duration: sim_params.epoch_duration,
            },
            grid_params: GridRecord {
                width: grid_params.width,
                height: grid_params.height,
                depth: grid_params.depth,
            },
            food_params: FoodRecord {
                food_count: food_params.food_count,
                respawn_enabled: food_params.respawn_enabled,
                respawn_cooldown: food_params.respawn_cooldown,
                food_value: food_params.food_value,
            },
            boundary_mode,
            description,
        }
    }

    /// Reconstructs a runnable single-colony state from the record: the
    /// genome bit for bit; the persisted parameters as saved; the
    /// non-persisted parameters (epoch counters, colony count, speed,
    /// genetic ratios) at their fresh-run defaults.
    pub fn to_simulation_state(&self) -> (r: (
        Genome,
        SimulationParameters,
        GridParameters,
        FoodParameters,
        BoundaryMode,
    ))
        ensures
            r.0.force_matrix@ == self.genome.force_matrix@,
            r.0.food_forces@ == self.genome.food_forces@,
            r.0.type_count == self.genome.type_count,
            r.1.current_epoch == 0,
            r.1.max_epochs == 100,
            r.1.epoch_duration == self.simulation_params.epoch_duration,
            r.1.epoch_elapsed == 0,
            r.1.simulation_count == 1,
            r.1.particle_count == self.simulation_params.particle_count,
            r.1.particle_types == self.simulation_params.particle_types,
            r.1.simulation_speed == SimulationSpeed::Normal,
            r.1.max_force_range == self.simulation_params.max_force_range,
            r.1.velocity_half_life == self.simulation_params.velocity_half_life,
            r.1.elite_ratio == DEFAULT_ELITE_RATIO,
            r.1.mutation_rate == DEFAULT_MUTATION_RATE,
            r.1.crossover_rate == DEFAULT_CROSSOVER_RATE,
            r.2.width == self.grid_params.width,
            r.2.height == self.grid_params.height,
            r.2.depth == self.grid_params.depth,
            r.3.food_count == self.food_params.food_count,
            r.3.respawn_enabled == self.food_params.respawn_enabled,
            r.3.respawn_cooldown == self.food_params.respawn_cooldown,
            r.3.food_value == self.food_params.food_value,
            r.4 == self.boundary_mode,
    {
        let genome = Genome {
            force_matrix: crate::genome::copy_vec(&self.genome.force_matrix),
            food_forces: crate::genome::copy_vec(&self.genome.food_forces),
            type_count: self.genome.type_count,
        };
        let sim_params = SimulationParameters {
            current_epoch: 0,
            max_epochs: 100,
            epoch_duration: self.simulation_params.epoch_duration,
            epoch_elapsed: 0,
            simulation_count: 1,
            particle_count: self.simulation_params.particle_count,
            particle_types: self.simulation_params.particle_types,
            simulation_speed: SimulationSpeed::Normal,
            max_force_range: self.simulation_params.max_force_range,
            velocity_half_life: self.simulation_params.velocity_half_life,
            elite_ratio: DEFAULT_ELITE_RATIO,
            mutation_rate: DEFAULT_MUTATION_RATE,
            crossover_rate: DEFAULT_CROSSOVER_RATE,
        };
        let grid_params = GridParameters {
            width: self.grid_params.width,
            height: self.grid_params.height,
            depth: self.grid_params.depth,
        };
        let food_params = FoodParameters {
            food_count: self.food_params.food_count,
            respawn_enabled: self.food_params.respawn_enabled,
            respawn_cooldown: self.food_params.respawn_cooldown,
            food_value: self.food_params.food_value,
        };
        (genome, sim_params, grid_params, food_params, self.boundary_mode)
    }
}

/// The round trip through a record is lossless: saving a colony's state
/// and reconstructing it reproduces bit-identical genome entries and
/// equal persisted parameters, whatever the inputs.
pub fn save_and_restore(
    name: String,
    description: Option<String>,
    genome: &Genome,
    score: i64,
    sim_params: &SimulationParameters,
    grid_params: &GridParameters,
    food_params: &FoodParameters,
    boundary_mode: BoundaryMode,
) -> (r: (Genome, SimulationParameters, GridParameters, FoodParameters, BoundaryMode))
    ensures
        r.0.force_matrix@ == genome.force_matrix@,
        r.0.food_forces@ == genome.food_forces@,
        r.0.type_count == genome.type_count,
        r.1.epoch_duration == sim_params.epoch_duration,
        r.1.particle_count == sim_params.particle_count,
        r.1.particle_types == sim_params.particle_types,
        r.1.max_force_range == sim_params.max_force_range,
        r.1.velocity_half_life == sim_params.velocity_half_life,
        r.2.width == grid_params.width,
        r.2.height == grid_params.height,
        r.2.depth == grid_params.depth,
        r.3.food_count == food_params.food_count,
        r.3.respawn_enabled == food_params.respawn_enabled,
        r.3.respawn_cooldown == food_params.respawn_cooldown,
        r.3.food_value == food_params.food_value,
        r.4 == boundary_mode,
{
    let record = PopulationRecord::from_current_state(
        name,
        description,
        genome,
        score,
        sim_params,
        grid_params,
        food_params,
        boundary_mode,
    );
    record.to_simulation_state()
}

} // verus!
