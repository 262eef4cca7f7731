//! The simulation driver: owns the colonies (genome and score arrays
//! indexed by colony id), the particles, the shared food, and the
//! configuration; spawns the initial population, advances ticks, and
//! performs the genetic transition at each epoch boundary.

use vstd::prelude::*;
use crate::entities::{Food, FoodState, Particle};
use crate::errors::{ConfigError, LookupError};
use crate::fixed::abs_spec;
use crate::foraging::detect_food_collision;
use crate::genetic::{next_generation, same_genome, ScoredGenome};
use crate::genome::Genome;
use crate::params::{
    BoundaryMode, FoodParameters, GridParameters, SimulationParameters, COORD_LIMIT, COUNT_LIMIT,
    MAX_VELOCITY, PARTICLE_RADIUS, PHYSICS_TIMESTEP,
};
use crate::physics::{apply_physics_step, calculate_forces, decay_factor, within_grid};
use crate::record::PopulationRecord;
use crate::rng::rand_in_range;
use crate::vec3::{in_box, Vec3Fx};

verus! {

/// Whether the world's entities have been created yet; explicit state in
/// place of any ambient spawned-once flag.
#[derive(Clone, Copy, Debug, PartialEq, Eq, Structural)]
pub enum PopulationState {
    /// No colonies, particles or food exist yet.
    Uninitialized,
    /// The world is fully populated.
    Populated,
}

/// The run/pause state machine of an interactive session.
#[derive(Clone, Copy, Debug, PartialEq, Eq, Structural)]
pub enum RunState {
    /// Entities are being created.
    Starting,
    /// The simulation advances.
    Running,
    /// The simulation is held.
    Paused,
    /// An epoch boundary is being processed.
    GeneticSelection,
}

/// The pause-toggle decision: running and paused swap, any other state is
/// unaffected.
pub fn toggle_pause(state: RunState) -> (r: RunState)
    ensures
        state is Running ==> r is Paused,
        state is Paused ==> r is Running,
        !(state is Running) && !(state is Paused) ==> r == state,
{
    match state {
        RunState::Running => RunState::Paused,
        RunState::Paused => RunState::Running,
        other => other,
    }
}

/// The whole simulation state: configuration, one genome and one score
/// per colony (colony id = index), the particles, and the shared food.
pub struct World {
    /// Counts, timers and genetic ratios.
    pub params: SimulationParameters,
    /// Extents of the volume.
    pub grid: GridParameters,
    /// Food configuration.
    pub food_params: FoodParameters,
    /// The active topology.
    pub boundary_mode: BoundaryMode,
    /// One genome per colony.
    pub genomes: Vec<Genome>,
    /// One score per colony, reset at epoch start.
    pub scores: Vec<i64>,
    /// Every particle of every colony.
    pub particles: Vec<Particle>,
    /// The shared food items.
    pub foods: Vec<Food>,
    /// Whether the world has been populated.
    pub population: PopulationState,
    /// Best score of the previous epoch, for the improvement statistic.
    pub previous_best: i64,
}

impl World {
    /// The world invariant: valid configuration, well-formed genomes of
    /// the configured type count, bounded scores, particles inside the
    /// grid and under the speed cap, well-formed food; once populated,
    /// exactly one genome and score per configured colony.
    pub open spec fn wf(self) -> bool {
        &&& self.params.wf()
        &&& self.grid.wf()
        &&& self.food_params.wf()
        &&& 0 <= self.previous_best <= COORD_LIMIT
        &&& self.genomes@.len() == self.scores@.len()
        &&& self.genomes@.len() <= COUNT_LIMIT
        &&& forall|i: int| 0 <= i < self.genomes@.len() ==> (#[trigger] self.genomes@[i]).wf()
        &&& forall|i: int|
            0 <= i < self.genomes@.len() ==> (#[trigger] self.genomes@[i]).type_count
                == self.params.particle_types
        &&& forall|i: int| 0 <= i < self.scores@.len() ==> 0 <= #[trigger] self.scores@[i] <= COORD_LIMIT
        &&& forall|i: int|
            0 <= i < self.particles@.len() ==> within_grid(
                (#[trigger] self.particles@[i]).position,
                self.grid,
            )
        &&& forall|i: int|
            0 <= i < self.particles@.len() ==> in_box(
                (#[trigger] self.particles@[i]).velocity,
                MAX_VELOCITY as int,
            )
        &&& self.foods@.len() <= COUNT_LIMIT
        &&& forall|i: int| 0 <= i < self.foods@.len() ==> (#[trigger] self.foods@[i]).wf()
        &&& self.population is Populated ==> self.genomes@.len() == self.params.simulation_count
    }

    /// Builds an unpopulated world after rejecting any invalid
    /// configuration; validation order is parameters, grid, food.
    pub fn new(
        params: SimulationParameters,
        grid: GridParameters,
        food_params: FoodParameters,
        boundary_mode: BoundaryMode,
    ) -> (r: Result<World, ConfigError>)
        ensures
            r is Ok <==> (params.wf() && grid.wf() && food_params.wf()),
            r matches Ok(w) ==> {
                &&& w.wf()
                &&& w.population is Uninitialized
                &&& w.params == params
                &&& w.grid == grid
                &&& w.food_params == food_params
                &&& w.boundary_mode == boundary_mode
                &&& w.genomes@.len() == 0
                &&& w.particles@.len() == 0
                &&& w.foods@.len() == 0
            },
    {
        if let Err(e) = params.validate() {
            return Err(e);
        }
        if let Err(e) = grid.validate() {
            return Err(e);
        }
        if let Err(e) = food_params.validate() {
            return Err(e);
        }
        Ok(
            World {
                params,
                grid,
                food_params,
                boundary_mode,
                genomes: Vec::new(),
                scores: Vec::new(),
                particles: Vec::new(),
                foods: Vec::new(),
                population: PopulationState::Uninitialized,
                previous_best: 0,
            },
        )
    }

    /// Populates the world for the first time: one random genome and a
    /// zero score per colony, a type-balanced particle cloud whose
    /// positions are shared by all colonies, and freshly placed food.
    pub fn spawn_population(&mut self)
        requires
            old(self).wf(),
            old(self).population is Uninitialized,
        ensures
            final(self).wf(),
            final(self).population is Populated,
            final(self).params == old(self).params,
            final(self).grid == old(self).grid,
            final(self).food_params == old(self).food_params,
            final(self).boundary_mode == old(self).boundary_mode,
            final(self).genomes@.len() == old(self).params.simulation_count,
            forall|c: int|
                0 <= c < final(self).genomes@.len() ==> crate::genome::fresh_random(
                    #[trigger] final(self).genomes@[c],
                ),
            forall|c: int| 0 <= c < final(self).scores@.len() ==> #[trigger] final(self).scores@[c] == 0,
            final(self).foods@.len() == old(self).food_params.food_count,
            forall|k: int|
                0 <= k < final(self).foods@.len() ==> (#[trigger] final(self).foods@[k]).state
                    is Active,
            forall|k: int|
                0 <= k < final(self).foods@.len() ==> (#[trigger] final(self).foods@[k]).value
                    == old(self).food_params.food_value,
            forall|k: int|
                0 <= k < final(self).foods@.len() ==> (#[trigger] final(self).foods@[k]).respawn
                    == (if old(self).food_params.respawn_enabled {
                    Some(old(self).food_params.respawn_cooldown)
                } else {
                    None::<i64>
                }),
            forall|k: int|
                0 <= k < final(self).foods@.len() ==> within_grid(
                    (#[trigger] final(self).foods@[k]).position,
                    old(self).grid,
                ),
            final(self).particles@.len() == old(self).params.simulation_count * colony_size_spec(
                old(self).params,
            ),
            forall|k: int|
                0 <= k < final(self).particles@.len() ==> (#[trigger] final(self).particles@[
                k]).velocity == (Vec3Fx { x: 0, y: 0, z: 0 }),
            forall|k: int|
                0 <= k < final(self).particles@.len() ==> within_grid(
                    (#[trigger] final(self).particles@[k]).position,
                    old(self).grid,
                ),
            forall|k: int|
                0 <= k < final(self).particles@.len() ==> ((#[trigger] final(self).particles@[
                k]).colony) as int == k / colony_size_spec(old(self).params),
            forall|k: int|
                0 <= k < final(self).particles@.len() ==> ((#[trigger] final(self).particles@[
                k]).ptype) as int == (k % colony_size_spec(old(self).params)) / per_type_spec(
                    old(self).params,
                ),
            forall|k: int|
                0 <= k < final(self).particles@.len() ==> (#[trigger] final(self).particles@[
                k]).position == final(self).particles@[k % colony_size_spec(old(self).params)].position,
    {
        let type_count = self.params.particle_types;
        let sim_count = self.params.simulation_count;
        proof {
            assert((type_count as int) * (type_count as int) <= 10_000 * 10_000)
                by (nonlinear_arith)
                requires
                    1 <= type_count as int <= 10_000,
            {}
        }
        let particles = build_population_particles(&self.params, &self.grid);
        let mut genomes: Vec<Genome> = Vec::new();
        let mut scores: Vec<i64> = Vec::new();
        let mut c: usize = 0;
        while c < sim_count
            invariant
                c <= sim_count,
                1 <= type_count <= COUNT_LIMIT,
                type_count * type_count <= usize::MAX,
                genomes@.len() == c,
                scores@.len() == c,
                forall|i: int| 0 <= i < c as int ==> (#[trigger] genomes@[i]).wf(),
                forall|i: int|
                    0 <= i < c as int ==> (#[trigger] genomes@[i]).type_count == type_count,
                forall|i: int|
                    0 <= i < c as int ==> crate::genome::fresh_random(#[trigger] genomes@[i]),
                forall|i: int| 0 <= i < c as int ==> #[trigger] scores@[i] == 0,
            decreases sim_count - c,
        {
            genomes.push(Genome::random(type_count));
            scores.push(0);
            c = c + 1;
        }
        let foods = build_foods(&self.food_params, &self.grid);
        self.genomes = genomes;
        self.scores = scores;
        self.particles = particles;
        self.foods = foods;
        self.population = PopulationState::Populated;
    }

    /// The genetic transition at an epoch boundary: snapshots every
    /// colony's genome and score, breeds the next generation (elites
    /// first), installs it, resets every score to zero, repositions the
    /// particles with the same type-balanced routine as the first spawn,
    /// and replaces the food. The snapshot's best-scoring genome is
    /// carried over unmodified as the new first colony's genome.
    pub fn reset_for_new_epoch(&mut self)
        requires
            old(self).wf(),
            old(self).population is Populated,
        ensures
            final(self).wf(),
            final(self).population is Populated,
            final(self).params == old(self).params,
            final(self).grid == old(self).grid,
            final(self).food_params == old(self).food_params,
            final(self).boundary_mode == old(self).boundary_mode,
            final(self).genomes@.len() == old(self).genomes@.len(),
            forall|c: int| 0 <= c < final(self).scores@.len() ==> #[trigger] final(self).scores@[c] == 0,
            exists|i: int|
                0 <= i < old(self).scores@.len() && (forall|j: int|
                    0 <= j < old(self).scores@.len() ==> #[trigger] old(self).scores@[j] <= old(
                        self,
                    ).scores@[i]) && same_genome(
                    final(self).genomes@[0],
                    #[trigger] old(self).genomes@[i],
                ),
            exists|i: int|
                0 <= i < old(self).scores@.len() && #[trigger] old(self).scores@[i]
                    == final(self).previous_best,
            forall|j: int|
                0 <= j < old(self).scores@.len() ==> #[trigger] old(self).scores@[j]
                    <= final(self).previous_best,
            forall|k: int|
                0 <= k < crate::genetic::elite_count_spec(
                    old(self).params.simulation_count as int,
                    old(self).params.elite_ratio as int,
                ) ==> exists|i: int|
                    0 <= i < old(self).genomes@.len() && same_genome(
                        #[trigger] final(self).genomes@[k],
                        #[trigger] old(self).genomes@[i],
                    ),
            forall|k: int|
                #![trigger final(self).genomes@[k]]
                crate::genetic::elite_count_spec(
                    old(self).params.simulation_count as int,
                    old(self).params.elite_ratio as int,
                ) <= k < final(self).genomes@.len() ==> exists|i: int, j: int|
                    #![trigger old(self).genomes@[i], old(self).genomes@[j]]
                    0 <= i < old(self).genomes@.len() && 0 <= j < old(self).genomes@.len()
                        && crate::genetic::bred_from(
                        final(self).genomes@[k],
                        old(self).genomes@[i],
                        old(self).genomes@[j],
                    ),
            final(self).particles@.len() == old(self).params.simulation_count * colony_size_spec(
                old(self).params,
            ),
            forall|k: int|
                0 <= k < final(self).particles@.len() ==> (#[trigger] final(self).particles@[
                k]).velocity == (Vec3Fx { x: 0, y: 0, z: 0 }),
            forall|k: int|
                0 <= k < final(self).particles@.len() ==> within_grid(
                    (#[trigger] final(self).particles@[k]).position,
                    old(self).grid,
                ),
            forall|k: int|
                0 <= k < final(self).particles@.len() ==> ((#[trigger] final(self).particles@[
                k]).colony) as int == k / colony_size_spec(old(self).params),
            forall|k: int|
                0 <= k < final(self).particles@.len() ==> ((#[trigger] final(self).particles@[
                k]).ptype) as int == (k % colony_size_spec(old(self).params)) / per_type_spec(
                    old(self).params,
                ),
            final(self).foods@.len() == old(self).food_params.food_count,
            forall|k: int|
                0 <= k < final(self).foods@.len() ==> (#[trigger] final(self).foods@[k]).state
                    is Active,
            forall|k: int|
                0 <= k < final(self).foods@.len() ==> (#[trigger] final(self).foods@[k]).value
                    == old(self).food_params.food_value,
            forall|k: int|
                0 <= k < final(self).foods@.len() ==> (#[trigger] final(self).foods@[k]).respawn
                    == (if old(self).food_params.respawn_enabled {
                    Some(old(self).food_params.respawn_cooldown)
                } else {
                    None::<i64>
                }),
    {
        let n = self.genomes.len();
        let mut snapshot: Vec<ScoredGenome> = Vec::new();
        let mut c: usize = 0;
        while c < n
            invariant
                c <= n,
                n == self.genomes@.len(),
                n == self.scores@.len(),
                snapshot@.len() == c,
                forall|i: int| 0 <= i < self.genomes@.len() ==> (#[trigger] self.genomes@[i]).wf(),
                forall|i: int|
                    0 <= i < self.genomes@.len() ==> (#[trigger] self.genomes@[i]).type_count
                        == self.params.particle_types,
                forall|i: int|
                    0 <= i < self.scores@.len() ==> 0 <= #[trigger] self.scores@[i] <= COORD_LIMIT,
                forall|i: int|
                    0 <= i < c as int ==> same_genome(
                        (#[trigger] snapshot@[i]).genome,
                        self.genomes@[i],
                    ) && snapshot@[i].score == self.scores@[i],
                forall|i: int| 0 <= i < c as int ==> (#[trigger] snapshot@[i]).genome.wf(),
                forall|i: int|
                    0 <= i < c as int ==> (#[trigger] snapshot@[i]).genome.type_count
                        == self.params.particle_types,
                forall|i: int|
                    0 <= i < c as int ==> abs_spec(#[trigger] snapshot@[i].score as int)
                        <= COORD_LIMIT,
            decreases n - c,
        {
            snapshot.push(
                ScoredGenome { genome: self.genomes[c].duplicate(), score: self.scores[c] },
            );
            c = c + 1;
        }
        proof {
            assert(self.genomes@ == old(self).genomes@);
            assert(self.scores@ == old(self).scores@);
        }
        let bred = next_generation(&snapshot, &self.params, self.previous_best);
        let new_genomes = bred.0;
        let stats = bred.1;
        proof {
            let w = choose|i: int|
                0 <= i < snapshot@.len() && #[trigger] snapshot@[i].score == stats.best_score;
            assert(snapshot@[w].score == old(self).scores@[w]);
            assert(0 <= stats.best_score <= COORD_LIMIT);
        }
        self.previous_best = stats.best_score;
        self.genomes = new_genomes;
        proof {
            assert(exists|i: int|
                0 <= i < snapshot@.len() && (forall|j: int|
                    0 <= j < snapshot@.len() ==> (#[trigger] snapshot@[j].score)
                        <= snapshot@[i].score) && same_genome(
                    self.genomes@[0],
                    #[trigger] snapshot@[i].genome,
                ));
            let gi = choose|i: int|
                0 <= i < snapshot@.len() && (forall|j: int|
                    0 <= j < snapshot@.len() ==> (#[trigger] snapshot@[j].score)
                        <= snapshot@[i].score) && same_genome(
                    self.genomes@[0],
                    #[trigger] snapshot@[i].genome,
                );
            assert forall|j: int|
                0 <= j < old(self).scores@.len() implies #[trigger] old(self).scores@[j] <= old(
                self,
            ).scores@[gi] by {
                let gj = snapshot@[j].genome;
                let gg = snapshot@[gi].genome;
                assert(snapshot@[j].score <= snapshot@[gi].score);
                assert(snapshot@[j].score == self.scores@[j]);
                assert(snapshot@[gi].score == self.scores@[gi]);
            }
            assert(same_genome(self.genomes@[0], old(self).genomes@[gi])) by {
                let gg = snapshot@[gi].genome;
                assert(same_genome(snapshot@[gi].genome, old(self).genomes@[gi]));
            }
            assert forall|j: int|
                0 <= j < old(self).scores@.len() implies #[trigger] old(self).scores@[j]
                <= self.previous_best by {
                let gj = snapshot@[j].genome;
                assert(snapshot@[j].score == self.scores@[j]);
                assert(snapshot@[j].score <= stats.best_score);
            }
            let ec = crate::genetic::elite_count_spec(
                self.params.simulation_count as int,
                self.params.elite_ratio as int,
            );
            assert forall|k: int| 0 <= k < ec implies exists|i: int|
                0 <= i < old(self).genomes@.len() && same_genome(
                    #[trigger] self.genomes@[k],
                    #[trigger] old(self).genomes@[i],
                ) by {
                let i0 = choose|i: int|
                    0 <= i < snapshot@.len() && same_genome(
                        self.genomes@[k],
                        #[trigger] snapshot@[i].genome,
                    );
                assert(same_genome(snapshot@[i0].genome, old(self).genomes@[i0]));
                assert(same_genome(self.genomes@[k], old(self).genomes@[i0]));
            }
            assert forall|k: int|
                #![trigger self.genomes@[k]]
                ec <= k < self.genomes@.len() implies exists|i: int, j: int|
                #![trigger old(self).genomes@[i], old(self).genomes@[j]]
                0 <= i < old(self).genomes@.len() && 0 <= j < old(self).genomes@.len()
                    && crate::genetic::bred_from(
                    self.genomes@[k],
                    old(self).genomes@[i],
                    old(self).genomes@[j],
                ) by {
                let pair = choose|i: int, j: int|
                    #![trigger snapshot@[i].genome, snapshot@[j].genome]
                    0 <= i < snapshot@.len() && 0 <= j < snapshot@.len()
                        && crate::genetic::bred_from(
                        self.genomes@[k],
                        snapshot@[i].genome,
                        snapshot@[j].genome,
                    );
                let i0 = pair.0;
                let j0 = pair.1;
                assert(same_genome(snapshot@[i0].genome, old(self).genomes@[i0]));
                assert(same_genome(snapshot@[j0].genome, old(self).genomes@[j0]));
                assert(crate::genetic::bred_from(
                    self.genomes@[k],
                    old(self).genomes@[i0],
                    old(self).genomes@[j0],
                ));
            }
        }
        let mut scores: Vec<i64> = Vec::new();
        let mut z: usize = 0;
        while z < n
            invariant
                z <= n,
                scores@.len() == z,
                forall|i: int| 0 <= i < z as int ==> #[trigger] scores@[i] == 0,
            decreases n - z,
        {
            scores.push(0);
            z = z + 1;
        }
        self.scores = scores;
        self.particles = build_population_particles(&self.params, &self.grid);
        self.foods = build_foods(&self.food_params, &self.grid);
    }

    /// One external update: runs as many fixed physics timesteps as the
    /// speed level dictates (none when paused, so a paused world's
    /// particles are untouched), then one foraging pass, advances the
    /// epoch timer, and performs the genetic transition when the epoch
    /// ends. Within an epoch the particles follow `update_trajectory`,
    /// foods and scores follow the foraging contracts over it, and no
    /// colony's score ever decreases; at an epoch boundary the genomes
    /// are rebred with the foraged scores' best genome carried over
    /// unmodified, and particles and food are freshly placed.
    pub fn update(&mut self, delta: i64)
        requires
            old(self).wf(),
            old(self).population is Populated,
            0 <= delta <= COORD_LIMIT,
            old(self).params.current_epoch < usize::MAX,
        ensures
            final(self).wf(),
            final(self).population is Populated,
            final(self).scores@.len() == old(self).scores@.len(),
            old(self).params.epoch_elapsed + delta * old(
                self,
            ).params.simulation_speed.multiplier_spec() < old(self).params.epoch_duration ==> {
                &&& final(self).params.current_epoch == old(self).params.current_epoch
                &&& final(self).params.epoch_elapsed == old(self).params.epoch_elapsed + delta
                    * old(self).params.simulation_speed.multiplier_spec()
                &&& final(self).particles@ == update_trajectory(*old(self))
                &&& final(self).genomes@ == old(self).genomes@
                &&& final(self).previous_best == old(self).previous_best
                &&& final(self).foods@.len() == old(self).foods@.len()
                &&& forall|k: int|
                    0 <= k < final(self).foods@.len() ==> #[trigger] final(self).foods@[k]
                        == crate::foraging::food_step(
                        old(self).foods@[k],
                        update_trajectory(*old(self)),
                        delta as int,
                    )
                &&& final(self).scores@ == update_awards(*old(self))
                &&& forall|c: int|
                    0 <= c < final(self).scores@.len() ==> #[trigger] final(self).scores@[c]
                        >= old(self).scores@[c]
            },
            old(self).params.epoch_elapsed + delta * old(
                self,
            ).params.simulation_speed.multiplier_spec() >= old(self).params.epoch_duration ==> {
                &&& final(self).params.current_epoch == old(self).params.current_epoch + 1
                &&& final(self).params.epoch_elapsed == 0
                &&& forall|c: int|
                    0 <= c < final(self).scores@.len() ==> #[trigger] final(self).scores@[c] == 0
                &&& final(self).genomes@.len() == old(self).genomes@.len()
                &&& final(self).foods@.len() == old(self).food_params.food_count
                &&& forall|k: int|
                    0 <= k < final(self).foods@.len() ==> (#[trigger] final(self).foods@[k]).state
                        is Active
                &&& final(self).particles@.len() == old(self).params.simulation_count
                    * colony_size_spec(old(self).params)
                &&& forall|k: int|
                    0 <= k < final(self).particles@.len() ==> (#[trigger] final(self).particles@[
                    k]).velocity == (Vec3Fx { x: 0, y: 0, z: 0 })
                &&& exists|i: int|
                    0 <= i < old(self).genomes@.len() && (forall|j: int|
                        0 <= j < update_awards(*old(self)).len() ==> #[trigger] update_awards(
                            *old(self),
                        )[j] <= update_awards(*old(self))[i]) && same_genome(
                        final(self).genomes@[0],
                        #[trigger] old(self).genomes@[i],
                    )
            },
    {
        let iterations = self.params.simulation_speed.multiplier();
        let decay = decay_factor(PHYSICS_TIMESTEP, self.params.velocity_half_life);
        proof {
            assert(0 < (self.params.particle_types as int) * (PARTICLE_RADIUS as int)
                <= 10_000 * 4000) by (nonlinear_arith)
                requires
                    1 <= self.params.particle_types as int <= 10_000,
            {}
        }
        let min_r = (self.params.particle_types as i64) * PARTICLE_RADIUS;
        let range = self.params.max_force_range;
        let mut it: u32 = 0;
        while it < iterations
            invariant
                self.wf(),
                self.population is Populated,
                self.params == old(self).params,
                self.grid == old(self).grid,
                self.food_params == old(self).food_params,
                self.boundary_mode == old(self).boundary_mode,
                self.scores@ == old(self).scores@,
                self.foods@ == old(self).foods@,
                self.genomes@ == old(self).genomes@,
                self.previous_best == old(self).previous_best,
                0 <= decay <= 1000,
                decay as int == crate::physics::decay_spec(
                    PHYSICS_TIMESTEP as int,
                    self.params.velocity_half_life as int,
                ),
                min_r as int == (self.params.particle_types as int) * (PARTICLE_RADIUS as int),
                0 < min_r,
                range == self.params.max_force_range,
                it <= iterations,
                iterations == old(self).params.simulation_speed.multiplier_spec(),
                self.particles@ == crate::physics::iterate_physics(
                    old(self).particles@,
                    it as nat,
                    old(self).genomes@,
                    active_positions(old(self).foods@),
                    old(self).grid,
                    old(self).boundary_mode,
                    min_r as int,
                    range as int,
                    decay as int,
                ),
            decreases iterations - it,
        {
            let ghost prev = self.particles@;
            let food_positions = active_food_positions(&self.foods);
            let forces = calculate_forces(
                &self.particles,
                &self.genomes,
                &food_positions,
                &self.grid,
                self.boundary_mode,
                min_r,
                range,
            );
            apply_physics_step(&mut self.particles, &forces, decay, &self.grid, self.boundary_mode);
            proof {
                assert forall|p: int| 0 <= p < self.particles@.len() implies #[trigger] self.particles@[p]
                    == crate::physics::physics_iteration(
                    prev,
                    old(self).genomes@,
                    active_positions(old(self).foods@),
                    old(self).grid,
                    old(self).boundary_mode,
                    min_r as int,
                    range as int,
                    decay as int,
                )[p] by {
                    let f = crate::physics::net_force_spec(
                        prev,
                        p,
                        old(self).genomes@,
                        active_positions(old(self).foods@),
                        old(self).grid,
                        old(self).boundary_mode,
                        min_r as int,
                        range as int,
                    );
                    assert(forces@[p] == (Vec3Fx { x: f.0 as i64, y: f.1 as i64, z: f.2 as i64 }));
                    assert(crate::physics::force_of(forces@, p) == forces@[p]);
                }
                assert(self.particles@ =~= crate::physics::iterate_physics(
                    old(self).particles@,
                    (it + 1) as nat,
                    old(self).genomes@,
                    active_positions(old(self).foods@),
                    old(self).grid,
                    old(self).boundary_mode,
                    min_r as int,
                    range as int,
                    decay as int,
                ));
            }
            it = it + 1;
        }
        proof {
            assert(forall|i: int|
                0 <= i < self.particles@.len() ==> (#[trigger] self.particles@[i]).wf());
            assert(self.particles@ == update_trajectory(*old(self)));
        }
        detect_food_collision(&self.particles, &mut self.foods, &mut self.scores, delta);
        proof {
            assert(self.scores@ == update_awards(*old(self)));
        }
        self.params.tick(delta);
        if self.params.is_epoch_finished() {
            self.params.start_new_epoch();
            let ghost awarded = self.scores@;
            let ghost pre_genomes = self.genomes@;
            self.reset_for_new_epoch();
            proof {
                assert(awarded == update_awards(*old(self)));
                assert(awarded.len() == old(self).scores@.len());
                assert(pre_genomes == old(self).genomes@);
                assert(exists|i: int|
                    0 <= i < awarded.len() && (forall|j: int|
                        0 <= j < awarded.len() ==> #[trigger] awarded[j] <= awarded[i])
                        && same_genome(self.genomes@[0], #[trigger] pre_genomes[i]));
                let gi = choose|i: int|
                    0 <= i < awarded.len() && (forall|j: int|
                        0 <= j < awarded.len() ==> #[trigger] awarded[j] <= awarded[i])
                        && same_genome(self.genomes@[0], #[trigger] pre_genomes[i]);
                assert(0 <= gi < old(self).genomes@.len());
                assert(same_genome(self.genomes@[0], old(self).genomes@[gi]));
                assert forall|j: int|
                    0 <= j < update_awards(*old(self)).len() implies #[trigger] update_awards(
                    *old(self),
                )[j] <= update_awards(*old(self))[gi] by {
                    assert(awarded[j] <= awarded[gi]);
                }
                assert(exists|i: int|
                    0 <= i < old(self).genomes@.len() && (forall|j: int|
                        0 <= j < update_awards(*old(self)).len() ==> #[trigger] update_awards(
                            *old(self),
                        )[j] <= update_awards(*old(self))[i]) && same_genome(
                        self.genomes@[0],
                        #[trigger] old(self).genomes@[i],
                    ));
            }
        }
    }

    /// A save request for one colony: reported as `ColonyNotFound` when
    /// no colony carries the id, with no state touched; otherwise the
    /// colony's genome, score and the active configuration become a
    /// record.
    pub fn record_for_colony(
        &self,
        simulation_id: usize,
        name: String,
        description: Option<String>,
    ) -> (r: Result<PopulationRecord, LookupError>)
        requires
            self.wf(),
        ensures
            r is Ok <==> simulation_id < self.genomes@.len(),
            r is Err ==> r === Err(LookupError::ColonyNotFound),
            r matches Ok(rec) ==> {
                &&& rec.genome.force_matrix@ == self.genomes@[simulation_id as int].force_matrix@
                &&& rec.genome.food_forces@ == self.genomes@[simulation_id as int].food_forces@
                &&& rec.genome.type_count == self.genomes@[simulation_id as int].type_count
                &&& rec.score == self.scores@[simulation_id as int]
                &&& rec.grid_params.width == self.grid.width
                &&& rec.boundary_mode == self.boundary_mode
            },
    {
        if simulation_id < self.genomes.len() {
            Ok(
                PopulationRecord::from_current_state(
                    name,
                    description,
                    &self.genomes[simulation_id],
                    self.scores[simulation_id],
                    &self.params,
                    &self.grid,
                    &self.food_params,
                    self.boundary_mode,
                ),
            )
        } else {
            Err(LookupError::ColonyNotFound)
        }
    }
}

/// Placement entries per type: `ceil(particle_count / type_count)`.
pub open spec fn per_type_spec(params: SimulationParameters) -> int {
    (params.particle_count + params.particle_types - 1) / (params.particle_types as int)
}

/// Particles per colony: `per_type_spec` entries of each of the
/// `particle_types` types, so every type is equally represented.
pub open spec fn colony_size_spec(params: SimulationParameters) -> int {
    (params.particle_types as int) * per_type_spec(params)
}

/// The particle trajectory one update computes before foraging: as many
/// synchronized physics timesteps as the speed level schedules (none
/// when paused), from the update-start state.
pub open spec fn update_trajectory(w: World) -> Seq<Particle> {
    crate::physics::iterate_physics(
        w.particles@,
        w.params.simulation_speed.multiplier_spec() as nat,
        w.genomes@,
        active_positions(w.foods@),
        w.grid,
        w.boundary_mode,
        (w.params.particle_types as int) * (PARTICLE_RADIUS as int),
        w.params.max_force_range as int,
        crate::physics::decay_spec(PHYSICS_TIMESTEP as int, w.params.velocity_half_life as int),
    )
}

/// The scores after one update's foraging pass over that trajectory.
pub open spec fn update_awards(w: World) -> Seq<i64> {
    crate::foraging::awards_from(w.foods@, update_trajectory(w), w.scores@, 0)
}

/// A uniform random position inside the volume: each coordinate is drawn
/// from the half-open interval `[-half_extent, half_extent)` of its axis.
pub fn random_position_in_grid(grid: &GridParameters) -> (r: Vec3Fx)
    requires
        grid.wf(),
    ensures
        within_grid(r, *grid),
        -crate::fixed::tdiv(grid.width as int, 2) <= r.x < crate::fixed::tdiv(grid.width as int, 2),
        -crate::fixed::tdiv(grid.height as int, 2) <= r.y < crate::fixed::tdiv(
            grid.height as int,
            2,
        ),
        -crate::fixed::tdiv(grid.depth as int, 2) <= r.z < crate::fixed::tdiv(grid.depth as int, 2),
{
    let half_width = crate::fixed::tdiv_i64(grid.width, 2);
    let half_height = crate::fixed::tdiv_i64(grid.height, 2);
    let half_depth = crate::fixed::tdiv_i64(grid.depth, 2);
    proof {
        crate::fixed::lemma_tdiv_monotone(8000, grid.width as int, 2);
        crate::fixed::lemma_tdiv_monotone(8000, grid.height as int, 2);
        crate::fixed::lemma_tdiv_monotone(8000, grid.depth as int, 2);
        crate::fixed::lemma_tdiv_bound(grid.width as int, 2, grid.width as int);
        crate::fixed::lemma_tdiv_bound(grid.height as int, 2, grid.height as int);
        crate::fixed::lemma_tdiv_bound(grid.depth as int, 2, grid.depth as int);
    }
    Vec3Fx {
        x: rand_in_range(-half_width, half_width - 1),
        y: rand_in_range(-half_height, half_height - 1),
        z: rand_in_range(-half_depth, half_depth - 1),
    }
}


/// The whole particle population at a spawn or epoch reset: every colony
/// holds the same type-balanced placement list in the same order, with
/// zero velocities. Particle `i` belongs to colony `i / colony_size`, has
/// type `(i % colony_size) / per_type`, and shares its position with
/// particle `i % colony_size` of the first colony.
#[verifier::rlimit(60)]
fn build_population_particles(params: &SimulationParameters, grid: &GridParameters) -> (r: Vec<
    Particle,
>)
    requires
        params.wf(),
        grid.wf(),
    ensures
        r@.len() == params.simulation_count * colony_size_spec(*params),
        forall|i: int|
            0 <= i < r@.len() ==> (#[trigger] r@[i]).velocity == (Vec3Fx { x: 0, y: 0, z: 0 }),
        forall|i: int| 0 <= i < r@.len() ==> within_grid((#[trigger] r@[i]).position, *grid),
        forall|i: int|
            0 <= i < r@.len() ==> ((#[trigger] r@[i]).colony) as int == i / colony_size_spec(
                *params,
            ),
        forall|i: int|
            0 <= i < r@.len() ==> ((#[trigger] r@[i]).ptype) as int == (i % colony_size_spec(
                *params,
            )) / per_type_spec(*params),
        forall|i: int| 0 <= i < r@.len() ==> (#[trigger] r@[i]).ptype < params.particle_types,
        forall|i: int|
            0 <= i < r@.len() ==> (#[trigger] r@[i]).position == r@[i % colony_size_spec(
                *params,
            )].position,
{
    let template = build_particle_template(params, grid);
    let cs = template.len();
    let sim_count = params.simulation_count;
    proof {
        assert(per_type_spec(*params) >= 1) by {
            vstd::arithmetic::div_mod::lemma_div_is_ordered(
                params.particle_types as int,
                (params.particle_count + params.particle_types - 1) as int,
                params.particle_types as int,
            );
            vstd::arithmetic::div_mod::lemma_div_by_self(params.particle_types as int);
        }
        assert(cs as int >= 1) by (nonlinear_arith)
            requires
                cs as int == (params.particle_types as int) * per_type_spec(*params),
                params.particle_types as int >= 1,
                per_type_spec(*params) >= 1,
        {}
    }
    let mut particles: Vec<Particle> = Vec::new();
    let mut c: usize = 0;
    while c < sim_count
        invariant
            c <= sim_count,
            sim_count == params.simulation_count,
            params.wf(),
            grid.wf(),
            cs == template@.len(),
            cs as int == colony_size_spec(*params),
            1 <= cs,
            forall|j: int| 0 <= j < template@.len() ==> (#[trigger] template@[j]).0 < params.particle_types,
            forall|j: int|
                0 <= j < template@.len() ==> ((#[trigger] template@[j]).0) as int == j
                    / per_type_spec(*params),
            forall|j: int| 0 <= j < template@.len() ==> within_grid((#[trigger] template@[j]).1, *grid),
            particles@.len() == c * cs,
            forall|i: int|
                0 <= i < particles@.len() ==> (#[trigger] particles@[i]).ptype == template@[i % cs as int].0,
            forall|i: int|
                0 <= i < particles@.len() ==> (#[trigger] particles@[i]).position == template@[
                i % cs as int].1,
            forall|i: int|
                0 <= i < particles@.len() ==> (#[trigger] particles@[i]).velocity == (Vec3Fx {
                    x: 0,
                    y: 0,
                    z: 0,
                }),
            forall|i: int|
                0 <= i < particles@.len() ==> ((#[trigger] particles@[i]).colony) as int == i / (
                cs as int),
        decreases sim_count - c,
    {
        let mut t: usize = 0;
        while t < cs
            invariant
                t <= cs,
                c < sim_count,
                sim_count == params.simulation_count,
                params.wf(),
                grid.wf(),
                cs == template@.len(),
                cs as int == colony_size_spec(*params),
                1 <= cs,
                forall|j: int|
                    0 <= j < template@.len() ==> (#[trigger] template@[j]).0 < params.particle_types,
                forall|j: int|
                    0 <= j < template@.len() ==> ((#[trigger] template@[j]).0) as int == j
                        / per_type_spec(*params),
                forall|j: int|
                    0 <= j < template@.len() ==> within_grid((#[trigger] template@[j]).1, *grid),
                particles@.len() == c * cs + t,
                forall|i: int|
                    0 <= i < particles@.len() ==> (#[trigger] particles@[i]).ptype == template@[
                    i % cs as int].0,
                forall|i: int|
                    0 <= i < particles@.len() ==> (#[trigger] particles@[i]).position == template@[
                    i % cs as int].1,
                forall|i: int|
                    0 <= i < particles@.len() ==> (#[trigger] particles@[i]).velocity == (Vec3Fx {
                        x: 0,
                        y: 0,
                        z: 0,
                    }),
                forall|i: int|
                    0 <= i < particles@.len() ==> ((#[trigger] particles@[i]).colony) as int == i
                        / (cs as int),
            decreases cs - t,
        {
            let entry = template[t];
            proof {
                assert((c as int) * (cs as int) == (cs as int) * (c as int)) by (nonlinear_arith);
                vstd::arithmetic::div_mod::lemma_div_multiples_vanish_fancy(
                    c as int,
                    t as int,
                    cs as int,
                );
                vstd::arithmetic::div_mod::lemma_fundamental_div_mod(
                    (c as int) * (cs as int) + t,
                    cs as int,
                );
            }
            particles.push(
                Particle { ptype: entry.0, position: entry.1, velocity: Vec3Fx::zero(), colony: c },
            );
            t = t + 1;
        }
        proof {
            assert((c as int) * (cs as int) + cs == (c as int + 1) * (cs as int))
                by (nonlinear_arith);
        }
        c = c + 1;
    }
    proof {
        assert((sim_count as int) * (cs as int) >= cs as int) by (nonlinear_arith)
            requires
                sim_count as int >= 1,
                cs as int >= 1,
        {}
        assert forall|i: int| 0 <= i < particles@.len() implies (#[trigger] particles@[i]).position
            == particles@[i % cs as int].position by {
            vstd::arithmetic::div_mod::lemma_mod_bound(i, cs as int);
            let j = i % cs as int;
            vstd::arithmetic::div_mod::lemma_small_mod(j as nat, cs as nat);
            vstd::arithmetic::div_mod::lemma_basic_div(j, cs as int);
            assert(particles@[j].position == template@[j].1);
        }
        assert forall|i: int| 0 <= i < particles@.len() implies ((#[trigger] particles@[i]).ptype)
            as int == (i % colony_size_spec(*params)) / per_type_spec(*params) by {
            vstd::arithmetic::div_mod::lemma_mod_bound(i, cs as int);
        }
        assert forall|i: int| 0 <= i < particles@.len() implies (#[trigger] particles@[i]).ptype
            < params.particle_types by {
            vstd::arithmetic::div_mod::lemma_mod_bound(i, cs as int);
        }
        assert forall|i: int| 0 <= i < particles@.len() implies within_grid(
            (#[trigger] particles@[i]).position,
            *grid,
        ) by {
            vstd::arithmetic::div_mod::lemma_mod_bound(i, cs as int);
        }
    }
    particles
}

/// The type-balanced placement template shared by every colony:
/// `ceil(particle_count / type_count)` random positions per type.
fn build_particle_template(params: &SimulationParameters, grid: &GridParameters) -> (r: Vec<
    (usize, Vec3Fx),
>)
    requires
        params.wf(),
        grid.wf(),
    ensures
        r@.len() == colony_size_spec(*params),
        forall|i: int| 0 <= i < r@.len() ==> (#[trigger] r@[i]).0 < params.particle_types,
        forall|i: int|
            0 <= i < r@.len() ==> ((#[trigger] r@[i]).0) as int == i / per_type_spec(*params),
        forall|i: int| 0 <= i < r@.len() ==> within_grid((#[trigger] r@[i]).1, *grid),
{
    let type_count = params.particle_types;
    let per_type = (params.particle_count + type_count - 1) / type_count;
    proof {
        vstd::arithmetic::div_mod::lemma_div_is_ordered(
            type_count as int,
            (params.particle_count + type_count - 1) as int,
            type_count as int,
        );
        vstd::arithmetic::div_mod::lemma_div_by_self(type_count as int);
        assert(per_type >= 1);
    }
    let mut template: Vec<(usize, Vec3Fx)> = Vec::new();
    let mut t: usize = 0;
    while t < type_count
        invariant
            t <= type_count,
            params.wf(),
            grid.wf(),
            type_count == params.particle_types,
            per_type == (params.particle_count + type_count - 1) as int / type_count as int,
            1 <= per_type,
            template@.len() == t * per_type,
            forall|i: int| 0 <= i < template@.len() ==> (#[trigger] template@[i]).0 < type_count,
            forall|i: int|
                0 <= i < template@.len() ==> ((#[trigger] template@[i]).0) as int == i / (
                per_type as int),
            forall|i: int| 0 <= i < template@.len() ==> within_grid((#[trigger] template@[i]).1, *grid),
        decreases type_count - t,
    {
        let mut k: usize = 0;
        while k < per_type
            invariant
                k <= per_type,
                t < type_count,
                params.wf(),
                grid.wf(),
                type_count == params.particle_types,
                per_type == (params.particle_count + type_count - 1) as int / type_count as int,
                1 <= per_type,
                template@.len() == t * per_type + k,
                forall|i: int|
                    0 <= i < template@.len() ==> (#[trigger] template@[i]).0 < type_count,
                forall|i: int|
                    0 <= i < template@.len() ==> ((#[trigger] template@[i]).0) as int == i / (
                    per_type as int),
                forall|i: int|
                    0 <= i < template@.len() ==> within_grid((#[trigger] template@[i]).1, *grid),
            decreases per_type - k,
        {
            proof {
                assert((t as int) * (per_type as int) == (per_type as int) * (t as int))
                    by (nonlinear_arith);
                vstd::arithmetic::div_mod::lemma_div_multiples_vanish_fancy(
                    t as int,
                    k as int,
                    per_type as int,
                );
            }
            template.push((t, random_position_in_grid(grid)));
            k = k + 1;
        }
        proof {
            assert((t as int) * (per_type as int) + per_type == (t as int + 1) * (per_type as int))
                by (nonlinear_arith);
        }
        t = t + 1;
    }
    template
}

/// Freshly placed food: every item active at a random position, with a
/// full respawn timer when respawning is enabled and none otherwise.
fn build_foods(food_params: &FoodParameters, grid: &GridParameters) -> (r: Vec<Food>)
    requires
        food_params.wf(),
        grid.wf(),
    ensures
        r@.len() == food_params.food_count,
        forall|i: int| 0 <= i < r@.len() ==> (#[trigger] r@[i]).wf(),
        forall|i: int| 0 <= i < r@.len() ==> (#[trigger] r@[i]).state is Active,
        forall|i: int| 0 <= i < r@.len() ==> (#[trigger] r@[i]).value == food_params.food_value,
        forall|i: int|
            0 <= i < r@.len() ==> (#[trigger] r@[i]).respawn == (if food_params.respawn_enabled {
                Some(food_params.respawn_cooldown)
            } else {
                None::<i64>
            }),
        forall|i: int|
            0 <= i < r@.len() ==> (#[trigger] r@[i]).remaining == food_params.respawn_cooldown,
        forall|i: int| 0 <= i < r@.len() ==> within_grid((#[trigger] r@[i]).position, *grid),
{
    let n = food_params.food_count;
    let mut foods: Vec<Food> = Vec::new();
    let mut i: usize = 0;
    while i < n
        invariant
            i <= n,
            food_params.wf(),
            grid.wf(),
            foods@.len() == i,
            forall|k: int| 0 <= k < foods@.len() ==> (#[trigger] foods@[k]).wf(),
            forall|k: int| 0 <= k < foods@.len() ==> (#[trigger] foods@[k]).state is Active,
            forall|k: int|
                0 <= k < foods@.len() ==> (#[trigger] foods@[k]).value == food_params.food_value,
            forall|k: int|
                0 <= k < foods@.len() ==> (#[trigger] foods@[k]).respawn == (if food_params.respawn_enabled {
                    Some(food_params.respawn_cooldown)
                } else {
                    None::<i64>
                }),
            forall|k: int|
                0 <= k < foods@.len() ==> (#[trigger] foods@[k]).remaining
                    == food_params.respawn_cooldown,
            forall|k: int| 0 <= k < foods@.len() ==> within_grid((#[trigger] foods@[k]).position, *grid),
        decreases n - i,
    {
        let position = random_position_in_grid(grid);
        let respawn = if food_params.respawn_enabled {
            Some(food_params.respawn_cooldown)
        } else {
            None
        };
        proof {
            assert(within_grid(position, *grid));
            crate::fixed::lemma_tdiv_bound(grid.width as int, 2, grid.width as int);
            crate::fixed::lemma_tdiv_bound(grid.height as int, 2, grid.height as int);
            crate::fixed::lemma_tdiv_bound(grid.depth as int, 2, grid.depth as int);
        }
        foods.push(
            Food {
                position,
                value: food_params.food_value,
                respawn,
                remaining: food_params.respawn_cooldown,
                state: FoodState::Active,
            },
        );
        i = i + 1;
    }
    foods
}

/// The positions of the active food items, in food order.
pub open spec fn active_positions(foods: Seq<Food>) -> Seq<Vec3Fx>
    decreases foods.len(),
{
    if foods.len() == 0 {
        Seq::empty()
    } else {
        active_positions(foods.drop_last()) + (if foods.last().state is Active {
            seq![foods.last().position]
        } else {
            Seq::empty()
        })
    }
}

/// Appending a food item appends its position exactly when it is active.
proof fn lemma_active_positions_push(foods: Seq<Food>, f: Food)
    ensures
        active_positions(foods.push(f)) == active_positions(foods) + (if f.state is Active {
            seq![f.position]
        } else {
            Seq::empty()
        }),
{
    assert(foods.push(f).drop_last() =~= foods);
}

/// Collects the positions of the currently active food items, in food
/// order; exact twin of `active_positions`.
fn active_food_positions(foods: &Vec<Food>) -> (r: Vec<Vec3Fx>)
    requires
        forall|i: int| 0 <= i < foods@.len() ==> (#[trigger] foods@[i]).wf(),
    ensures
        r@ == active_positions(foods@),
        r@.len() <= foods@.len(),
        forall|i: int| 0 <= i < r@.len() ==> in_box(#[trigger] r@[i], COORD_LIMIT as int),
{
    let mut positions: Vec<Vec3Fx> = Vec::new();
    let mut i: usize = 0;
    proof {
        assert(foods@.subrange(0, 0) =~= Seq::<Food>::empty());
    }
    while i < foods.len()
        invariant
            i <= foods@.len(),
            positions@.len() <= i,
            positions@ == active_positions(foods@.subrange(0, i as int)),
            forall|k: int| 0 <= k < foods@.len() ==> (#[trigger] foods@[k]).wf(),
            forall|k: int| 0 <= k < positions@.len() ==> in_box(#[trigger] positions@[k], COORD_LIMIT as int),
        decreases foods@.len() - i,
    {
        proof {
            assert(foods@.subrange(0, i + 1 as int) =~= foods@.subrange(0, i as int).push(
                foods@[i as int],
            ));
            lemma_active_positions_push(foods@.subrange(0, i as int), foods@[i as int]);
            if foods@[i as int].state is Active {
                assert(active_positions(foods@.subrange(0, i + 1 as int)) =~= active_positions(
                    foods@.subrange(0, i as int),
                ).push(foods@[i as int].position));
            } else {
                assert(active_positions(foods@.subrange(0, i + 1 as int)) =~= active_positions(
                    foods@.subrange(0, i as int),
                ));
            }
        }
        if matches!(foods[i].state, FoodState::Active) {
            positions.push(foods[i].position);
        }
        i = i + 1;
    }
    proof {
        assert(foods@.subrange(0, foods@.len() as int) =~= foods@);
    }
    positions
}

} // verus!
