use particle_life::engine::{toggle_pause, RunState, World};
use particle_life::entities::FoodState;
use particle_life::errors::LookupError;
use particle_life::params::{
    BoundaryMode, FoodParameters, GridParameters, SimulationParameters, SimulationSpeed,
};

fn small_world() -> World {
    let mut params = SimulationParameters::default();
    params.simulation_count = 2;
    params.particle_count = 4;
    params.particle_types = 2;
    let mut food = FoodParameters::default();
    food.food_count = 3;
    World::new(params, GridParameters::default(), food, BoundaryMode::Bounce).unwrap()
}

#[test]
fn invalid_configuration_is_rejected_before_a_run() {
    let mut params = SimulationParameters::default();
    params.particle_types = 0;
    let r = World::new(params, GridParameters::default(), FoodParameters::default(), BoundaryMode::Bounce);
    assert!(r.is_err());
    let bad_grid = GridParameters { width: 0, height: 800_000, depth: 800_000 };
    let r2 = World::new(
        SimulationParameters::default(),
        bad_grid,
        FoodParameters::default(),
        BoundaryMode::Teleport,
    );
    assert!(r2.is_err());
}

#[test]
fn spawning_populates_colonies_particles_and_food() {
    let mut world = small_world();
    world.spawn_population();
    assert_eq!(world.genomes.len(), 2);
    assert_eq!(world.scores, vec![0, 0]);
    // ceil(4 / 2) = 2 particles per type, 2 types, 2 colonies.
    assert_eq!(world.particles.len(), 8);
    assert_eq!(world.foods.len(), 3);
    for f in &world.foods {
        assert_eq!(f.state, FoodState::Active);
        assert_eq!(f.value, 1_000);
    }
    for p in &world.particles {
        assert_eq!(p.velocity.x, 0);
        assert_eq!(p.velocity.y, 0);
        assert_eq!(p.velocity.z, 0);
        assert!(p.ptype < 2);
        assert!(p.colony < 2);
    }
    // All colonies share the same particle positions, in the same order.
    for i in 0..4 {
        assert_eq!(world.particles[i].position, world.particles[4 + i].position);
        assert_eq!(world.particles[i].ptype, world.particles[4 + i].ptype);
    }
}

#[test]
fn update_advances_the_timer_and_keeps_scores_monotone() {
    let mut world = small_world();
    world.spawn_population();
    let before = world.scores.clone();
    world.update(100);
    assert_eq!(world.params.epoch_elapsed, 100);
    assert_eq!(world.scores.len(), 2);
    for (b, a) in before.iter().zip(world.scores.iter()) {
        assert!(a >= b);
    }
}

#[test]
fn a_paused_world_freezes_particles_and_the_timer() {
    let mut world = small_world();
    world.params.simulation_speed = SimulationSpeed::Paused;
    world.spawn_population();
    let positions: Vec<_> = world.particles.iter().map(|p| p.position).collect();
    world.update(1_000);
    assert_eq!(world.params.epoch_elapsed, 0);
    let after: Vec<_> = world.particles.iter().map(|p| p.position).collect();
    assert_eq!(positions, after);
}

#[test]
fn an_elapsed_epoch_triggers_the_genetic_transition() {
    let mut world = small_world();
    world.params.epoch_duration = 50;
    world.spawn_population();
    world.scores[0] = 2_000;
    world.scores[1] = 5_000;
    world.update(100);
    assert_eq!(world.params.current_epoch, 1);
    // The transition resets scores and keeps the population size.
    assert_eq!(world.scores, vec![0, 0]);
    assert_eq!(world.genomes.len(), 2);
    assert_eq!(world.previous_best, 5_000);
    assert_eq!(world.foods.len(), 3);
    for f in &world.foods {
        assert_eq!(f.state, FoodState::Active);
    }
    for p in &world.particles {
        assert_eq!(p.velocity.x, 0);
    }
}

#[test]
fn elites_survive_the_transition_unmodified() {
    let mut world = small_world();
    world.params.epoch_duration = 50;
    world.spawn_population();
    // Colony 1 wins the epoch; its genome must lead the next generation.
    let winner = world.genomes[1].duplicate();
    world.scores[0] = 1_000;
    world.scores[1] = 9_000;
    world.update(100);
    assert_eq!(world.genomes[0].force_matrix, winner.force_matrix);
    assert_eq!(world.genomes[0].food_forces, winner.food_forces);
}

#[test]
fn missing_colonies_are_reported_not_invented() {
    let mut world = small_world();
    world.spawn_population();
    let found = world.record_for_colony(1, String::from("keeper"), None);
    assert!(found.is_ok());
    let rec = found.unwrap();
    assert_eq!(rec.genome.force_matrix, world.genomes[1].force_matrix);
    assert_eq!(rec.score, world.scores[1]);
    let missing = world.record_for_colony(7, String::from("ghost"), None);
    match missing {
        Err(e) => assert_eq!(e, LookupError::ColonyNotFound),
        Ok(_) => panic!("a missing colony must be reported"),
    }
}

#[test]
fn pause_toggle_swaps_running_and_paused_only() {
    assert_eq!(toggle_pause(RunState::Running), RunState::Paused);
    assert_eq!(toggle_pause(RunState::Paused), RunState::Running);
    assert_eq!(toggle_pause(RunState::Starting), RunState::Starting);
    assert_eq!(toggle_pause(RunState::GeneticSelection), RunState::GeneticSelection);
}
