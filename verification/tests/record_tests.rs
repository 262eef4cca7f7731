use particle_life::genome::Genome;
use particle_life::params::{
    BoundaryMode, FoodParameters, GridParameters, SimulationParameters, SimulationSpeed,
};
use particle_life::record::{save_and_restore, PopulationRecord};

#[test]
fn round_trip_reproduces_the_bundle_bit_for_bit() {
    let mut genome = Genome::random(3);
    genome.set_force(0, 1, 1_234);
    let mut params = SimulationParameters::default();
    params.max_force_range = 250_000;
    params.velocity_half_life = 77;
    params.epoch_duration = 30_000;
    params.particle_count = 42;
    let grid = GridParameters { width: 640_000, height: 480_000, depth: 320_000 };
    let mut food = FoodParameters::default();
    food.food_count = 13;
    food.respawn_enabled = false;
    food.food_value = 2_500;
    let (g2, p2, grid2, food2, mode2) = save_and_restore(
        String::from("colony-of-interest"),
        Some(String::from("a promising lineage")),
        &genome,
        8_700,
        &params,
        &grid,
        &food,
        BoundaryMode::Teleport,
    );
    // The genome's force and food values are reproduced bit-identically.
    assert_eq!(g2.force_matrix, genome.force_matrix);
    assert_eq!(g2.food_forces, genome.food_forces);
    assert_eq!(g2.type_count, 3);
    // Persisted scalar parameters come back equal.
    assert_eq!(p2.max_force_range, 250_000);
    assert_eq!(p2.velocity_half_life, 77);
    assert_eq!(p2.epoch_duration, 30_000);
    assert_eq!(p2.particle_count, 42);
    assert_eq!(p2.particle_types, 3);
    assert_eq!((grid2.width, grid2.height, grid2.depth), (640_000, 480_000, 320_000));
    assert_eq!(food2.food_count, 13);
    assert!(!food2.respawn_enabled);
    assert_eq!(food2.respawn_cooldown, food.respawn_cooldown);
    assert_eq!(food2.food_value, 2_500);
    assert_eq!(mode2, BoundaryMode::Teleport);
}

#[test]
fn restoring_resets_the_run_state_for_a_single_colony() {
    let genome = Genome::random(2);
    let mut params = SimulationParameters::default();
    params.current_epoch = 17;
    params.simulation_count = 6;
    params.simulation_speed = SimulationSpeed::VeryFast;
    let record = PopulationRecord::from_current_state(
        String::from("snapshot"),
        None,
        &genome,
        500,
        &params,
        &GridParameters::default(),
        &FoodParameters::default(),
        BoundaryMode::Bounce,
    );
    assert_eq!(record.score, 500);
    assert_eq!(record.name, "snapshot");
    let (_, restored, _, _, _) = record.to_simulation_state();
    // Epoch counters, colony count, speed and genetic ratios restart at
    // their fresh-run defaults.
    assert_eq!(restored.current_epoch, 0);
    assert_eq!(restored.epoch_elapsed, 0);
    assert_eq!(restored.simulation_count, 1);
    assert_eq!(restored.simulation_speed, SimulationSpeed::Normal);
    assert_eq!(restored.elite_ratio, 100);
    assert_eq!(restored.mutation_rate, 100);
    assert_eq!(restored.crossover_rate, 700);
}
