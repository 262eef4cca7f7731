use particle_life::errors::ConfigError;
use particle_life::params::{
    BoundaryMode, FoodParameters, GridParameters, SimulationParameters, SimulationSpeed,
};

#[test]
fn defaults_describe_the_documented_run() {
    let p = SimulationParameters::default();
    assert_eq!(p.simulation_count, 6);
    assert_eq!(p.particle_count, 100);
    assert_eq!(p.particle_types, 3);
    assert_eq!(p.epoch_duration, 60_000);
    assert_eq!(p.max_force_range, 300_000);
    assert_eq!(p.velocity_half_life, 43);
    assert_eq!(p.elite_ratio, 100);
    assert_eq!(p.mutation_rate, 100);
    assert_eq!(p.crossover_rate, 700);
    assert_eq!(p.simulation_speed, SimulationSpeed::Normal);
    assert!(p.validate().is_ok());
    let g = GridParameters::default();
    assert_eq!((g.width, g.height, g.depth), (800_000, 800_000, 800_000));
    assert!(g.validate().is_ok());
    let f = FoodParameters::default();
    assert_eq!(f.food_count, 50);
    assert!(f.respawn_enabled);
    assert_eq!(f.respawn_cooldown, 5_000);
    assert_eq!(f.food_value, 1_000);
    assert!(f.validate().is_ok());
}

#[test]
fn zero_type_count_is_rejected() {
    let mut p = SimulationParameters::default();
    p.particle_types = 0;
    assert_eq!(p.validate(), Err(ConfigError::ZeroTypeCount));
}

#[test]
fn a_force_range_below_the_repulsion_radius_is_rejected() {
    let mut p = SimulationParameters::default();
    // 100 types * 4 units of radius = 400 units of repulsion radius,
    // which reaches past the 300-unit force range.
    p.particle_types = 100;
    assert_eq!(p.validate(), Err(ConfigError::ForceRangeTooSmall));
}

#[test]
fn ratios_outside_their_ranges_are_rejected() {
    let mut p = SimulationParameters::default();
    p.elite_ratio = 0;
    assert_eq!(p.validate(), Err(ConfigError::RatioOutOfRange));
    let mut q = SimulationParameters::default();
    q.crossover_rate = 1_001;
    assert_eq!(q.validate(), Err(ConfigError::RatioOutOfRange));
    let mut r = SimulationParameters::default();
    r.mutation_rate = -1;
    assert_eq!(r.validate(), Err(ConfigError::RatioOutOfRange));
}

#[test]
fn grid_extents_must_be_positive_and_modest() {
    let negative = GridParameters { width: -1, height: 800_000, depth: 800_000 };
    assert_eq!(negative.validate(), Err(ConfigError::NonPositiveGridExtent));
    let tiny = GridParameters { width: 7_000, height: 800_000, depth: 800_000 };
    assert_eq!(tiny.validate(), Err(ConfigError::GridTooSmall));
    let huge = GridParameters { width: 800_000, height: 300_000_000, depth: 800_000 };
    assert_eq!(huge.validate(), Err(ConfigError::CountTooLarge));
}

#[test]
fn oversized_counts_are_rejected() {
    let mut p = SimulationParameters::default();
    p.simulation_count = 20_000;
    assert_eq!(p.validate(), Err(ConfigError::CountTooLarge));
    let mut f = FoodParameters::default();
    f.food_count = 20_000;
    assert_eq!(f.validate(), Err(ConfigError::CountTooLarge));
}

#[test]
fn speed_multiplier_counts_timesteps() {
    assert_eq!(SimulationSpeed::Paused.multiplier(), 0);
    assert_eq!(SimulationSpeed::Normal.multiplier(), 1);
    assert_eq!(SimulationSpeed::Fast.multiplier(), 2);
    assert_eq!(SimulationSpeed::VeryFast.multiplier(), 4);
}

#[test]
fn epoch_timer_scales_with_speed_and_saturates() {
    let mut p = SimulationParameters::default();
    p.simulation_speed = SimulationSpeed::Fast;
    p.tick(1_000);
    assert_eq!(p.epoch_elapsed, 2_000);
    assert!(!p.is_epoch_finished());
    p.simulation_speed = SimulationSpeed::Paused;
    p.tick(5_000);
    assert_eq!(p.epoch_elapsed, 2_000);
    p.simulation_speed = SimulationSpeed::Normal;
    p.tick(1_000_000);
    assert_eq!(p.epoch_elapsed, 60_000);
    assert!(p.is_epoch_finished());
    p.start_new_epoch();
    assert_eq!(p.current_epoch, 1);
    assert_eq!(p.epoch_elapsed, 0);
    assert!(!p.is_epoch_finished());
}

#[test]
fn boundary_mode_codes_round_trip() {
    assert_eq!(BoundaryMode::Bounce.code(), 0);
    assert_eq!(BoundaryMode::Teleport.code(), 1);
    assert_eq!(BoundaryMode::from_code(0), Some(BoundaryMode::Bounce));
    assert_eq!(BoundaryMode::from_code(1), Some(BoundaryMode::Teleport));
    assert_eq!(BoundaryMode::from_code(2), None);
}
