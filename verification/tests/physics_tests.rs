use particle_life::entities::Particle;
use particle_life::genome::Genome;
use particle_life::params::{BoundaryMode, GridParameters};
use particle_life::physics::{
    apply_batch_results, apply_physics_step, calculate_acceleration, calculate_forces,
    decay_factor, integrate_particle,
};
use particle_life::vec3::Vec3Fx;

fn default_grid() -> GridParameters {
    GridParameters { width: 800_000, height: 800_000, depth: 800_000 }
}

#[test]
fn acceleration_is_zero_at_zero_distance() {
    let r = calculate_acceleration(12_000, Vec3Fx { x: 0, y: 0, z: 0 }, 80_000, 300_000);
    assert_eq!(r, Vec3Fx { x: 0, y: 0, z: 0 });
}

#[test]
fn acceleration_is_repulsive_inside_the_repulsion_radius() {
    // dist 6, range 300: normalized distance 20, radius 40; the force is
    // 20/40 - 1 = -0.5 along +x, so the acceleration is -0.5.
    let r = calculate_acceleration(12_000, Vec3Fx { x: 6_000, y: 0, z: 0 }, 80_000, 300_000);
    assert_eq!(r.x, -500);
    assert_eq!(r.y, 0);
    assert_eq!(r.z, 0);
}

#[test]
fn acceleration_follows_the_tent_curve_outside_the_radius() {
    // dist 150, range 300: normalized distance 0.5, radius 0.04; the tent
    // term is 1 - |1 + 0.04 - 1| / 0.96 = 1 - 0.041 = 0.959, scaled by
    // the attraction 80.
    let r = calculate_acceleration(12_000, Vec3Fx { x: 150_000, y: 0, z: 0 }, 80_000, 300_000);
    assert_eq!(r.x, 76_720);
    assert_eq!(r.y, 0);
    assert_eq!(r.z, 0);
}

#[test]
fn decay_factor_is_a_probability_and_shrinks_with_time() {
    // A half-life far above the timestep leaves velocity untouched.
    assert_eq!(decay_factor(8, 100_000), 1_000);
    let d = decay_factor(8, 43);
    // 0.5^(8/43) is about 0.879.
    assert!(d > 850 && d < 900, "decay {} outside the expected band", d);
    // A half-life equal to the timestep halves the velocity.
    assert_eq!(decay_factor(8, 8), 500);
    // Ten or more halvings round to zero.
    assert_eq!(decay_factor(80_000, 8), 0);
    let faster = decay_factor(16, 43);
    assert!(faster <= d);
}

#[test]
fn integration_moves_a_particle_by_velocity_times_timestep() {
    let grid = default_grid();
    let p = Particle {
        ptype: 0,
        position: Vec3Fx { x: 0, y: 0, z: 0 },
        velocity: Vec3Fx { x: 10_000, y: 0, z: 0 },
        colony: 0,
    };
    // Decay factor 1000 leaves the velocity unchanged; x advances by
    // 10 * 0.008 = 0.08 units.
    let r = integrate_particle(
        p,
        Vec3Fx { x: 0, y: 0, z: 0 },
        true,
        1_000,
        &grid,
        BoundaryMode::Bounce,
    );
    assert_eq!(r.position, Vec3Fx { x: 80, y: 0, z: 0 });
    assert_eq!(r.velocity, Vec3Fx { x: 10_000, y: 0, z: 0 });
}

#[test]
fn integration_caps_the_speed() {
    let grid = default_grid();
    let p = Particle {
        ptype: 0,
        position: Vec3Fx { x: 0, y: 0, z: 0 },
        velocity: Vec3Fx { x: 0, y: 0, z: 0 },
        colony: 0,
    };
    // A huge force accelerates far past the cap; the cap pins the speed
    // at 200 units/s.
    let r = integrate_particle(
        p,
        Vec3Fx { x: 100_000_000, y: 0, z: 0 },
        true,
        1_000,
        &grid,
        BoundaryMode::Bounce,
    );
    assert_eq!(r.velocity.x, 200_000);
    assert_eq!(r.position.x, 1_600);
}

#[test]
fn a_force_beyond_the_array_leaves_velocity_alone() {
    let grid = default_grid();
    let mut particles = vec![
        Particle {
            ptype: 0,
            position: Vec3Fx { x: 0, y: 0, z: 0 },
            velocity: Vec3Fx { x: 5_000, y: 0, z: 0 },
            colony: 0,
        },
        Particle {
            ptype: 0,
            position: Vec3Fx { x: 0, y: 0, z: 0 },
            velocity: Vec3Fx { x: 5_000, y: 0, z: 0 },
            colony: 0,
        },
    ];
    let forces = vec![Vec3Fx { x: 0, y: 0, z: 0 }];
    apply_physics_step(&mut particles, &forces, 500, &grid, BoundaryMode::Bounce);
    // The first particle's velocity decayed; the second had no force
    // entry and kept its velocity, though it still moved.
    assert_eq!(particles[0].velocity.x, 2_500);
    assert_eq!(particles[1].velocity.x, 5_000);
    assert_eq!(particles[0].position.x, 20);
    assert_eq!(particles[1].position.x, 40);
}

#[test]
fn same_colony_neighbours_exert_forces_and_others_do_not() {
    let grid = default_grid();
    let genomes = vec![Genome::random(1), Genome::random(1)];
    let particles = vec![
        Particle {
            ptype: 0,
            position: Vec3Fx { x: 0, y: 0, z: 0 },
            velocity: Vec3Fx { x: 0, y: 0, z: 0 },
            colony: 0,
        },
        Particle {
            ptype: 0,
            position: Vec3Fx { x: 3_000, y: 0, z: 0 },
            velocity: Vec3Fx { x: 0, y: 0, z: 0 },
            colony: 0,
        },
        Particle {
            ptype: 0,
            position: Vec3Fx { x: 100_000, y: 0, z: 0 },
            velocity: Vec3Fx { x: 0, y: 0, z: 0 },
            colony: 1,
        },
    ];
    let foods: Vec<Vec3Fx> = Vec::new();
    let forces = calculate_forces(&particles, &genomes, &foods, &grid, BoundaryMode::Bounce, 4_000, 300_000);
    assert_eq!(forces.len(), 3);
    // Particles 0 and 1 are 3 units apart, inside the repulsion band
    // (normalized 10 against a radius of 13): the pair force is
    // 10/13 - 1 = -0.231, scaled by the range of 300 units, and pushes
    // the two apart regardless of their genome.
    assert_eq!(forces[0].x, -69_300);
    assert_eq!(forces[1].x, 69_300);
    // The lone colony-1 particle has no same-colony neighbour in range;
    // a genome with negligible food affinity gives it no force at all
    // when there is no food either.
    assert_eq!(forces[2], Vec3Fx { x: 0, y: 0, z: 0 });
}

#[test]
fn food_affinity_pulls_toward_active_food() {
    let grid = default_grid();
    let mut g = Genome::new(1);
    g.food_forces[0] = 1_000;
    let genomes = vec![g];
    let particles = vec![Particle {
        ptype: 0,
        position: Vec3Fx { x: 0, y: 0, z: 0 },
        velocity: Vec3Fx { x: 0, y: 0, z: 0 },
        colony: 0,
    }];
    // A food item 100 units away along +x: the distance factor is
    // sqrt(min(1, 4/100)) = 0.2, the scaled affinity 80, so the pull is
    // 80 * 0.2 = 16 along +x.
    let foods = vec![Vec3Fx { x: 100_000, y: 0, z: 0 }];
    let forces = calculate_forces(&particles, &genomes, &foods, &grid, BoundaryMode::Bounce, 4_000, 300_000);
    assert_eq!(forces[0], Vec3Fx { x: 16_000, y: 0, z: 0 });
}

#[test]
fn negligible_raw_affinity_ignores_food() {
    let grid = default_grid();
    // A raw affinity of 0.001 is negligible even though its scaled value
    // is not; 0.002 is just past the threshold.
    let mut negligible = Genome::new(1);
    negligible.food_forces[0] = 1;
    let mut faint = Genome::new(1);
    faint.food_forces[0] = 2;
    let particle = vec![Particle {
        ptype: 0,
        position: Vec3Fx { x: 0, y: 0, z: 0 },
        velocity: Vec3Fx { x: 0, y: 0, z: 0 },
        colony: 0,
    }];
    let foods = vec![Vec3Fx { x: 100_000, y: 0, z: 0 }];
    let none = calculate_forces(&particle, &vec![negligible], &foods, &grid, BoundaryMode::Bounce, 4_000, 300_000);
    assert_eq!(none[0], Vec3Fx { x: 0, y: 0, z: 0 });
    let some = calculate_forces(&particle, &vec![faint], &foods, &grid, BoundaryMode::Bounce, 4_000, 300_000);
    // Scaled affinity 0.16, distance factor 0.2: a pull of 0.032.
    assert_eq!(some[0], Vec3Fx { x: 32, y: 0, z: 0 });
}

#[test]
fn teleport_lets_neighbours_interact_through_the_seam() {
    let grid = default_grid();
    let genomes = vec![Genome::random(1)];
    let make = |x: i64| Particle {
        ptype: 0,
        position: Vec3Fx { x, y: 0, z: 0 },
        velocity: Vec3Fx { x: 0, y: 0, z: 0 },
        colony: 0,
    };
    // Two particles hugging opposite walls are 3 units apart on the
    // torus but 797 units apart in the plain metric.
    let particles = vec![make(398_500), make(-398_500)];
    let foods: Vec<Vec3Fx> = Vec::new();
    let torus = calculate_forces(&particles, &genomes, &foods, &grid, BoundaryMode::Teleport, 4_000, 300_000);
    // Repulsion through the seam pushes the first particle toward -x and
    // the second toward +x.
    assert_eq!(torus[0].x, -69_300);
    assert_eq!(torus[1].x, 69_300);
    // Under Bounce the same pair is far out of force range.
    let plain = calculate_forces(&particles, &genomes, &foods, &grid, BoundaryMode::Bounce, 4_000, 300_000);
    assert_eq!(plain[0], Vec3Fx { x: 0, y: 0, z: 0 });
    assert_eq!(plain[1], Vec3Fx { x: 0, y: 0, z: 0 });
}

#[test]
fn batch_results_commit_only_valid_entries() {
    let grid = default_grid();
    let original = Particle {
        ptype: 0,
        position: Vec3Fx { x: 1_000, y: 0, z: 0 },
        velocity: Vec3Fx { x: 0, y: 0, z: 0 },
        colony: 0,
    };
    let mut particles = vec![original, original, original];
    let results = vec![
        // A valid result is committed.
        Some((Vec3Fx { x: 2_000, y: 0, z: 0 }, Vec3Fx { x: 100, y: 0, z: 0 })),
        // A non-finite result is reported as absent and discarded.
        None,
        // An out-of-domain result is likewise discarded.
        Some((Vec3Fx { x: 900_000_000, y: 0, z: 0 }, Vec3Fx { x: 0, y: 0, z: 0 })),
    ];
    apply_batch_results(&mut particles, &results, &grid);
    assert_eq!(particles[0].position.x, 2_000);
    assert_eq!(particles[0].velocity.x, 100);
    assert_eq!(particles[1], original);
    assert_eq!(particles[2], original);
}
