use particle_life::boundary::{direction, torus_direction_vector};
use particle_life::params::{BoundaryMode, GridParameters};
use particle_life::vec3::Vec3Fx;

fn default_grid() -> GridParameters {
    GridParameters { width: 800_000, height: 800_000, depth: 800_000 }
}

#[test]
fn bounce_reflects_and_damps_the_exceeded_axis() {
    // A particle at x = half_width - 0.5 * particle_radius moving outward
    // with vx = 10 is pinned at half_width - particle_radius with
    // vx = -10 * damping.
    let grid = default_grid();
    let mut position = Vec3Fx { x: 400_000 - 2_000, y: 0, z: 0 };
    let mut velocity = Vec3Fx { x: 10_000, y: 3_000, z: -4_000 };
    grid.apply_bounds(&mut position, &mut velocity, BoundaryMode::Bounce);
    assert_eq!(position.x, 400_000 - 4_000);
    assert_eq!(velocity.x, -5_000);
    // Untouched axes keep position and velocity.
    assert_eq!(position.y, 0);
    assert_eq!(position.z, 0);
    assert_eq!(velocity.y, 3_000);
    assert_eq!(velocity.z, -4_000);
}

#[test]
fn bounce_reflects_the_negative_wall_too() {
    let grid = default_grid();
    let mut position = Vec3Fx { x: 0, y: -399_000, z: 0 };
    let mut velocity = Vec3Fx { x: 0, y: -10_000, z: 0 };
    grid.apply_bounds(&mut position, &mut velocity, BoundaryMode::Bounce);
    assert_eq!(position.y, -396_000);
    assert_eq!(velocity.y, 5_000);
}

#[test]
fn teleport_wraps_to_the_opposite_side() {
    // A particle at x = half_width + 5 wraps to x = -half_width + 5.
    let grid = default_grid();
    let mut position = Vec3Fx { x: 400_000 + 5_000, y: 0, z: 0 };
    let mut velocity = Vec3Fx { x: 10_000, y: 0, z: 0 };
    grid.apply_bounds(&mut position, &mut velocity, BoundaryMode::Teleport);
    assert_eq!(position.x, -400_000 + 5_000);
    // Teleport leaves velocity alone.
    assert_eq!(velocity.x, 10_000);
}

#[test]
fn teleport_wraps_by_the_full_extent_on_odd_widths() {
    // width 8.001: half extent 4.000; a coordinate one step past the wall
    // moves by the whole extent, staying congruent modulo the extent.
    let grid = GridParameters { width: 8_001, height: 800_000, depth: 800_000 };
    let mut position = Vec3Fx { x: 4_001, y: 0, z: 0 };
    let mut velocity = Vec3Fx { x: 0, y: 0, z: 0 };
    grid.apply_bounds(&mut position, &mut velocity, BoundaryMode::Teleport);
    assert_eq!(position.x, 4_001 - 8_001);
}

#[test]
fn teleport_leaves_interior_positions_alone() {
    let grid = default_grid();
    let mut position = Vec3Fx { x: 123_456, y: -400_000, z: 400_000 };
    let mut velocity = Vec3Fx { x: 1, y: 2, z: 3 };
    grid.apply_bounds(&mut position, &mut velocity, BoundaryMode::Teleport);
    assert_eq!(position, Vec3Fx { x: 123_456, y: -400_000, z: 400_000 });
}

#[test]
fn torus_direction_takes_the_short_way_round() {
    let grid = default_grid();
    let from = Vec3Fx { x: 395_000, y: 0, z: 0 };
    let to = Vec3Fx { x: -395_000, y: 0, z: 0 };
    let d = torus_direction_vector(from, to, &grid);
    // The raw delta of -790 exceeds half the extent, so one full extent
    // is added: the short way is +10 units.
    assert_eq!(d.x, 10_000);
    assert_eq!(d.y, 0);
    assert_eq!(d.z, 0);
}

#[test]
fn direction_matches_the_topology() {
    let grid = default_grid();
    let from = Vec3Fx { x: 395_000, y: 1_000, z: 0 };
    let to = Vec3Fx { x: -395_000, y: 2_000, z: 0 };
    let euclid = direction(from, to, &grid, BoundaryMode::Bounce);
    assert_eq!(euclid.x, -790_000);
    assert_eq!(euclid.y, 1_000);
    let torus = direction(from, to, &grid, BoundaryMode::Teleport);
    assert_eq!(torus.x, 10_000);
    assert_eq!(torus.y, 1_000);
}

#[test]
fn in_bounds_is_inclusive_of_the_faces() {
    let grid = default_grid();
    assert!(grid.is_in_bounds(Vec3Fx { x: 400_000, y: -400_000, z: 0 }));
    assert!(!grid.is_in_bounds(Vec3Fx { x: 400_001, y: 0, z: 0 }));
    assert!(!grid.is_in_bounds(Vec3Fx { x: 0, y: 0, z: -400_001 }));
}
