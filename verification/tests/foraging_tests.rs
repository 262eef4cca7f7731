use particle_life::entities::{Food, FoodState, Particle};
use particle_life::foraging::detect_food_collision;
use particle_life::vec3::Vec3Fx;

fn particle_at(x: i64, colony: usize) -> Particle {
    Particle {
        ptype: 0,
        position: Vec3Fx { x, y: 0, z: 0 },
        velocity: Vec3Fx { x: 0, y: 0, z: 0 },
        colony,
    }
}

fn food_at(x: i64, value: i64, respawn: Option<i64>) -> Food {
    Food {
        position: Vec3Fx { x, y: 0, z: 0 },
        value,
        respawn,
        remaining: respawn.unwrap_or(0),
        state: FoodState::Active,
    }
}

#[test]
fn single_use_food_disappears_and_scores_exactly_once() {
    // One active food without a respawn timer, touched by exactly one
    // particle in range; a second touching particle the same tick does
    // not also score.
    let particles = vec![particle_at(1_000, 0), particle_at(2_000, 1)];
    let mut foods = vec![food_at(0, 1_000, None)];
    let mut scores = vec![0i64, 0];
    detect_food_collision(&particles, &mut foods, &mut scores, 16);
    assert_eq!(foods[0].state, FoodState::Consumed);
    assert_eq!(scores, vec![1_000, 0]);
    // A later tick cannot award it again.
    detect_food_collision(&particles, &mut foods, &mut scores, 16);
    assert_eq!(foods[0].state, FoodState::Consumed);
    assert_eq!(scores, vec![1_000, 0]);
}

#[test]
fn first_particle_in_iteration_order_wins_the_tie() {
    let particles = vec![particle_at(2_000, 1), particle_at(1_000, 0)];
    let mut foods = vec![food_at(0, 500, None)];
    let mut scores = vec![0i64, 0];
    detect_food_collision(&particles, &mut foods, &mut scores, 16);
    assert_eq!(scores, vec![0, 500]);
}

#[test]
fn food_with_timer_hides_and_respawns_in_place() {
    let particles = vec![particle_at(3_000, 0)];
    let mut foods = vec![food_at(0, 1_000, Some(5_000))];
    let mut scores = vec![0i64];
    detect_food_collision(&particles, &mut foods, &mut scores, 16);
    assert_eq!(foods[0].state, FoodState::Hidden);
    assert_eq!(foods[0].remaining, 5_000);
    assert_eq!(scores, vec![1_000]);
    // While hidden the timer counts down and nothing scores.
    let far = vec![particle_at(3_000, 0)];
    detect_food_collision(&far, &mut foods, &mut scores, 2_000);
    assert_eq!(foods[0].state, FoodState::Hidden);
    assert_eq!(foods[0].remaining, 3_000);
    assert_eq!(scores, vec![1_000]);
    detect_food_collision(&far, &mut foods, &mut scores, 3_000);
    assert_eq!(foods[0].remaining, 0);
    // On expiry it returns to Active at its existing position.
    detect_food_collision(&Vec::new(), &mut foods, &mut scores, 16);
    assert_eq!(foods[0].state, FoodState::Active);
    assert_eq!(foods[0].position, Vec3Fx { x: 0, y: 0, z: 0 });
    assert_eq!(scores, vec![1_000]);
}

#[test]
fn out_of_range_particles_do_not_score() {
    // The collision distance is particle radius + food radius = 6 units.
    let particles = vec![particle_at(6_000, 0)];
    let mut foods = vec![food_at(0, 1_000, None)];
    let mut scores = vec![0i64];
    detect_food_collision(&particles, &mut foods, &mut scores, 16);
    assert_eq!(foods[0].state, FoodState::Active);
    assert_eq!(scores, vec![0]);
    // Just inside the collision distance it scores.
    let close = vec![particle_at(5_999, 0)];
    detect_food_collision(&close, &mut foods, &mut scores, 16);
    assert_eq!(scores, vec![1_000]);
}

#[test]
fn each_food_item_feeds_its_own_toucher() {
    let particles = vec![particle_at(0, 0), particle_at(100_000, 1)];
    let mut foods = vec![food_at(1_000, 300, None), food_at(101_000, 400, None)];
    let mut scores = vec![0i64, 0];
    detect_food_collision(&particles, &mut foods, &mut scores, 16);
    assert_eq!(scores, vec![300, 400]);
    assert_eq!(foods[0].state, FoodState::Consumed);
    assert_eq!(foods[1].state, FoodState::Consumed);
}

#[test]
fn a_particle_with_an_unknown_colony_consumes_without_scoring() {
    let particles = vec![particle_at(1_000, 9)];
    let mut foods = vec![food_at(0, 1_000, None)];
    let mut scores = vec![0i64];
    detect_food_collision(&particles, &mut foods, &mut scores, 16);
    assert_eq!(foods[0].state, FoodState::Consumed);
    assert_eq!(scores, vec![0]);
}
