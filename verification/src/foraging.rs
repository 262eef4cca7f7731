//! Foraging: particle–food collision, score award, and the food
//! hide/respawn lifecycle.
//!
//! Any colony's particle may consume an active food item; the first
//! matching particle in iteration order wins, exactly one particle may
//! consume a given item per tick, and that tie-break is deterministic for
//! a fixed ordering but otherwise unspecified. Collisions are judged
//! against the tick-start food states, so an item that reactivates during
//! a tick becomes consumable the following tick.

use vstd::prelude::*;
use crate::entities::{Food, FoodState, Particle};
use crate::params::COORD_LIMIT;

verus! {

/// Squared collision distance: a particle touches a food item when their
/// centres are closer than `PARTICLE_RADIUS + FOOD_RADIUS`.
pub const COLLISION_DISTANCE_SQ: i64 = 36_000_000;

/// Whether a particle touches a food item.
pub open spec fn touches(p: Particle, f: Food) -> bool {
    let dx = p.position.x - f.position.x;
    let dy = p.position.y - f.position.y;
    let dz = p.position.z - f.position.z;
    dx * dx + dy * dy + dz * dz < COLLISION_DISTANCE_SQ as int
}

/// Index of the first particle at or after `i` touching `f`, or -1.
pub open spec fn first_touch_from(particles: Seq<Particle>, f: Food, i: int) -> int
    decreases particles.len() - i,
{
    if i < 0 || i >= particles.len() {
        -1
    } else if touches(particles[i], f) {
        i
    } else {
        first_touch_from(particles, f, i + 1)
    }
}

/// Addition that sticks at the fixed-point coordinate limit, so a score
/// stays within the arithmetic's domain however long a run lasts.
pub open spec fn sat_add(a: int, b: int) -> int {
    if a + b > COORD_LIMIT {
        COORD_LIMIT as int
    } else {
        a + b
    }
}

/// One food item's state after one tick: a consumed item stays consumed;
/// a hidden item counts its cooldown down and reactivates in place on
/// expiry; an active item touched by a particle hides (with a timer) or
/// is consumed for good (without one).
pub open spec fn food_step(f: Food, particles: Seq<Particle>, delta: int) -> Food {
    match f.state {
        FoodState::Consumed => f,
        FoodState::Hidden => {
            if f.remaining <= 0 {
                Food {
                    state: FoodState::Active,
                    remaining: match f.respawn {
                        Some(c) => c,
                        None => 0,
                    },
                    ..f
                }
            } else {
                Food {
                    remaining: if f.remaining - delta < 0 {
                        0
                    } else {
                        (f.remaining - delta) as i64
                    },
                    ..f
                }
            }
        },
        FoodState::Active => {
            if first_touch_from(particles, f, 0) >= 0 {
                match f.respawn {
                    Some(c) => Food { state: FoodState::Hidden, remaining: c, ..f },
                    None => Food { state: FoodState::Consumed, ..f },
                }
            } else {
                f
            }
        },
    }
}

/// The scores after one food item is (possibly) consumed: the first
/// touching particle's colony gains the item's value; nobody else gains.
pub open spec fn award_one(f: Food, particles: Seq<Particle>, scores: Seq<i64>) -> Seq<i64> {
    let t = first_touch_from(particles, f, 0);
    if f.state is Active && t >= 0 && particles[t].colony < scores.len() {
        let c = particles[t].colony as int;
        scores.update(c, sat_add(scores[c] as int, f.value as int) as i64)
    } else {
        scores
    }
}

/// The scores after the food items from index `k` on are processed in
/// order.
pub open spec fn awards_from(
    foods: Seq<Food>,
    particles: Seq<Particle>,
    scores: Seq<i64>,
    k: int,
) -> Seq<i64>
    decreases foods.len() - k,
{
    if k < 0 || k >= foods.len() {
        scores
    } else {
        awards_from(foods, particles, award_one(foods[k], particles, scores), k + 1)
    }
}

/// Awarding scores never shrinks any entry and keeps the length.
pub proof fn lemma_awards_monotone(
    foods: Seq<Food>,
    particles: Seq<Particle>,
    scores: Seq<i64>,
    k: int,
)
    requires
        forall|i: int| 0 <= i < foods.len() ==> (#[trigger] foods[i]).value >= 0,
        forall|c: int| 0 <= c < scores.len() ==> #[trigger] scores[c] <= COORD_LIMIT,
    ensures
        awards_from(foods, particles, scores, k).len() == scores.len(),
        forall|c: int|
            0 <= c < scores.len() ==> #[trigger] awards_from(foods, particles, scores, k)[c]
                >= scores[c],
    decreases foods.len() - k,
{
    if 0 <= k < foods.len() {
        let s1 = award_one(foods[k], particles, scores);
        assert(s1.len() == scores.len());
        assert(forall|c: int| 0 <= c < scores.len() ==> #[trigger] s1[c] >= scores[c]);
        lemma_awards_monotone(foods, particles, s1, k + 1);
    }
}

/// Scores that start within the coordinate limit stay within it.
pub proof fn lemma_awards_bounded(
    foods: Seq<Food>,
    particles: Seq<Particle>,
    scores: Seq<i64>,
    k: int,
)
    requires
        forall|i: int| 0 <= i < foods.len() ==> (#[trigger] foods[i]).value >= 0,
        forall|c: int| 0 <= c < scores.len() ==> 0 <= #[trigger] scores[c] <= COORD_LIMIT,
    ensures
        awards_from(foods, particles, scores, k).len() == scores.len(),
        forall|c: int|
            0 <= c < scores.len() ==> 0 <= #[trigger] awards_from(foods, particles, scores, k)[c]
                <= COORD_LIMIT,
    decreases foods.len() - k,
{
    if 0 <= k < foods.len() {
        let s1 = award_one(foods[k], particles, scores);
        assert(s1.len() == scores.len());
        assert(forall|c: int| 0 <= c < s1.len() ==> 0 <= #[trigger] s1[c] <= COORD_LIMIT);
        lemma_awards_bounded(foods, particles, s1, k + 1);
        assert(awards_from(foods, particles, scores, k) == awards_from(
            foods,
            particles,
            s1,
            k + 1,
        ));
    }
}

/// A scan that finds no toucher means there is none.
proof fn lemma_no_touch(particles: Seq<Particle>, f: Food, a: int)
    requires
        0 <= a <= particles.len(),
        forall|j: int| a <= j < particles.len() ==> !touches(#[trigger] particles[j], f),
    ensures
        first_touch_from(particles, f, a) == -1,
    decreases particles.len() - a,
{
    if a < particles.len() {
        lemma_no_touch(particles, f, a + 1);
    }
}

/// A scan that stops at the first toucher computes `first_touch_from`.
proof fn lemma_first_touch(particles: Seq<Particle>, f: Food, a: int, i: int)
    requires
        0 <= a <= i < particles.len(),
        forall|j: int| a <= j < i ==> !touches(#[trigger] particles[j], f),
        touches(particles[i], f),
    ensures
        first_touch_from(particles, f, a) == i,
    decreases i - a,
{
    if a < i {
        lemma_first_touch(particles, f, a + 1, i);
    }
}

/// Advances every food item one tick and awards scores for collisions.
/// Food transitions follow `food_step` item by item; the scores become
/// `awards_from` over the old food states, so exactly one particle — the
/// first toucher — consumes any given item, and no score ever decreases.
pub fn detect_food_collision(
    particles: &Vec<Particle>,
    foods: &mut Vec<Food>,
    scores: &mut Vec<i64>,
    delta: i64,
)
    requires
        forall|i: int| 0 <= i < particles@.len() ==> (#[trigger] particles@[i]).wf(),
        forall|i: int| 0 <= i < old(foods)@.len() ==> (#[trigger] old(foods)@[i]).wf(),
        forall|c: int| 0 <= c < old(scores)@.len() ==> 0 <= #[trigger] old(scores)@[c] <= COORD_LIMIT,
        0 <= delta <= COORD_LIMIT,
    ensures
        final(foods)@.len() == old(foods)@.len(),
        forall|k: int|
            0 <= k < final(foods)@.len() ==> #[trigger] final(foods)@[k] == food_step(
                old(foods)@[k],
                particles@,
                delta as int,
            ),
        final(scores)@ == awards_from(old(foods)@, particles@, old(scores)@, 0),
        final(scores)@.len() == old(scores)@.len(),
        forall|c: int|
            0 <= c < old(scores)@.len() ==> #[trigger] final(scores)@[c] >= old(scores)@[c],
        forall|c: int|
            0 <= c < final(scores)@.len() ==> 0 <= #[trigger] final(scores)@[c] <= COORD_LIMIT,
        forall|k: int|
            0 <= k < final(foods)@.len() ==> (#[trigger] final(foods)@[k]).wf(),
{
    let food_count = foods.len();
    let mut k: usize = 0;
    while k < food_count
        invariant
            food_count == foods@.len(),
            foods@.len() == old(foods)@.len(),
            k <= food_count,
            forall|i: int| 0 <= i < particles@.len() ==> (#[trigger] particles@[i]).wf(),
            forall|i: int| 0 <= i < old(foods)@.len() ==> (#[trigger] old(foods)@[i]).wf(),
            0 <= delta <= COORD_LIMIT,
            forall|i: int|
                0 <= i < k as int ==> #[trigger] foods@[i] == food_step(
                    old(foods)@[i],
                    particles@,
                    delta as int,
                ),
            forall|i: int| k as int <= i < foods@.len() ==> #[trigger] foods@[i] == old(foods)@[i],
            scores@.len() == old(scores)@.len(),
            awards_from(old(foods)@, particles@, old(scores)@, 0) == awards_from(
                old(foods)@,
                particles@,
                scores@,
                k as int,
            ),
        decreases food_count - k,
    {
        let food = foods[k];
        proof {
            assert(food == old(foods)@[k as int]);
        }
        match food.state {
            FoodState::Consumed => {
                proof {
                    assert(food_step(food, particles@, delta as int) == food);
                    assert(award_one(food, particles@, scores@) == scores@);
                }
            },
            FoodState::Hidden => {
                if food.remaining <= 0 {
                    let cooldown = match food.respawn {
                        Some(c) => c,
                        None => 0,
                    };
                    foods[k] = Food { state: FoodState::Active, remaining: cooldown, ..food };
                } else {
                    let left = if food.remaining - delta < 0 {
                        0
                    } else {
                        food.remaining - delta
                    };
                    foods[k] = Food { remaining: left, ..food };
                }
                proof {
                    assert(award_one(food, particles@, scores@) == scores@);
                }
            },
            FoodState::Active => {
                let particle_count = particles.len();
                let mut t: usize = 0;
                let mut found = false;
                while t < particle_count
                    invariant_except_break
                        !found,
                    invariant
                        particle_count == particles@.len(),
                        t <= particle_count,
                        forall|i: int| 0 <= i < particles@.len() ==> (#[trigger] particles@[i]).wf(),
                        food.wf(),
                        forall|j: int|
                            0 <= j < t as int ==> !touches(#[trigger] particles@[j], food),
                    ensures
                        found ==> t < particle_count && touches(particles@[t as int], food) && (
                        forall|j: int| 0 <= j < t as int ==> !touches(#[trigger] particles@[j], food)),
                        !found ==> forall|j: int|
                            0 <= j < particles@.len() ==> !touches(#[trigger] particles@[j], food),
                    decreases particle_count - t,
                {
                    let diff = particles[t].position.sub(food.position);
                    let d_sq = diff.norm_sq();
                    if d_sq < COLLISION_DISTANCE_SQ as u128 {
                        found = true;
                        break ;
                    }
                    t = t + 1;
                }
                if found {
                    proof {
                        lemma_first_touch(particles@, food, 0, t as int);
                    }
                    let c = particles[t].colony;
                    if c < scores.len() {
                        let s = scores[c];
                        let bumped = if s > COORD_LIMIT - food.value {
                            COORD_LIMIT
                        } else {
                            s + food.value
                        };
                        scores[c] = bumped;
                    }
                    match food.respawn {
                        Some(cooldown) => {
                            foods[k] = Food {
                                state: FoodState::Hidden,
                                remaining: cooldown,
                                ..food
                            };
                        },
                        None => {
                            foods[k] = Food { state: FoodState::Consumed, ..food };
                        },
                    }
                } else {
                    proof {
                        lemma_no_touch(particles@, food, 0);
                        assert(award_one(food, particles@, scores@) == scores@);
                    }
                }
            },
        }
        k = k + 1;
    }
    proof {
        lemma_awards_monotone(old(foods)@, particles@, old(scores)@, 0);
        lemma_awards_bounded(old(foods)@, particles@, old(scores)@, 0);
    }
}

} // verus!
