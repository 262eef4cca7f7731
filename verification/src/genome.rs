//! The evolvable genome: a dense `type_count x type_count` interaction
//! matrix (row-major; entry `a * type_count + b` is the force exerted on
//! type `a` by type `b`) and one food-affinity entry per type. Entries are
//! fixed-point values; lookups are bounds-safe and degrade to a neutral
//! force of zero instead of failing.

use vstd::prelude::*;
use crate::errors::ConfigError;
use crate::fixed::clamp_spec;
use crate::rng::{rand_coin, rand_in_range};

verus! {

/// Lower clamp for any genome entry (-2.0 units).
pub const FORCE_MIN: i64 = -2000;

/// Upper clamp for any genome entry (2.0 units).
pub const FORCE_MAX: i64 = 2000;

/// Magnitude of the uniform initialisation range (1.0 units).
pub const INIT_RANGE: i64 = 1000;

/// Self-interaction entries start in `[DIAG_LOW, DIAG_HIGH]`, a
/// negative-biased band that discourages self-clumping.
pub const DIAG_LOW: i64 = -1000;

/// Upper end of the self-interaction initialisation band (-0.1 units).
pub const DIAG_HIGH: i64 = -100;

/// Largest change a single mutation may apply to an entry (0.2 units).
pub const MUTATION_STEP: i64 = 200;

/// A colony's genome.
pub struct Genome {
    /// Row-major interaction matrix, `type_count * type_count` entries.
    pub force_matrix: Vec<i64>,
    /// Food affinity per particle type, `type_count` entries.
    pub food_forces: Vec<i64>,
    /// Number of particle types the genome covers.
    pub type_count: usize,
}

/// `new` is reachable from `orig` by one mutation step: noise of at most
/// `MUTATION_STEP` followed by the global clamp. For an `orig` already
/// within the clamp this interval is exactly the set of reachable values.
pub open spec fn mutated_entry(orig: int, new: int) -> bool {
    &&& (if orig - MUTATION_STEP < FORCE_MIN {
        FORCE_MIN as int
    } else {
        orig - MUTATION_STEP
    }) <= new
    &&& new <= (if orig + MUTATION_STEP > FORCE_MAX {
        FORCE_MAX as int
    } else {
        orig + MUTATION_STEP
    })
}

/// The value ranges of a freshly drawn random genome: self-interaction
/// entries lie in the negative-biased band, every other interaction and
/// every food affinity within the unit range.
pub open spec fn fresh_random(g: Genome) -> bool {
    &&& g.wf()
    &&& forall|a: int, b: int|
        0 <= a < g.type_count && 0 <= b < g.type_count ==> (if a == b {
            DIAG_LOW <= #[trigger] g.force_spec(a, b) <= DIAG_HIGH
        } else {
            -INIT_RANGE <= g.force_spec(a, b) <= INIT_RANGE
        })
    &&& forall|t: int|
        0 <= t < g.type_count ==> -INIT_RANGE <= #[trigger] g.food_spec(t) <= INIT_RANGE
}

impl Genome {
    /// Well-formedness: the vectors have their advertised lengths and
    /// every entry lies within the global clamp.
    pub open spec fn wf(self) -> bool {
        &&& self.force_matrix@.len() == self.type_count * self.type_count
        &&& self.food_forces@.len() == self.type_count
        &&& forall|i: int|
            0 <= i < self.force_matrix@.len() ==> FORCE_MIN <= #[trigger] self.force_matrix@[i]
                <= FORCE_MAX
        &&& forall|i: int|
            0 <= i < self.food_forces@.len() ==> FORCE_MIN <= #[trigger] self.food_forces@[i]
                <= FORCE_MAX
    }

    /// The interaction force on type `a` from type `b`: the matrix entry
    /// at `a * type_count + b` when both coordinates are in range, and
    /// zero for any out-of-range coordinate pair.
    pub open spec fn force_spec(self, a: int, b: int) -> int {
        let idx = a * self.type_count + b;
        if 0 <= a < self.type_count && 0 <= b < self.type_count && idx < self.force_matrix@.len() {
            self.force_matrix@[idx] as int
        } else {
            0
        }
    }

    /// The food affinity of type `t`, or zero when `t` is out of range.
    pub open spec fn food_spec(self, t: int) -> int {
        if 0 <= t < self.food_forces@.len() {
            self.food_forces@[t] as int
        } else {
            0
        }
    }

    /// An all-zero genome for `type_count` types.
    pub fn new(type_count: usize) -> (r: Genome)
        requires
            type_count * type_count <= usize::MAX,
        ensures
            r.wf(),
            r.type_count == type_count,
            forall|i: int| 0 <= i < r.force_matrix@.len() ==> #[trigger] r.force_matrix@[i] == 0,
            forall|i: int| 0 <= i < r.food_forces@.len() ==> #[trigger] r.food_forces@[i] == 0,
    {
        let matrix_size = type_count * type_count;
        Genome {
            force_matrix: zero_vec(matrix_size),
            food_forces: zero_vec(type_count),
            type_count,
        }
    }

    /// A random genome: self-interaction entries are drawn from the
    /// negative-biased band, all other entries uniformly from
    /// `[-INIT_RANGE, INIT_RANGE]`.
    pub fn random(type_count: usize) -> (r: Genome)
        requires
            1 <= type_count,
            type_count * type_count <= usize::MAX,
        ensures
            r.wf(),
            r.type_count == type_count,
            forall|i: int|
                0 <= i < r.force_matrix@.len() ==> (if i / (type_count as int) == i % (
                type_count as int) {
                    DIAG_LOW <= #[trigger] r.force_matrix@[i] <= DIAG_HIGH
                } else {
                    -INIT_RANGE <= r.force_matrix@[i] <= INIT_RANGE
                }),
            forall|i: int|
                0 <= i < r.food_forces@.len() ==> -INIT_RANGE <= #[trigger] r.food_forces@[i]
                    <= INIT_RANGE,
            fresh_random(r),
    {
        let matrix_size = type_count * type_count;
        let mut force_matrix: Vec<i64> = Vec::new();
        let mut i: usize = 0;
        while i < matrix_size
            invariant
                1 <= type_count,
                i <= matrix_size,
                force_matrix@.len() == i,
                forall|j: int|
                    0 <= j < i as int ==> (if j / (type_count as int) == j % (type_count as int) {
                        DIAG_LOW <= #[trigger] force_matrix@[j] <= DIAG_HIGH
                    } else {
                        -INIT_RANGE <= force_matrix@[j] <= INIT_RANGE
                    }),
            decreases matrix_size - i,
        {
            let type_a = i / type_count;
            let type_b = i % type_count;
            let entry = if type_a == type_b {
                rand_in_range(DIAG_LOW, DIAG_HIGH)
            } else {
                rand_in_range(-INIT_RANGE, INIT_RANGE)
            };
            force_matrix.push(entry);
            i = i + 1;
        }
        let mut food_forces: Vec<i64> = Vec::new();
        let mut t: usize = 0;
        while t < type_count
            invariant
                t <= type_count,
                food_forces@.len() == t,
                forall|j: int|
                    0 <= j < t as int ==> -INIT_RANGE <= #[trigger] food_forces@[j] <= INIT_RANGE,
            decreases type_count - t,
        {
            food_forces.push(rand_in_range(-INIT_RANGE, INIT_RANGE));
            t = t + 1;
        }
        let result = Genome { force_matrix, food_forces, type_count };
        proof {
            assert forall|a: int, b: int|
                0 <= a < result.type_count && 0 <= b < result.type_count implies (if a == b {
                DIAG_LOW <= #[trigger] result.force_spec(a, b) <= DIAG_HIGH
            } else {
                -INIT_RANGE <= result.force_spec(a, b) <= INIT_RANGE
            }) by {
                let tc = result.type_count as int;
                let idx = a * tc + b;
                assert(a * tc == tc * a) by (nonlinear_arith);
                vstd::arithmetic::div_mod::lemma_div_multiples_vanish_fancy(a, b, tc);
                vstd::arithmetic::div_mod::lemma_fundamental_div_mod(idx, tc);
                assert(idx / tc == a && idx % tc == b);
                assert(idx < tc * tc) by (nonlinear_arith)
                    requires
                        0 <= a < tc,
                        0 <= b < tc,
                        idx == a * tc + b,
                {}
                assert(result.force_spec(a, b) == result.force_matrix@[idx]);
            }
        }
        result
    }

    /// Bounds-safe interaction lookup; any out-of-range coordinate
    /// yields zero.
    pub fn get_force(&self, type_a: usize, type_b: usize) -> (r: i64)
        ensures
            r as int == self.force_spec(type_a as int, type_b as int),
    {
        if type_a < self.type_count && type_b < self.type_count {
            let n = self.force_matrix.len();
            if let Some(scaled) = type_a.checked_mul(self.type_count) {
                if let Some(idx) = scaled.checked_add(type_b) {
                    if idx < n {
                        return self.force_matrix[idx];
                    }
                }
            }
        }
        0
    }

    /// Writes the entry for `(type_a, type_b)`; any out-of-range
    /// coordinate leaves the genome unchanged.
    pub fn set_force(&mut self, type_a: usize, type_b: usize, force: i64)
        requires
            FORCE_MIN <= force <= FORCE_MAX,
        ensures
            final(self).type_count == old(self).type_count,
            final(self).food_forces@ == old(self).food_forces@,
            final(self).force_matrix@ == (if type_a < old(self).type_count && type_b < old(
                self,
            ).type_count && (type_a as int) * old(self).type_count + type_b < old(
                self,
            ).force_matrix@.len() {
                old(self).force_matrix@.update(
                    (type_a as int) * old(self).type_count + type_b,
                    force,
                )
            } else {
                old(self).force_matrix@
            }),
            old(self).wf() ==> final(self).wf(),
    {
        if type_a < self.type_count && type_b < self.type_count {
            let n = self.force_matrix.len();
            if let Some(scaled) = type_a.checked_mul(self.type_count) {
                if let Some(idx) = scaled.checked_add(type_b) {
                    if idx < n {
                        self.force_matrix[idx] = force;
                    }
                }
            }
        }
    }

    /// Bounds-safe food-affinity lookup; out-of-range indices yield zero.
    pub fn get_food_force(&self, particle_type: usize) -> (r: i64)
        ensures
            r as int == self.food_spec(particle_type as int),
    {
        if particle_type < self.food_forces.len() {
            self.food_forces[particle_type]
        } else {
            0
        }
    }

    /// An exact copy.
    pub fn duplicate(&self) -> (r: Genome)
        ensures
            r.force_matrix@ == self.force_matrix@,
            r.food_forces@ == self.food_forces@,
            r.type_count == self.type_count,
    {
        Genome {
            force_matrix: copy_vec(&self.force_matrix),
            food_forces: copy_vec(&self.food_forces),
            type_count: self.type_count,
        }
    }

    /// Element-wise uniform crossover: every entry of the child equals the
    /// corresponding entry of one of the two parents.
    pub fn crossover(&self, other: &Genome) -> (r: Genome)
        requires
            self.wf(),
            other.wf(),
            self.type_count == other.type_count,
        ensures
            r.wf(),
            r.type_count == self.type_count,
            forall|i: int|
                0 <= i < r.force_matrix@.len() ==> #[trigger] r.force_matrix@[i]
                    == self.force_matrix@[i] || r.force_matrix@[i] == other.force_matrix@[i],
            forall|i: int|
                0 <= i < r.food_forces@.len() ==> #[trigger] r.food_forces@[i]
                    == self.food_forces@[i] || r.food_forces@[i] == other.food_forces@[i],
    {
        let n = self.force_matrix.len();
        let mut force_matrix: Vec<i64> = Vec::new();
        let mut i: usize = 0;
        while i < n
            invariant
                n == self.force_matrix@.len(),
                n == other.force_matrix@.len(),
                i <= n,
                force_matrix@.len() == i,
                forall|j: int|
                    0 <= j < i as int ==> #[trigger] force_matrix@[j] == self.force_matrix@[j]
                        || force_matrix@[j] == other.force_matrix@[j],
            decreases n - i,
        {
            if rand_coin() {
                force_matrix.push(self.force_matrix[i]);
            } else {
                force_matrix.push(other.force_matrix[i]);
            }
            i = i + 1;
        }
        let m = self.food_forces.len();
        let mut food_forces: Vec<i64> = Vec::new();
        let mut t: usize = 0;
        while t < m
            invariant
                m == self.food_forces@.len(),
                m == other.food_forces@.len(),
                t <= m,
                food_forces@.len() == t,
                forall|j: int|
                    0 <= j < t as int ==> #[trigger] food_forces@[j] == self.food_forces@[j]
                        || food_forces@[j] == other.food_forces@[j],
            decreases m - t,
        {
            if rand_coin() {
                food_forces.push(self.food_forces[t]);
            } else {
                food_forces.push(other.food_forces[t]);
            }
            t = t + 1;
        }
        Genome { force_matrix, food_forces, type_count: self.type_count }
    }

    /// Crossover with the type-count precondition checked at run time:
    /// mismatched parents are a configuration error, never a fault.
    pub fn crossover_checked(&self, other: &Genome) -> (r: Result<Genome, ConfigError>)
        requires
            self.wf(),
            other.wf(),
        ensures
            self.type_count != other.type_count <==> r === Err(
                ConfigError::GenomeTypeCountMismatch,
            ),
            r matches Ok(g) ==> {
                &&& g.wf()
                &&& g.type_count == self.type_count
                &&& forall|i: int|
                    0 <= i < g.force_matrix@.len() ==> #[trigger] g.force_matrix@[i]
                        == self.force_matrix@[i] || g.force_matrix@[i] == other.force_matrix@[i]
                &&& forall|i: int|
                    0 <= i < g.food_forces@.len() ==> #[trigger] g.food_forces@[i]
                        == self.food_forces@[i] || g.food_forces@[i] == other.food_forces@[i]
            },
    {
        if self.type_count != other.type_count {
            Err(ConfigError::GenomeTypeCountMismatch)
        } else {
            Ok(self.crossover(other))
        }
    }

    /// Mutation: each interaction entry changes with probability
    /// `rate / SCALE`, each food entry with half that probability; a change
    /// adds uniform noise of at most `MUTATION_STEP` and re-clamps.
    pub fn mutate(&mut self, rate: i64)
        requires
            old(self).wf(),
            0 <= rate <= 1000,
        ensures
            final(self).wf(),
            final(self).type_count == old(self).type_count,
            final(self).force_matrix@.len() == old(self).force_matrix@.len(),
            final(self).food_forces@.len() == old(self).food_forces@.len(),
            forall|i: int|
                0 <= i < final(self).force_matrix@.len() ==> mutated_entry(
                    old(self).force_matrix@[i] as int,
                    #[trigger] final(self).force_matrix@[i] as int,
                ),
            forall|i: int|
                0 <= i < final(self).food_forces@.len() ==> mutated_entry(
                    old(self).food_forces@[i] as int,
                    #[trigger] final(self).food_forces@[i] as int,
                ),
    {
        let n = self.force_matrix.len();
        let mut i: usize = 0;
        while i < n
            invariant
                n == self.force_matrix@.len(),
                self.force_matrix@.len() == old(self).force_matrix@.len(),
                self.food_forces@ == old(self).food_forces@,
                self.type_count == old(self).type_count,
                i <= n,
                forall|j: int|
                    0 <= j < self.force_matrix@.len() ==> FORCE_MIN
                        <= #[trigger] self.force_matrix@[j] <= FORCE_MAX,
                forall|j: int|
                    0 <= j < i as int ==> mutated_entry(
                        old(self).force_matrix@[j] as int,
                        #[trigger] self.force_matrix@[j] as int,
                    ),
                forall|j: int|
                    i as int <= j < self.force_matrix@.len() ==> #[trigger] self.force_matrix@[j]
                        == old(self).force_matrix@[j],
            decreases n - i,
        {
            if rand_in_range(0, 999) < rate {
                let noise = rand_in_range(-MUTATION_STEP, MUTATION_STEP);
                let bumped = self.force_matrix[i] + noise;
                let entry = clamp_i64_entry(bumped);
                self.force_matrix[i] = entry;
            }
            i = i + 1;
        }
        let food_rate = rate / 2;
        let m = self.food_forces.len();
        let mut t: usize = 0;
        while t < m
            invariant
                0 <= food_rate <= 1000,
                m == self.food_forces@.len(),
                self.food_forces@.len() == old(self).food_forces@.len(),
                self.force_matrix@.len() == old(self).force_matrix@.len(),
                self.type_count == old(self).type_count,
                t <= m,
                forall|j: int|
                    0 <= j < self.force_matrix@.len() ==> FORCE_MIN
                        <= #[trigger] self.force_matrix@[j] <= FORCE_MAX,
                forall|j: int|
                    0 <= j < self.force_matrix@.len() ==> mutated_entry(
                        old(self).force_matrix@[j] as int,
                        #[trigger] self.force_matrix@[j] as int,
                    ),
                forall|j: int|
                    0 <= j < self.food_forces@.len() ==> FORCE_MIN
                        <= #[trigger] self.food_forces@[j] <= FORCE_MAX,
                forall|j: int|
                    0 <= j < t as int ==> mutated_entry(
                        old(self).food_forces@[j] as int,
                        #[trigger] self.food_forces@[j] as int,
                    ),
                forall|j: int|
                    t as int <= j < self.food_forces@.len() ==> #[trigger] self.food_forces@[j]
                        == old(self).food_forces@[j],
            decreases m - t,
        {
            if rand_in_range(0, 999) < food_rate {
                let noise = rand_in_range(-MUTATION_STEP, MUTATION_STEP);
                let bumped = self.food_forces[t] + noise;
                let entry = clamp_i64_entry(bumped);
                self.food_forces[t] = entry;
            }
            t = t + 1;
        }
    }

    /// Installs hand-tuned forces: a cyclic pursuit table for three
    /// types, a richer attract/repel table for four, and random
    /// negative-diagonal forces for any other count.
    pub fn set_interesting_forces(&mut self)
        requires
            old(self).wf(),
        ensures
            final(self).wf(),
            final(self).type_count == old(self).type_count,
            final(self).force_matrix@.len() == old(self).force_matrix@.len(),
            final(self).food_forces@.len() == old(self).food_forces@.len(),
            old(self).type_count == 3 ==> final(self).force_matrix@ == seq![-300i64, 1000i64, -500i64, -500i64, -300i64, 1000i64, 1000i64, -500i64, -300i64] && final(self).food_forces@ == seq![800i64, -300i64, 500i64],
            old(self).type_count == 4 ==> final(self).force_matrix@ == seq![-400i64, 1500i64, -1000i64, 0i64, 0i64, -400i64, 800i64, -800i64, -600i64, 0i64, -400i64, 1200i64, 600i64, -1200i64, 0i64, -400i64] && final(self).food_forces@ == seq![600i64, -400i64, 800i64, -200i64],
    {
        let n = self.force_matrix.len();
        let mut i: usize = 0;
        while i < n
            invariant
                n == self.force_matrix@.len(),
                i <= n,
                self.type_count == old(self).type_count,
                self.force_matrix@.len() == old(self).force_matrix@.len(),
                self.food_forces@ == old(self).food_forces@,
                forall|j: int| 0 <= j < i as int ==> #[trigger] self.force_matrix@[j] == 0,
                forall|j: int|
                    0 <= j < self.force_matrix@.len() ==> FORCE_MIN
                        <= #[trigger] self.force_matrix@[j] <= FORCE_MAX,
            decreases n - i,
        {
            self.force_matrix[i] = 0;
            i = i + 1;
        }
        let m = self.food_forces.len();
        let mut t: usize = 0;
        while t < m
            invariant
                m == self.food_forces@.len(),
                t <= m,
                self.type_count == old(self).type_count,
                self.force_matrix@.len() == old(self).force_matrix@.len(),
                forall|j: int| 0 <= j < self.force_matrix@.len() ==> #[trigger] self.force_matrix@[j] == 0,
                forall|j: int| 0 <= j < t as int ==> #[trigger] self.food_forces@[j] == 0,
                forall|j: int|
                    0 <= j < self.food_forces@.len() ==> FORCE_MIN
                        <= #[trigger] self.food_forces@[j] <= FORCE_MAX,
            decreases m - t,
        {
            self.food_forces[t] = 0;
            t = t + 1;
        }
        if self.type_count == 3 {
            // Cyclic pursuit: each type chases the next and repels the
            // previous.
            self.set_force(0, 1, 1000);
            self.set_force(1, 2, 1000);
            self.set_force(2, 0, 1000);
            self.set_force(1, 0, -500);
            self.set_force(2, 1, -500);
            self.set_force(0, 2, -500);
            self.set_force(0, 0, -300);
            self.set_force(1, 1, -300);
            self.set_force(2, 2, -300);
            self.food_forces[0] = 800;
            self.food_forces[1] = -300;
            self.food_forces[2] = 500;
            proof {
                assert(self.force_matrix@ =~= seq![-300i64, 1000i64, -500i64, -500i64, -300i64, 1000i64, 1000i64, -500i64, -300i64]);
                assert(self.food_forces@ =~= seq![800i64, -300i64, 500i64]);
            }
        } else if self.type_count == 4 {
            // A richer web of attractions with crossed repulsions.
            self.set_force(0, 1, 1500);
            self.set_force(1, 2, 800);
            self.set_force(2, 3, 1200);
            self.set_force(3, 0, 600);
            self.set_force(0, 2, -1000);
            self.set_force(1, 3, -800);
            self.set_force(2, 0, -600);
            self.set_force(3, 1, -1200);
            self.set_force(0, 0, -400);
            self.set_force(1, 1, -400);
            self.set_force(2, 2, -400);
            self.set_force(3, 3, -400);
            self.food_forces[0] = 600;
            self.food_forces[1] = -400;
            self.food_forces[2] = 800;
            self.food_forces[3] = -200;
            proof {
                assert(self.force_matrix@ =~= seq![-400i64, 1500i64, -1000i64, 0i64, 0i64, -400i64, 800i64, -800i64, -600i64, 0i64, -400i64, 1200i64, 600i64, -1200i64, 0i64, -400i64]);
                assert(self.food_forces@ =~= seq![600i64, -400i64, 800i64, -200i64]);
            }
        } else {
            let tc = self.type_count;
            let mut a: usize = 0;
            while a < tc
                invariant
                    a <= tc,
                    tc == self.type_count,
                    self.type_count == old(self).type_count,
                    self.force_matrix@.len() == old(self).force_matrix@.len(),
                    self.food_forces@.len() == old(self).food_forces@.len(),
                    self.food_forces@.len() == tc,
                    forall|j: int|
                        0 <= j < self.force_matrix@.len() ==> FORCE_MIN
                            <= #[trigger] self.force_matrix@[j] <= FORCE_MAX,
                    forall|j: int|
                        0 <= j < self.food_forces@.len() ==> FORCE_MIN
                            <= #[trigger] self.food_forces@[j] <= FORCE_MAX,
                decreases tc - a,
            {
                let mut b: usize = 0;
                while b < tc
                    invariant
                        b <= tc,
                        a < tc,
                        tc == self.type_count,
                        self.type_count == old(self).type_count,
                        self.force_matrix@.len() == old(self).force_matrix@.len(),
                        self.food_forces@.len() == tc,
                        self.food_forces@.len() == old(self).food_forces@.len(),
                        forall|j: int|
                            0 <= j < self.force_matrix@.len() ==> FORCE_MIN
                                <= #[trigger] self.force_matrix@[j] <= FORCE_MAX,
                        forall|j: int|
                            0 <= j < self.food_forces@.len() ==> FORCE_MIN
                                <= #[trigger] self.food_forces@[j] <= FORCE_MAX,
                    decreases tc - b,
                {
                    let entry = if a == b {
                        rand_in_range(-500, DIAG_HIGH)
                    } else {
                        rand_in_range(-INIT_RANGE, INIT_RANGE)
                    };
                    self.set_force(a, b, entry);
                    b = b + 1;
                }
                self.food_forces[a] = rand_in_range(-INIT_RANGE, INIT_RANGE);
                a = a + 1;
            }
        }
    }

    /// The interaction matrix as rows, `r[a][b] == force_spec(a, b)`.
    pub fn get_force_matrix(&self) -> (r: Vec<Vec<i64>>)
        requires
            self.wf(),
        ensures
            r@.len() == self.type_count,
            forall|a: int|
                0 <= a < r@.len() ==> (#[trigger] r@[a])@.len() == self.type_count,
            forall|a: int, b: int|
                0 <= a < r@.len() && 0 <= b < r@[a]@.len() ==> (#[trigger] r@[a]@[b]) as int
                    == self.force_spec(a, b),
    {
        let mut rows: Vec<Vec<i64>> = Vec::new();
        let mut a: usize = 0;
        while a < self.type_count
            invariant
                self.wf(),
                a <= self.type_count,
                rows@.len() == a,
                forall|x: int| 0 <= x < a as int ==> (#[trigger] rows@[x])@.len() == self.type_count,
                forall|x: int, y: int|
                    0 <= x < a as int && 0 <= y < rows@[x]@.len() ==> (#[trigger] rows@[x]@[y]) as int
                        == self.force_spec(x, y),
            decreases self.type_count - a,
        {
            let mut row: Vec<i64> = Vec::new();
            let mut b: usize = 0;
            while b < self.type_count
                invariant
                    self.wf(),
                    a < self.type_count,
                    b <= self.type_count,
                    row@.len() == b,
                    forall|y: int|
                        0 <= y < b as int ==> (#[trigger] row@[y]) as int == self.force_spec(
                            a as int,
                            y,
                        ),
                decreases self.type_count - b,
            {
                row.push(self.get_force(a, b));
                b = b + 1;
            }
            rows.push(row);
            a = a + 1;
        }
        rows
    }
}

/// A vector of `n` zeros.
fn zero_vec(n: usize) -> (r: Vec<i64>)
    ensures
        r@.len() == n,
        forall|i: int| 0 <= i < n as int ==> #[trigger] r@[i] == 0,
{
    let mut v: Vec<i64> = Vec::new();
    let mut i: usize = 0;
    while i < n
        invariant
            i <= n,
            v@.len() == i,
            forall|j: int| 0 <= j < i as int ==> #[trigger] v@[j] == 0,
        decreases n - i,
    {
        v.push(0);
        i = i + 1;
    }
    v
}

/// An element-wise copy.
pub fn copy_vec(v: &Vec<i64>) -> (r: Vec<i64>)
    ensures
        r@ == v@,
{
    let mut out: Vec<i64> = Vec::new();
    let mut i: usize = 0;
    while i < v.len()
        invariant
            i <= v@.len(),
            out@ == v@.subrange(0, i as int),
        decreases v@.len() - i,
    {
        out.push(v[i]);
        proof {
            assert(out@ == v@.subrange(0, i + 1 as int));
        }
        i = i + 1;
    }
    proof {
        assert(v@.subrange(0, v@.len() as int) == v@);
    }
    out
}

/// Clamp into the global genome-entry range.
fn clamp_i64_entry(x: i64) -> (r: i64)
    requires
        i64::MIN < x,
    ensures
        r as int == clamp_spec(x as int, FORCE_MIN as int, FORCE_MAX as int),
        FORCE_MIN <= r <= FORCE_MAX,
{
    if x < FORCE_MIN {
        FORCE_MIN
    } else if x > FORCE_MAX {
        FORCE_MAX
    } else {
        x
    }
}

} // verus!
