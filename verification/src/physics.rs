//! The force field and integrator: per-particle net force from
//! genome-weighted neighbour and food interactions, velocity/position
//! integration with exponential decay and a speed cap, and the boundary
//! containment. Forces are computed for all particles from the state at
//! tick start and only then applied, so the computation is
//! order-independent and batchable.

use vstd::prelude::*;
use crate::boundary::{
    bounce_pos_axis, bounce_vel_axis, direction, torus_axis, wrap_pos_axis,
};
use crate::entities::Particle;
use crate::fixed::{
    abs_spec, fx_div, fx_div_spec, fx_mul, fx_mul_spec, isqrt, lemma_div_le, lemma_fx_mul_bound,
    lemma_tdiv_bound, mul_div, sqrt_floor, tdiv, tdiv_i64, SCALE,
};
use crate::genome::Genome;
use crate::params::{
    BoundaryMode, GridParameters, COORD_LIMIT, COUNT_LIMIT, FORCE_SCALE_FACTOR, MAX_INTERACTIONS,
    MAX_VELOCITY, MIN_DISTANCE_SQ, PHYSICS_TIMESTEP,
};
use crate::vec3::{in_box, norm_sq_spec, Vec3Fx};

verus! {

/// One axis of the displacement used by the force pass: plain difference
/// under `Bounce`, minimal toroidal displacement under `Teleport`.
pub open spec fn direction_axis(d: int, extent: int, mode: BoundaryMode) -> int {
    if mode is Teleport {
        torus_axis(d, extent)
    } else {
        d
    }
}

/// The piecewise pair-force magnitude over normalized distances: purely
/// repulsive and linear below the repulsion radius, else the attraction
/// scaled by a tent curve that vanishes at the radius and at full range.
pub open spec fn pair_force(n_dist: int, min_r_n: int, attraction: int) -> int {
    if n_dist < min_r_n {
        fx_div_spec(n_dist, min_r_n) - 1000
    } else {
        fx_mul_spec(
            attraction,
            1000 - fx_div_spec(abs_spec(1000 + min_r_n - 2 * n_dist), 1000 - min_r_n),
        )
    }
}

/// The acceleration a neighbour at displacement `rel` induces: the
/// pair force along the unit direction of `rel`, or zero when the two
/// particles (almost) coincide.
pub open spec fn acceleration_spec(min_r: int, rel: Vec3Fx, attraction: int, range: int) -> (
    int,
    int,
    int,
) {
    let dist = sqrt_floor(norm_sq_spec(rel));
    if dist < 1 {
        (0, 0, 0)
    } else {
        let n_dist = fx_div_spec(dist, range);
        let min_r_n = fx_div_spec(min_r, range);
        let f = pair_force(n_dist, min_r_n, attraction);
        (tdiv(rel.x * f, dist), tdiv(rel.y * f, dist), tdiv(rel.z * f, dist))
    }
}

/// Exact twin of `acceleration_spec`. The magnitude of every component
/// is bounded by the attraction's magnitude or the unit repulsion,
/// whichever is larger.
pub fn calculate_acceleration(min_r: i64, relative_pos: Vec3Fx, attraction: i64, max_force_range: i64) -> (r:
    Vec3Fx)
    requires
        0 < min_r < max_force_range <= COORD_LIMIT,
        abs_spec(attraction as int) <= 200_000,
        norm_sq_spec(relative_pos) <= (max_force_range as int) * (max_force_range as int),
        in_box(relative_pos, 3 * COORD_LIMIT as int),
    ensures
        (r.x as int, r.y as int, r.z as int) == acceleration_spec(
            min_r as int,
            relative_pos,
            attraction as int,
            max_force_range as int,
        ),
        in_box(r, 200_000),
{
    let dist = relative_pos.norm();
    if dist < 1 {
        return Vec3Fx::zero();
    }
    proof {
        assert(dist <= max_force_range) by (nonlinear_arith)
            requires
                0 <= dist,
                0 < max_force_range,
                (dist as int) * (dist as int) <= (max_force_range as int) * (
                max_force_range as int),
        {}
        assert((dist as int) * (SCALE as int) <= i64::MAX * (max_force_range as int))
            by (nonlinear_arith)
            requires
                0 <= dist <= max_force_range,
                0 < max_force_range,
        {}
        assert((min_r as int) * (SCALE as int) <= i64::MAX * (max_force_range as int))
            by (nonlinear_arith)
            requires
                0 < min_r < max_force_range,
        {}
    }
    let n_dist = fx_div(dist, max_force_range);
    let min_r_n = fx_div(min_r, max_force_range);
    proof {
        vstd::arithmetic::div_mod::lemma_div_pos_is_pos((dist as int) * (SCALE as int), max_force_range as int);
        vstd::arithmetic::div_mod::lemma_div_pos_is_pos((min_r as int) * (SCALE as int), max_force_range as int);
        assert((dist as int) * (SCALE as int) <= 1000 * (max_force_range as int))
            by (nonlinear_arith)
            requires
                0 <= dist <= max_force_range,
                0 < max_force_range,
        {}
        lemma_div_le((dist as int) * (SCALE as int), max_force_range as int, 1000);
        assert((min_r as int) * (SCALE as int) < (max_force_range as int) * 1000)
            by (nonlinear_arith)
            requires
                0 < min_r < max_force_range,
        {}
        vstd::arithmetic::div_mod::lemma_multiply_divide_lt(
            (min_r as int) * (SCALE as int),
            max_force_range as int,
            1000,
        );
        assert(0 <= n_dist <= 1000);
        assert(0 <= min_r_n < 1000);
    }
    let force: i64 = if n_dist < min_r_n {
        proof {
            assert((n_dist as int) * (SCALE as int) < (min_r_n as int) * 1000) by (nonlinear_arith)
                requires
                    0 <= n_dist < min_r_n,
            {}
            vstd::arithmetic::div_mod::lemma_multiply_divide_lt(
                (n_dist as int) * (SCALE as int),
                min_r_n as int,
                1000,
            );
            vstd::arithmetic::div_mod::lemma_div_pos_is_pos(
                (n_dist as int) * (SCALE as int),
                min_r_n as int,
            );
        }
        fx_div(n_dist, min_r_n) - 1000
    } else {
        let arg = 1000 + min_r_n - 2 * n_dist;
        let arg_abs = if arg >= 0 {
            arg
        } else {
            -arg
        };
        proof {
            assert(arg_abs <= 1000 - min_r_n);
            assert((arg_abs as int) * (SCALE as int) <= 1000 * ((1000 - min_r_n) as int))
                by (nonlinear_arith)
                requires
                    0 <= arg_abs <= 1000 - min_r_n,
            {}
            lemma_div_le((arg_abs as int) * (SCALE as int), (1000 - min_r_n) as int, 1000);
            vstd::arithmetic::div_mod::lemma_div_pos_is_pos(
                (arg_abs as int) * (SCALE as int),
                (1000 - min_r_n) as int,
            );
        }
        let ratio = fx_div(arg_abs, 1000 - min_r_n);
        proof {
            assert(abs_spec(attraction as int) * abs_spec((1000 - ratio) as int) <= i64::MAX * (
            SCALE as int)) by (nonlinear_arith)
                requires
                    abs_spec(attraction as int) <= 200_000,
                    0 <= ratio <= 1000,
            {}
            crate::fixed::lemma_fx_mul_bound(attraction as int, (1000 - ratio) as int, 200_000, 1000);
        }
        fx_mul(attraction, 1000 - ratio)
    };
    proof {
        assert(abs_spec(force as int) <= 200_000);
        lemma_component_products(relative_pos, force as int, dist as int);
    }
    let px: i64 = relative_pos.x * force;
    let py: i64 = relative_pos.y * force;
    let pz: i64 = relative_pos.z * force;
    let r = Vec3Fx { x: tdiv_i64(px, dist), y: tdiv_i64(py, dist), z: tdiv_i64(pz, dist) };
    proof {
        lemma_tdiv_bound(px as int, dist as int, 200_000);
        lemma_tdiv_bound(py as int, dist as int, 200_000);
        lemma_tdiv_bound(pz as int, dist as int, 200_000);
    }
    r
}

/// One synchronized physics timestep over the whole population: every
/// particle's force is computed from the shared tick-start state, and
/// only then is every particle integrated.
pub open spec fn physics_iteration(
    particles: Seq<Particle>,
    genomes: Seq<Genome>,
    foods: Seq<Vec3Fx>,
    grid: GridParameters,
    mode: BoundaryMode,
    min_r: int,
    range: int,
    decay: int,
) -> Seq<Particle> {
    Seq::new(
        particles.len(),
        |i: int|
            {
                let f = net_force_spec(particles, i, genomes, foods, grid, mode, min_r, range);
                integrate_spec(
                    particles[i],
                    Vec3Fx { x: f.0 as i64, y: f.1 as i64, z: f.2 as i64 },
                    true,
                    decay,
                    grid,
                    mode,
                )
            },
    )
}

/// `k` physics timesteps in sequence, each reading the previous step's
/// committed state.
pub open spec fn iterate_physics(
    particles: Seq<Particle>,
    k: nat,
    genomes: Seq<Genome>,
    foods: Seq<Vec3Fx>,
    grid: GridParameters,
    mode: BoundaryMode,
    min_r: int,
    range: int,
    decay: int,
) -> Seq<Particle>
    decreases k,
{
    if k == 0 {
        particles
    } else {
        physics_iteration(
            iterate_physics(particles, (k - 1) as nat, genomes, foods, grid, mode, min_r, range, decay),
            genomes,
            foods,
            grid,
            mode,
            min_r,
            range,
            decay,
        )
    }
}

/// Each coordinate of a displacement, scaled by a bounded force, stays
/// within machine range and within `200_000 * dist`.
proof fn lemma_component_products(rel: Vec3Fx, force: int, dist: int)
    requires
        1 <= dist,
        abs_spec(force) <= 200_000,
        abs_spec(rel.x as int) <= dist,
        abs_spec(rel.y as int) <= dist,
        abs_spec(rel.z as int) <= dist,
        dist <= 1_000_000_000,
    ensures
        abs_spec((rel.x as int) * force) <= 200_000 * dist,
        abs_spec((rel.y as int) * force) <= 200_000 * dist,
        abs_spec((rel.z as int) * force) <= 200_000 * dist,
        abs_spec((rel.x as int) * force) <= i64::MAX,
        abs_spec((rel.y as int) * force) <= i64::MAX,
        abs_spec((rel.z as int) * force) <= i64::MAX,
        i64::MIN < (rel.x as int) * force,
        i64::MIN < (rel.y as int) * force,
        i64::MIN < (rel.z as int) * force,
{
    assert(abs_spec((rel.x as int) * force) <= 200_000 * dist && abs_spec((rel.x as int) * force)
        <= i64::MAX) by (nonlinear_arith)
        requires
            1 <= dist,
            abs_spec(force) <= 200_000,
            abs_spec(rel.x as int) <= dist,
            dist <= 1_000_000_000,
    {}
    assert(abs_spec((rel.y as int) * force) <= 200_000 * dist && abs_spec((rel.y as int) * force)
        <= i64::MAX) by (nonlinear_arith)
        requires
            1 <= dist,
            abs_spec(force) <= 200_000,
            abs_spec(rel.y as int) <= dist,
            dist <= 1_000_000_000,
    {}
    assert(abs_spec((rel.z as int) * force) <= 200_000 * dist && abs_spec((rel.z as int) * force)
        <= i64::MAX) by (nonlinear_arith)
        requires
            1 <= dist,
            abs_spec(force) <= 200_000,
            abs_spec(rel.z as int) <= dist,
            dist <= 1_000_000_000,
    {}
}

/// Square root of a probability-like fixed-point value.
fn sqrt_fx(x: i64) -> (r: i64)
    requires
        0 <= x <= 1000,
    ensures
        r as int == sqrt_floor(x * (SCALE as int)),
        0 <= r <= 1000,
{
    let r = isqrt((x as u128) * 1000);
    proof {
        assert(r as int <= 1000) by (nonlinear_arith)
            requires
                0 <= r as int,
                (r as int) * (r as int) <= (x as int) * 1000,
                (x as int) * 1000 <= 1_000_000,
        {}
    }
    r as i64
}

/// The fractional-exponent half-power: one round per binary digit of the
/// remaining exponent, multiplying in the current half-power root when
/// the digit is set.
pub open spec fn frac_pow_spec(frac: int, cur: int, acc: int, rounds: nat) -> int
    decreases rounds,
{
    if rounds == 0 {
        acc
    } else {
        let doubled = frac * 2;
        if doubled >= 1000 {
            frac_pow_spec(
                doubled - 1000,
                sqrt_floor(cur * (SCALE as int)),
                fx_mul_spec(acc, cur),
                (rounds - 1) as nat,
            )
        } else {
            frac_pow_spec(doubled, sqrt_floor(cur * (SCALE as int)), acc, (rounds - 1) as nat)
        }
    }
}

/// Halving `x` a non-negative number of times.
pub open spec fn half_shift(x: int, k: int) -> int
    decreases k,
{
    if k <= 0 {
        x
    } else {
        half_shift(x, k - 1) / 2
    }
}

/// The per-tick exponential decay factor `0.5 ^ (dt / half_life)` in
/// fixed point: the integer part of the exponent halves, the fractional
/// part is resolved digit by digit through iterated square roots; ten or
/// more integral halvings round to zero.
pub open spec fn decay_spec(dt: int, half_life: int) -> int {
    let q = fx_div_spec(dt, half_life);
    if q / 1000 >= 10 {
        0
    } else {
        frac_pow_spec(q % 1000, sqrt_floor(500 * (SCALE as int)), half_shift(1000, q / 1000), 10)
    }
}

/// A `frac_pow_spec` result from in-range arguments stays in range.
proof fn lemma_frac_pow_bounds(frac: int, cur: int, acc: int, rounds: nat)
    requires
        0 <= frac < 1000,
        0 <= cur <= 1000,
        0 <= acc <= 1000,
    ensures
        0 <= frac_pow_spec(frac, cur, acc, rounds) <= 1000,
    decreases rounds,
{
    if rounds > 0 {
        crate::fixed::lemma_sqrt_floor_props(cur * (SCALE as int));
        assert(sqrt_floor(cur * (SCALE as int)) <= 1000) by (nonlinear_arith)
            requires
                0 <= sqrt_floor(cur * (SCALE as int)),
                sqrt_floor(cur * (SCALE as int)) * sqrt_floor(cur * (SCALE as int)) <= cur * (
                SCALE as int),
                0 <= cur * (SCALE as int) <= 1_000_000,
        {}
        assert(0 <= cur * (SCALE as int) <= 1_000_000) by (nonlinear_arith)
            requires
                0 <= cur <= 1000,
        {}
        crate::fixed::lemma_fx_mul_bound(acc, cur, 1000, 1000);
        assert(0 <= acc * cur) by (nonlinear_arith)
            requires
                0 <= acc,
                0 <= cur,
        {}
        vstd::arithmetic::div_mod::lemma_div_pos_is_pos(acc * cur, SCALE as int);
        assert(tdiv(1_000_000int, SCALE as int) == 1000);
        let doubled = frac * 2;
        if doubled >= 1000 {
            lemma_frac_pow_bounds(
                doubled - 1000,
                sqrt_floor(cur * (SCALE as int)),
                fx_mul_spec(acc, cur),
                (rounds - 1) as nat,
            );
        } else {
            lemma_frac_pow_bounds(
                doubled,
                sqrt_floor(cur * (SCALE as int)),
                acc,
                (rounds - 1) as nat,
            );
        }
    }
}

/// Exact twin of `decay_spec`; the factor is a probability-like value.
pub fn decay_factor(dt: i64, half_life: i64) -> (r: i64)
    requires
        0 < dt <= COORD_LIMIT,
        0 < half_life <= COORD_LIMIT,
    ensures
        r as int == decay_spec(dt as int, half_life as int),
        0 <= r <= 1000,
{
    proof {
        assert((dt as int) * (SCALE as int) <= i64::MAX * (half_life as int)) by (nonlinear_arith)
            requires
                0 < dt <= 1_000_000_000,
                0 < half_life,
        {}
    }
    let q = fx_div(dt, half_life);
    proof {
        vstd::arithmetic::div_mod::lemma_div_pos_is_pos((dt as int) * (SCALE as int), half_life as int);
        lemma_tdiv_bound((dt as int) * (SCALE as int), half_life as int, 1_000_000_000_000);
        assert(abs_spec((dt as int) * (SCALE as int)) <= 1_000_000_000_000 * (half_life as int))
            by (nonlinear_arith)
            requires
                0 < dt <= 1_000_000_000,
                0 < half_life,
        {}
    }
    let ip = tdiv_i64(q, 1000);
    proof {
        assert(tdiv(q as int, 1000) == (q as int) / 1000);
        vstd::arithmetic::div_mod::lemma_fundamental_div_mod(q as int, 1000);
        vstd::arithmetic::div_mod::lemma_div_pos_is_pos(q as int, 1000);
    }
    if ip >= 10 {
        return 0;
    }
    let frac = q - ip * 1000;
    proof {
        assert(frac as int == (q as int) % 1000);
        vstd::arithmetic::div_mod::lemma_mod_bound(q as int, 1000);
    }
    let mut acc: i64 = 1000;
    let mut k: i64 = 0;
    while k < ip
        invariant
            0 <= k <= ip < 10,
            acc as int == half_shift(1000, k as int),
            0 <= acc <= 1000,
        decreases ip - k,
    {
        proof {
            vstd::arithmetic::div_mod::lemma_div_pos_is_pos(acc as int, 2);
            vstd::arithmetic::div_mod::lemma_div_is_ordered(acc as int, 1000, 2);
        }
        acc = tdiv_i64(acc, 2);
        k = k + 1;
    }
    let mut cur = sqrt_fx(500);
    let mut f = frac;
    let mut round: usize = 0;
    proof {
        lemma_frac_pow_bounds(f as int, cur as int, acc as int, 10);
    }
    while round < 10
        invariant
            round <= 10,
            0 <= f < 1000,
            0 <= cur <= 1000,
            0 <= acc <= 1000,
            frac_pow_spec(f as int, cur as int, acc as int, (10 - round) as nat) == decay_spec(
                dt as int,
                half_life as int,
            ),
        decreases 10 - round,
    {
        let doubled = f * 2;
        if doubled >= 1000 {
            proof {
                crate::fixed::lemma_fx_mul_bound(acc as int, cur as int, 1000, 1000);
                assert(0 <= (acc as int) * (cur as int)) by (nonlinear_arith)
                    requires
                        0 <= acc as int,
                        0 <= cur as int,
                {}
                vstd::arithmetic::div_mod::lemma_div_pos_is_pos((acc as int) * (cur as int), SCALE as int);
                assert(tdiv(1_000_000int, SCALE as int) == 1000);
            }
            let bumped = fx_mul(acc, cur);
            acc = bumped;
            f = doubled - 1000;
        } else {
            f = doubled;
        }
        cur = sqrt_fx(cur);
        round = round + 1;
    }
    acc
}

/// Largest magnitude of any net-force component: the interaction cap
/// times the largest neighbour contribution, with room for every food
/// contribution.
pub const NET_FORCE_LIMIT: i64 = 20_100_000_000_000;

/// Largest single neighbour contribution to a net-force component.
pub const CONTRIB_LIMIT: i64 = 200_000_000_000;

/// The displacement vector of the active topology, from `from` to `to`.
pub open spec fn dir_vec(from: Vec3Fx, to: Vec3Fx, grid: GridParameters, mode: BoundaryMode) -> Vec3Fx {
    Vec3Fx {
        x: direction_axis(to.x - from.x, grid.width as int, mode) as i64,
        y: direction_axis(to.y - from.y, grid.height as int, mode) as i64,
        z: direction_axis(to.z - from.z, grid.depth as int, mode) as i64,
    }
}

/// The neighbour part of one particle's net force, folded over the
/// particles from index `j` on with `count` interactions already counted:
/// the particle itself never interacts, at most `MAX_INTERACTIONS`
/// neighbours are counted, cross-colony pairs and pairs outside
/// `[MIN_DISTANCE_SQ, range^2]` exert nothing, and each counted pair adds
/// its acceleration scaled by the force range.
pub open spec fn neighbor_fold(
    particles: Seq<Particle>,
    i: int,
    genome: Genome,
    grid: GridParameters,
    mode: BoundaryMode,
    min_r: int,
    range: int,
    j: int,
    count: int,
    acc: (int, int, int),
) -> (int, int, int)
    decreases particles.len() - j,
{
    if j < 0 || j >= particles.len() {
        acc
    } else if j == i || count >= MAX_INTERACTIONS {
        neighbor_fold(particles, i, genome, grid, mode, min_r, range, j + 1, count, acc)
    } else if particles[j].colony != particles[i].colony {
        neighbor_fold(particles, i, genome, grid, mode, min_r, range, j + 1, count, acc)
    } else {
        let d = dir_vec(particles[i].position, particles[j].position, grid, mode);
        let dsq = norm_sq_spec(d);
        if dsq > range * range || dsq < MIN_DISTANCE_SQ {
            neighbor_fold(particles, i, genome, grid, mode, min_r, range, j + 1, count, acc)
        } else {
            let attraction = fx_mul_spec(
                genome.force_spec(particles[i].ptype as int, particles[j].ptype as int),
                FORCE_SCALE_FACTOR as int,
            );
            let a = acceleration_spec(min_r, d, attraction, range);
            neighbor_fold(
                particles,
                i,
                genome,
                grid,
                mode,
                min_r,
                range,
                j + 1,
                count + 1,
                (
                    acc.0 + fx_mul_spec(a.0, range),
                    acc.1 + fx_mul_spec(a.1, range),
                    acc.2 + fx_mul_spec(a.2, range),
                ),
            )
        }
    }
}

/// The food part of one particle's net force, folded over the active
/// food positions from index `k` on: every item strictly between the
/// minimum distance and the force range pulls along its direction with
/// the food force damped by the square root of `min(1, food
/// diameter / distance)`.
pub open spec fn food_fold(
    foods: Seq<Vec3Fx>,
    position: Vec3Fx,
    food_force: int,
    grid: GridParameters,
    mode: BoundaryMode,
    range: int,
    k: int,
    acc: (int, int, int),
) -> (int, int, int)
    decreases foods.len() - k,
{
    if k < 0 || k >= foods.len() {
        acc
    } else {
        let d = dir_vec(position, foods[k], grid, mode);
        let dist = sqrt_floor(norm_sq_spec(d));
        if dist > 1 && dist < range {
            let df_raw = fx_div_spec(4000, dist);
            let df = if df_raw > 1000 {
                1000int
            } else {
                df_raw
            };
            let factor = sqrt_floor(df * (SCALE as int));
            let mag = fx_mul_spec(food_force, factor);
            food_fold(
                foods,
                position,
                food_force,
                grid,
                mode,
                range,
                k + 1,
                (
                    acc.0 + tdiv(d.x * mag, dist),
                    acc.1 + tdiv(d.y * mag, dist),
                    acc.2 + tdiv(d.z * mag, dist),
                ),
            )
        } else {
            food_fold(foods, position, food_force, grid, mode, range, k + 1, acc)
        }
    }
}

/// One particle's net force for this tick: nothing if its colony has no
/// genome; otherwise the neighbour fold, plus the food fold whenever the
/// raw food affinity is non-negligible (its magnitude exceeds 0.001).
pub open spec fn net_force_spec(
    particles: Seq<Particle>,
    i: int,
    genomes: Seq<Genome>,
    foods: Seq<Vec3Fx>,
    grid: GridParameters,
    mode: BoundaryMode,
    min_r: int,
    range: int,
) -> (int, int, int) {
    let pi = particles[i];
    if pi.colony >= genomes.len() {
        (0, 0, 0)
    } else {
        let g = genomes[pi.colony as int];
        let base = neighbor_fold(particles, i, g, grid, mode, min_r, range, 0, 0, (0, 0, 0));
        if abs_spec(g.food_spec(pi.ptype as int)) > 1 {
            let ff = fx_mul_spec(g.food_spec(pi.ptype as int), FORCE_SCALE_FACTOR as int);
            food_fold(foods, pi.position, ff, grid, mode, range, 0, base)
        } else {
            base
        }
    }
}

/// Computes every particle's net force from the shared tick-start state:
/// result `i` is exactly `net_force_spec` for particle `i`, reading only
/// positions, types, colony ids, the genomes and the active food
/// positions — so the results are independent of the order in which
/// particles are processed.
pub fn calculate_forces(
    particles: &Vec<Particle>,
    genomes: &Vec<Genome>,
    food_positions: &Vec<Vec3Fx>,
    grid: &GridParameters,
    mode: BoundaryMode,
    min_r: i64,
    range: i64,
) -> (r: Vec<Vec3Fx>)
    requires
        grid.wf(),
        0 < min_r < range <= COORD_LIMIT,
        forall|p: int| 0 <= p < particles@.len() ==> (#[trigger] particles@[p]).wf(),
        forall|g: int| 0 <= g < genomes@.len() ==> (#[trigger] genomes@[g]).wf(),
        forall|f: int|
            0 <= f < food_positions@.len() ==> in_box(
                #[trigger] food_positions@[f],
                COORD_LIMIT as int,
            ),
        food_positions@.len() <= COUNT_LIMIT,
    ensures
        r@.len() == particles@.len(),
        forall|p: int|
            0 <= p < r@.len() ==> ((#[trigger] r@[p]).x as int, r@[p].y as int, r@[p].z as int)
                == net_force_spec(
                particles@,
                p,
                genomes@,
                food_positions@,
                *grid,
                mode,
                min_r as int,
                range as int,
            ),
        forall|p: int| 0 <= p < r@.len() ==> in_box(#[trigger] r@[p], NET_FORCE_LIMIT as int),
{
    let n = particles.len();
    let mut result: Vec<Vec3Fx> = Vec::new();
    let mut i: usize = 0;
    proof {
        assert((range as int) * (range as int) <= 1_000_000_000_000_000_000) by (nonlinear_arith)
            requires
                0 < range <= 1_000_000_000,
        {}
    }
    let range_sq: i64 = range * range;
    while i < n
        invariant
            n == particles@.len(),
            i <= n,
            result@.len() == i,
            grid.wf(),
            0 < min_r < range <= COORD_LIMIT,
            range_sq as int == (range as int) * (range as int),
            forall|p: int| 0 <= p < particles@.len() ==> (#[trigger] particles@[p]).wf(),
            forall|g: int| 0 <= g < genomes@.len() ==> (#[trigger] genomes@[g]).wf(),
            forall|f: int|
                0 <= f < food_positions@.len() ==> in_box(
                    #[trigger] food_positions@[f],
                    COORD_LIMIT as int,
                ),
            food_positions@.len() <= COUNT_LIMIT,
            forall|p: int|
                0 <= p < i as int ==> ((#[trigger] result@[p]).x as int, result@[p].y as int,
                result@[p].z as int) == net_force_spec(
                    particles@,
                    p,
                    genomes@,
                    food_positions@,
                    *grid,
                    mode,
                    min_r as int,
                    range as int,
                ),
            forall|p: int|
                0 <= p < i as int ==> in_box(#[trigger] result@[p], NET_FORCE_LIMIT as int),
        decreases n - i,
    {
        let pi = particles[i];
        if pi.colony >= genomes.len() {
            result.push(Vec3Fx::zero());
            i = i + 1;
            continue ;
        }
        let genome = &genomes[pi.colony];
        // Neighbour interactions, capped.
        let mut fx: i64 = 0;
        let mut fy: i64 = 0;
        let mut fz: i64 = 0;
        let mut count: usize = 0;
        let mut j: usize = 0;
        while j < n
            invariant
                n == particles@.len(),
                i < n,
                j <= n,
                count <= MAX_INTERACTIONS,
                grid.wf(),
                0 < min_r < range <= COORD_LIMIT,
                range_sq as int == (range as int) * (range as int),
                pi == particles@[i as int],
                pi.colony < genomes@.len(),
                genome == &genomes@[pi.colony as int],
                forall|p: int| 0 <= p < particles@.len() ==> (#[trigger] particles@[p]).wf(),
                forall|g: int| 0 <= g < genomes@.len() ==> (#[trigger] genomes@[g]).wf(),
                abs_spec(fx as int) <= count * CONTRIB_LIMIT,
                abs_spec(fy as int) <= count * CONTRIB_LIMIT,
                abs_spec(fz as int) <= count * CONTRIB_LIMIT,
                neighbor_fold(
                    particles@,
                    i as int,
                    genomes@[pi.colony as int],
                    *grid,
                    mode,
                    min_r as int,
                    range as int,
                    j as int,
                    count as int,
                    (fx as int, fy as int, fz as int),
                ) == neighbor_fold(
                    particles@,
                    i as int,
                    genomes@[pi.colony as int],
                    *grid,
                    mode,
                    min_r as int,
                    range as int,
                    0,
                    0,
                    (0int, 0int, 0int),
                ),
            decreases n - j,
        {
            if j == i || count >= MAX_INTERACTIONS {
                j = j + 1;
                continue ;
            }
            let pj = particles[j];
            if pj.colony != pi.colony {
                j = j + 1;
                continue ;
            }
            let d = direction(pi.position, pj.position, grid, mode);
            proof {
                lemma_dir_vec_match(pi.position, pj.position, *grid, mode, d);
            }
            let dsq = d.norm_sq();
            if dsq > range_sq as u128 || dsq < MIN_DISTANCE_SQ as u128 {
                j = j + 1;
                continue ;
            }
            proof {
                assert(abs_spec(genome.force_spec(pi.ptype as int, pj.ptype as int)) <= 2000);
                assert(abs_spec(genome.force_spec(pi.ptype as int, pj.ptype as int)) * abs_spec(
                    FORCE_SCALE_FACTOR as int,
                ) <= i64::MAX * (SCALE as int)) by (nonlinear_arith)
                    requires
                        abs_spec(genome.force_spec(pi.ptype as int, pj.ptype as int)) <= 2000,
                {}
                lemma_fx_mul_bound(
                    genome.force_spec(pi.ptype as int, pj.ptype as int),
                    FORCE_SCALE_FACTOR as int,
                    2000,
                    FORCE_SCALE_FACTOR as int,
                );
                assert(tdiv(2000 * (FORCE_SCALE_FACTOR as int), SCALE as int) == 160_000);
            }
            let attraction = fx_mul(genome.get_force(pi.ptype, pj.ptype), FORCE_SCALE_FACTOR);
            let a = calculate_acceleration(min_r, d, attraction, range);
            proof {
                lemma_contribution_bounds(a, range as int);
            }
            let cx = fx_mul(a.x, range);
            let cy = fx_mul(a.y, range);
            let cz = fx_mul(a.z, range);
            proof {
                assert((count as int) * CONTRIB_LIMIT + CONTRIB_LIMIT == (count as int + 1)
                    * CONTRIB_LIMIT) by (nonlinear_arith);
                assert((count as int + 1) * CONTRIB_LIMIT <= 100 * CONTRIB_LIMIT)
                    by (nonlinear_arith)
                    requires
                        count as int + 1 <= 100,
                {}
            }
            fx = fx + cx;
            fy = fy + cy;
            fz = fz + cz;
            count = count + 1;
            j = j + 1;
        }
        proof {
            assert((count as int) * CONTRIB_LIMIT <= 100 * CONTRIB_LIMIT) by (nonlinear_arith)
                requires
                    count as int <= 100,
            {}
        }
        // Food attraction, when the raw affinity is non-negligible.
        let affinity = genome.get_food_force(pi.ptype);
        let affinity_abs = if affinity >= 0 {
            affinity
        } else {
            -affinity
        };
        if affinity_abs > 1 {
            proof {
                assert(abs_spec(genome.food_spec(pi.ptype as int)) <= 2000);
                assert(abs_spec(genome.food_spec(pi.ptype as int)) * abs_spec(
                    FORCE_SCALE_FACTOR as int,
                ) <= i64::MAX * (SCALE as int)) by (nonlinear_arith)
                    requires
                        abs_spec(genome.food_spec(pi.ptype as int)) <= 2000,
                {}
                lemma_fx_mul_bound(
                    genome.food_spec(pi.ptype as int),
                    FORCE_SCALE_FACTOR as int,
                    2000,
                    FORCE_SCALE_FACTOR as int,
                );
                assert(tdiv(2000 * (FORCE_SCALE_FACTOR as int), SCALE as int) == 160_000);
            }
            let food_force = fx_mul(affinity, FORCE_SCALE_FACTOR);
            let m = food_positions.len();
            let mut k: usize = 0;
            while k < m
                invariant
                    m == food_positions@.len(),
                    m <= COUNT_LIMIT,
                    k <= m,
                    grid.wf(),
                    0 < min_r < range <= COORD_LIMIT,
                    abs_spec(food_force as int) <= 160_000,
                    n == particles@.len(),
                    i < n,
                    pi == particles@[i as int],
                    pi.colony < genomes@.len(),
                    in_box(pi.position, COORD_LIMIT as int),
                    forall|f: int|
                        0 <= f < food_positions@.len() ==> in_box(
                            #[trigger] food_positions@[f],
                            COORD_LIMIT as int,
                        ),
                    abs_spec(fx as int) <= 100 * CONTRIB_LIMIT + k * 160_000,
                    abs_spec(fy as int) <= 100 * CONTRIB_LIMIT + k * 160_000,
                    abs_spec(fz as int) <= 100 * CONTRIB_LIMIT + k * 160_000,
                    food_fold(
                        food_positions@,
                        pi.position,
                        food_force as int,
                        *grid,
                        mode,
                        range as int,
                        k as int,
                        (fx as int, fy as int, fz as int),
                    ) == food_fold(
                        food_positions@,
                        pi.position,
                        food_force as int,
                        *grid,
                        mode,
                        range as int,
                        0,
                        neighbor_fold(
                            particles@,
                            i as int,
                            genomes@[pi.colony as int],
                            *grid,
                            mode,
                            min_r as int,
                            range as int,
                            0,
                            0,
                            (0int, 0int, 0int),
                        ),
                    ),
                decreases m - k,
            {
                let d = direction(pi.position, food_positions[k], grid, mode);
                proof {
                    lemma_dir_vec_match(pi.position, food_positions@[k as int], *grid, mode, d);
                }
                let dist = d.norm();
                if dist > 1 && dist < range {
                    let df_raw = fx_div(4000, dist);
                    proof {
                        vstd::arithmetic::div_mod::lemma_div_pos_is_pos(
                            4000 * (SCALE as int),
                            dist as int,
                        );
                    }
                    let df = if df_raw > 1000 {
                        1000
                    } else {
                        df_raw
                    };
                    let factor = sqrt_fx(df);
                    proof {
                        assert(abs_spec(food_force as int) * abs_spec(factor as int) <= i64::MAX * (
                        SCALE as int)) by (nonlinear_arith)
                            requires
                                abs_spec(food_force as int) <= 160_000,
                                0 <= factor <= 1000,
                        {}
                        lemma_fx_mul_bound(food_force as int, factor as int, 160_000, 1000);
                        assert(tdiv(160_000_000int, SCALE as int) == 160_000);
                    }
                    let mag = fx_mul(food_force, factor);
                    proof {
                        lemma_food_products(d, mag as int, dist as int);
                    }
                    let cx = tdiv_i64(d.x * mag, dist);
                    let cy = tdiv_i64(d.y * mag, dist);
                    let cz = tdiv_i64(d.z * mag, dist);
                    proof {
                        lemma_tdiv_bound((d.x as int) * (mag as int), dist as int, 160_000);
                        lemma_tdiv_bound((d.y as int) * (mag as int), dist as int, 160_000);
                        lemma_tdiv_bound((d.z as int) * (mag as int), dist as int, 160_000);
                        assert((k as int) * 160_000 + 160_000 == (k as int + 1) * 160_000)
                            by (nonlinear_arith);
                    }
                    fx = fx + cx;
                    fy = fy + cy;
                    fz = fz + cz;
                } else {
                    proof {
                        assert((k as int) * 160_000 <= (k as int + 1) * 160_000)
                            by (nonlinear_arith);
                    }
                }
                k = k + 1;
            }
            proof {
                assert((m as int) * 160_000 <= 10_000 * 160_000) by (nonlinear_arith)
                    requires
                        m as int <= 10_000,
                {}
            }
        }
        proof {
            assert(abs_spec(fx as int) <= NET_FORCE_LIMIT && abs_spec(fy as int)
                <= NET_FORCE_LIMIT && abs_spec(fz as int) <= NET_FORCE_LIMIT);
        }
        result.push(Vec3Fx { x: fx, y: fy, z: fz });
        i = i + 1;
    }
    result
}

/// The exec direction matches the specification displacement.
proof fn lemma_dir_vec_match(from: Vec3Fx, to: Vec3Fx, grid: GridParameters, mode: BoundaryMode, d: Vec3Fx)
    requires
        d.x as int == direction_axis(to.x - from.x, grid.width as int, mode),
        d.y as int == direction_axis(to.y - from.y, grid.height as int, mode),
        d.z as int == direction_axis(to.z - from.z, grid.depth as int, mode),
    ensures
        d == dir_vec(from, to, grid, mode),
{
}

/// A neighbour contribution component stays within `CONTRIB_LIMIT`.
proof fn lemma_contribution_bounds(a: Vec3Fx, range: int)
    requires
        in_box(a, 200_000),
        0 < range <= COORD_LIMIT,
    ensures
        abs_spec(a.x as int) * abs_spec(range) <= i64::MAX * (SCALE as int),
        abs_spec(a.y as int) * abs_spec(range) <= i64::MAX * (SCALE as int),
        abs_spec(a.z as int) * abs_spec(range) <= i64::MAX * (SCALE as int),
        abs_spec(fx_mul_spec(a.x as int, range)) <= CONTRIB_LIMIT,
        abs_spec(fx_mul_spec(a.y as int, range)) <= CONTRIB_LIMIT,
        abs_spec(fx_mul_spec(a.z as int, range)) <= CONTRIB_LIMIT,
{
    lemma_fx_mul_bound(a.x as int, range, 200_000, COORD_LIMIT as int);
    lemma_fx_mul_bound(a.y as int, range, 200_000, COORD_LIMIT as int);
    lemma_fx_mul_bound(a.z as int, range, 200_000, COORD_LIMIT as int);
    assert(tdiv(200_000 * (COORD_LIMIT as int), SCALE as int) == CONTRIB_LIMIT as int);
    assert(abs_spec(a.x as int) * abs_spec(range) <= i64::MAX * (SCALE as int) && abs_spec(
        a.y as int,
    ) * abs_spec(range) <= i64::MAX * (SCALE as int) && abs_spec(a.z as int) * abs_spec(range)
        <= i64::MAX * (SCALE as int)) by (nonlinear_arith)
        requires
            abs_spec(a.x as int) <= 200_000,
            abs_spec(a.y as int) <= 200_000,
            abs_spec(a.z as int) <= 200_000,
            0 < range <= 1_000_000_000,
    {}
}

/// Positions the integrator maintains: within the half extents on every
/// axis.
pub open spec fn within_grid(pos: Vec3Fx, grid: GridParameters) -> bool {
    &&& abs_spec(pos.x as int) <= tdiv(grid.width as int, 2)
    &&& abs_spec(pos.y as int) <= tdiv(grid.height as int, 2)
    &&& abs_spec(pos.z as int) <= tdiv(grid.depth as int, 2)
}

/// Velocity after one force impulse and the exponential decay; without a
/// force entry the velocity is left untouched.
pub open spec fn decayed_velocity(v: Vec3Fx, force: Vec3Fx, has_force: bool, decay: int) -> (
    int,
    int,
    int,
) {
    if has_force {
        (
            fx_mul_spec(v.x + fx_mul_spec(force.x as int, PHYSICS_TIMESTEP as int), decay),
            fx_mul_spec(v.y + fx_mul_spec(force.y as int, PHYSICS_TIMESTEP as int), decay),
            fx_mul_spec(v.z + fx_mul_spec(force.z as int, PHYSICS_TIMESTEP as int), decay),
        )
    } else {
        (v.x as int, v.y as int, v.z as int)
    }
}

/// Velocity after the speed cap: a velocity faster than `MAX_VELOCITY`
/// is rescaled onto the cap.
pub open spec fn capped_velocity(v: (int, int, int)) -> (int, int, int) {
    let spd = sqrt_floor(v.0 * v.0 + v.1 * v.1 + v.2 * v.2);
    if spd > MAX_VELOCITY {
        (
            tdiv(v.0 * (MAX_VELOCITY as int), spd),
            tdiv(v.1 * (MAX_VELOCITY as int), spd),
            tdiv(v.2 * (MAX_VELOCITY as int), spd),
        )
    } else {
        v
    }
}

/// One particle's state after a full integration step: force impulse,
/// decay, speed cap, movement by one timestep, and the containment of the
/// active boundary mode.
pub open spec fn integrate_spec(
    p: Particle,
    force: Vec3Fx,
    has_force: bool,
    decay: int,
    grid: GridParameters,
    mode: BoundaryMode,
) -> Particle {
    let v3 = capped_velocity(decayed_velocity(p.velocity, force, has_force, decay));
    let px = p.position.x + fx_mul_spec(v3.0, PHYSICS_TIMESTEP as int);
    let py = p.position.y + fx_mul_spec(v3.1, PHYSICS_TIMESTEP as int);
    let pz = p.position.z + fx_mul_spec(v3.2, PHYSICS_TIMESTEP as int);
    let hw = tdiv(grid.width as int, 2);
    let hh = tdiv(grid.height as int, 2);
    let hd = tdiv(grid.depth as int, 2);
    if mode is Bounce {
        Particle {
            position: Vec3Fx {
                x: bounce_pos_axis(px, hw) as i64,
                y: bounce_pos_axis(py, hh) as i64,
                z: bounce_pos_axis(pz, hd) as i64,
            },
            velocity: Vec3Fx {
                x: bounce_vel_axis(px, v3.0, hw) as i64,
                y: bounce_vel_axis(py, v3.1, hh) as i64,
                z: bounce_vel_axis(pz, v3.2, hd) as i64,
            },
            ..p
        }
    } else {
        Particle {
            position: Vec3Fx {
                x: wrap_pos_axis(px, hw, grid.width as int) as i64,
                y: wrap_pos_axis(py, hh, grid.height as int) as i64,
                z: wrap_pos_axis(pz, hd, grid.depth as int) as i64,
            },
            velocity: Vec3Fx { x: v3.0 as i64, y: v3.1 as i64, z: v3.2 as i64 },
            ..p
        }
    }
}

/// Exact twin of `integrate_spec`; the result stays within the grid and
/// under the speed cap, so the step can be iterated forever.
pub fn integrate_particle(
    p: Particle,
    force: Vec3Fx,
    has_force: bool,
    decay: i64,
    grid: &GridParameters,
    mode: BoundaryMode,
) -> (r: Particle)
    requires
        grid.wf(),
        within_grid(p.position, *grid),
        in_box(p.velocity, MAX_VELOCITY as int),
        in_box(force, NET_FORCE_LIMIT as int),
        0 <= decay <= 1000,
    ensures
        r == integrate_spec(p, force, has_force, decay as int, *grid, mode),
        within_grid(r.position, *grid),
        in_box(r.velocity, MAX_VELOCITY as int),
        r.ptype == p.ptype,
        r.colony == p.colony,
{
    let mut vx = p.velocity.x;
    let mut vy = p.velocity.y;
    let mut vz = p.velocity.z;
    if has_force {
        proof {
            lemma_impulse_bounds(force);
        }
        vx = vx + fx_mul(force.x, PHYSICS_TIMESTEP);
        vy = vy + fx_mul(force.y, PHYSICS_TIMESTEP);
        vz = vz + fx_mul(force.z, PHYSICS_TIMESTEP);
        proof {
            lemma_decay_bounds(vx as int, decay as int);
            lemma_decay_bounds(vy as int, decay as int);
            lemma_decay_bounds(vz as int, decay as int);
        }
        vx = fx_mul(vx, decay);
        vy = fx_mul(vy, decay);
        vz = fx_mul(vz, decay);
    }
    let vmid = Vec3Fx { x: vx, y: vy, z: vz };
    let spd = vmid.norm();
    if spd > MAX_VELOCITY {
        proof {
            lemma_cap_products(vmid, spd as int);
        }
        vx = mul_div(vx, MAX_VELOCITY, spd);
        vy = mul_div(vy, MAX_VELOCITY, spd);
        vz = mul_div(vz, MAX_VELOCITY, spd);
        proof {
            lemma_tdiv_bound((vmid.x as int) * (MAX_VELOCITY as int), spd as int, MAX_VELOCITY as int);
            lemma_tdiv_bound((vmid.y as int) * (MAX_VELOCITY as int), spd as int, MAX_VELOCITY as int);
            lemma_tdiv_bound((vmid.z as int) * (MAX_VELOCITY as int), spd as int, MAX_VELOCITY as int);
        }
    }
    proof {
        lemma_step_bounds(vx as int, vy as int, vz as int);
    }
    let mut position = Vec3Fx {
        x: p.position.x + fx_mul(vx, PHYSICS_TIMESTEP),
        y: p.position.y + fx_mul(vy, PHYSICS_TIMESTEP),
        z: p.position.z + fx_mul(vz, PHYSICS_TIMESTEP),
    };
    let mut velocity = Vec3Fx { x: vx, y: vy, z: vz };
    let ghost pre_contain = position;
    let ghost pre_vel = velocity;
    grid.apply_bounds(&mut position, &mut velocity, mode);
    proof {
        let hw = tdiv(grid.width as int, 2);
        let hh = tdiv(grid.height as int, 2);
        let hd = tdiv(grid.depth as int, 2);
        lemma_tdiv_bound(grid.width as int, 2, grid.width as int);
        lemma_tdiv_bound(grid.height as int, 2, grid.height as int);
        lemma_tdiv_bound(grid.depth as int, 2, grid.depth as int);
        assert(hw >= 4000 && hh >= 4000 && hd >= 4000) by {
            crate::fixed::lemma_div_le(8000, 2, hw);
            assert(tdiv(grid.width as int, 2) >= tdiv(8000, 2)) by {
                crate::fixed::lemma_tdiv_monotone(8000, grid.width as int, 2);
            }
            assert(tdiv(grid.height as int, 2) >= tdiv(8000, 2)) by {
                crate::fixed::lemma_tdiv_monotone(8000, grid.height as int, 2);
            }
            assert(tdiv(grid.depth as int, 2) >= tdiv(8000, 2)) by {
                crate::fixed::lemma_tdiv_monotone(8000, grid.depth as int, 2);
            }
        }
        lemma_contained_axis(pre_contain.x as int, hw, grid.width as int, mode);
        lemma_contained_axis(pre_contain.y as int, hh, grid.height as int, mode);
        lemma_contained_axis(pre_contain.z as int, hd, grid.depth as int, mode);
        lemma_bounce_vel_small(pre_contain.x as int, pre_vel.x as int, hw);
        lemma_bounce_vel_small(pre_contain.y as int, pre_vel.y as int, hh);
        lemma_bounce_vel_small(pre_contain.z as int, pre_vel.z as int, hd);
    }
    Particle { position, velocity, ..p }
}

/// A force impulse over one timestep stays within machine range and
/// moves a velocity component by a bounded amount.
proof fn lemma_impulse_bounds(force: Vec3Fx)
    requires
        in_box(force, NET_FORCE_LIMIT as int),
    ensures
        abs_spec(force.x as int) * abs_spec(PHYSICS_TIMESTEP as int) <= i64::MAX * (SCALE as int),
        abs_spec(force.y as int) * abs_spec(PHYSICS_TIMESTEP as int) <= i64::MAX * (SCALE as int),
        abs_spec(force.z as int) * abs_spec(PHYSICS_TIMESTEP as int) <= i64::MAX * (SCALE as int),
        abs_spec(fx_mul_spec(force.x as int, PHYSICS_TIMESTEP as int)) <= 160_800_000_000,
        abs_spec(fx_mul_spec(force.y as int, PHYSICS_TIMESTEP as int)) <= 160_800_000_000,
        abs_spec(fx_mul_spec(force.z as int, PHYSICS_TIMESTEP as int)) <= 160_800_000_000,
{
    lemma_fx_mul_bound(force.x as int, PHYSICS_TIMESTEP as int, NET_FORCE_LIMIT as int, 8);
    lemma_fx_mul_bound(force.y as int, PHYSICS_TIMESTEP as int, NET_FORCE_LIMIT as int, 8);
    lemma_fx_mul_bound(force.z as int, PHYSICS_TIMESTEP as int, NET_FORCE_LIMIT as int, 8);
    assert(tdiv(160_800_000_000_000int, SCALE as int) == 160_800_000_000);
    assert(abs_spec(force.x as int) * abs_spec(PHYSICS_TIMESTEP as int) <= i64::MAX * (
    SCALE as int) && abs_spec(force.y as int) * abs_spec(PHYSICS_TIMESTEP as int) <= i64::MAX * (
    SCALE as int) && abs_spec(force.z as int) * abs_spec(PHYSICS_TIMESTEP as int) <= i64::MAX * (
    SCALE as int)) by (nonlinear_arith)
        requires
            abs_spec(force.x as int) <= NET_FORCE_LIMIT as int,
            abs_spec(force.y as int) <= NET_FORCE_LIMIT as int,
            abs_spec(force.z as int) <= NET_FORCE_LIMIT as int,
    {}
}

/// Decaying a mid-step velocity component keeps it within machine range
/// and never grows it.
proof fn lemma_decay_bounds(v: int, decay: int)
    requires
        abs_spec(v) <= 161_000_000_000,
        0 <= decay <= 1000,
    ensures
        abs_spec(v) * abs_spec(decay) <= i64::MAX * (SCALE as int),
        abs_spec(fx_mul_spec(v, decay)) <= 161_000_000_000,
{
    assert(abs_spec(v) * abs_spec(decay) <= i64::MAX * (SCALE as int)) by (nonlinear_arith)
        requires
            abs_spec(v) <= 161_000_000_000,
            0 <= decay <= 1000,
    {}
    lemma_fx_mul_bound(v, decay, 161_000_000_000, 1000);
    assert(tdiv(161_000_000_000_000int, SCALE as int) == 161_000_000_000);
}

/// A component rescaled onto the speed cap stays within machine range.
proof fn lemma_cap_products(v: Vec3Fx, spd: int)
    requires
        1 <= spd,
        abs_spec(v.x as int) <= spd,
        abs_spec(v.y as int) <= spd,
        abs_spec(v.z as int) <= spd,
    ensures
        abs_spec((v.x as int) * (MAX_VELOCITY as int)) <= i64::MAX * spd,
        abs_spec((v.y as int) * (MAX_VELOCITY as int)) <= i64::MAX * spd,
        abs_spec((v.z as int) * (MAX_VELOCITY as int)) <= i64::MAX * spd,
        abs_spec((v.x as int) * (MAX_VELOCITY as int)) <= (MAX_VELOCITY as int) * spd,
        abs_spec((v.y as int) * (MAX_VELOCITY as int)) <= (MAX_VELOCITY as int) * spd,
        abs_spec((v.z as int) * (MAX_VELOCITY as int)) <= (MAX_VELOCITY as int) * spd,
{
    assert(abs_spec((v.x as int) * (MAX_VELOCITY as int)) <= (MAX_VELOCITY as int) * spd
        && abs_spec((v.x as int) * (MAX_VELOCITY as int)) <= i64::MAX * spd) by (nonlinear_arith)
        requires
            1 <= spd,
            abs_spec(v.x as int) <= spd,
    {}
    assert(abs_spec((v.y as int) * (MAX_VELOCITY as int)) <= (MAX_VELOCITY as int) * spd
        && abs_spec((v.y as int) * (MAX_VELOCITY as int)) <= i64::MAX * spd) by (nonlinear_arith)
        requires
            1 <= spd,
            abs_spec(v.y as int) <= spd,
    {}
    assert(abs_spec((v.z as int) * (MAX_VELOCITY as int)) <= (MAX_VELOCITY as int) * spd
        && abs_spec((v.z as int) * (MAX_VELOCITY as int)) <= i64::MAX * spd) by (nonlinear_arith)
        requires
            1 <= spd,
            abs_spec(v.z as int) <= spd,
    {}
}

/// One timestep moves a capped velocity's particle by at most 1600
/// subunits per axis.
proof fn lemma_step_bounds(vx: int, vy: int, vz: int)
    requires
        abs_spec(vx) <= MAX_VELOCITY as int,
        abs_spec(vy) <= MAX_VELOCITY as int,
        abs_spec(vz) <= MAX_VELOCITY as int,
    ensures
        abs_spec(vx) * abs_spec(PHYSICS_TIMESTEP as int) <= i64::MAX * (SCALE as int),
        abs_spec(vy) * abs_spec(PHYSICS_TIMESTEP as int) <= i64::MAX * (SCALE as int),
        abs_spec(vz) * abs_spec(PHYSICS_TIMESTEP as int) <= i64::MAX * (SCALE as int),
        abs_spec(fx_mul_spec(vx, PHYSICS_TIMESTEP as int)) <= 1600,
        abs_spec(fx_mul_spec(vy, PHYSICS_TIMESTEP as int)) <= 1600,
        abs_spec(fx_mul_spec(vz, PHYSICS_TIMESTEP as int)) <= 1600,
{
    lemma_fx_mul_bound(vx, PHYSICS_TIMESTEP as int, MAX_VELOCITY as int, 8);
    lemma_fx_mul_bound(vy, PHYSICS_TIMESTEP as int, MAX_VELOCITY as int, 8);
    lemma_fx_mul_bound(vz, PHYSICS_TIMESTEP as int, MAX_VELOCITY as int, 8);
    assert(tdiv(1_600_000int, SCALE as int) == 1600);
    assert(abs_spec(vx) * abs_spec(PHYSICS_TIMESTEP as int) <= i64::MAX * (SCALE as int)
        && abs_spec(vy) * abs_spec(PHYSICS_TIMESTEP as int) <= i64::MAX * (SCALE as int)
        && abs_spec(vz) * abs_spec(PHYSICS_TIMESTEP as int) <= i64::MAX * (SCALE as int))
        by (nonlinear_arith)
        requires
            abs_spec(vx) <= MAX_VELOCITY as int,
            abs_spec(vy) <= MAX_VELOCITY as int,
            abs_spec(vz) <= MAX_VELOCITY as int,
    {}
}

/// Containment pins one axis back within the half extent: a bounce never
/// leaves the wall band, and a wrap of a position at most one step past
/// the wall lands inside.
proof fn lemma_contained_axis(p: int, half: int, extent: int, mode: BoundaryMode)
    requires
        4000 <= half,
        2 * half <= extent <= 2 * half + 1,
        abs_spec(p) <= half + 1600,
    ensures
        mode is Bounce ==> abs_spec(bounce_pos_axis(p, half)) <= half,
        mode is Teleport ==> abs_spec(wrap_pos_axis(p, half, extent)) <= half,
{
    if mode is Bounce {
        if abs_spec(p) > half - 4000 {
            assert(abs_spec(crate::fixed::sgn_spec(p) * (half - 4000)) <= half)
                by (nonlinear_arith)
                requires
                    4000 <= half,
                    crate::fixed::sgn_spec(p) == 1 || crate::fixed::sgn_spec(p) == -1
                        || crate::fixed::sgn_spec(p) == 0,
            {}
        }
    }
}

/// The reflected axis's velocity is damped below the cap.
proof fn lemma_bounce_vel_small(p: int, v: int, half: int)
    requires
        abs_spec(v) <= MAX_VELOCITY as int,
        0 <= half,
    ensures
        abs_spec(bounce_vel_axis(p, v, half)) <= MAX_VELOCITY as int,
{
    if abs_spec(p) > half - 4000 {
        assert(abs_spec(v) * abs_spec(500int) <= i64::MAX * (SCALE as int)) by (nonlinear_arith)
            requires
                abs_spec(v) <= 200_000,
        {}
        lemma_fx_mul_bound(v, 500, MAX_VELOCITY as int, 500);
        assert(tdiv(100_000_000int, SCALE as int) == 100_000);
    }
}

/// The force applied to particle `k`: entry `k` of the force array, or
/// nothing when the array is too short.
pub open spec fn force_of(forces: Seq<Vec3Fx>, k: int) -> Vec3Fx {
    if 0 <= k < forces.len() {
        forces[k]
    } else {
        Vec3Fx { x: 0, y: 0, z: 0 }
    }
}

/// Integrates every particle under its computed force: element `k`
/// becomes `integrate_spec` of its old state, with a force exactly when
/// the force array reaches index `k`. Every particle stays within the
/// grid and under the speed cap.
pub fn apply_physics_step(
    particles: &mut Vec<Particle>,
    forces: &Vec<Vec3Fx>,
    decay: i64,
    grid: &GridParameters,
    mode: BoundaryMode,
)
    requires
        grid.wf(),
        0 <= decay <= 1000,
        forall|k: int|
            0 <= k < old(particles)@.len() ==> within_grid(
                (#[trigger] old(particles)@[k]).position,
                *grid,
            ),
        forall|k: int|
            0 <= k < old(particles)@.len() ==> in_box(
                (#[trigger] old(particles)@[k]).velocity,
                MAX_VELOCITY as int,
            ),
        forall|k: int|
            0 <= k < forces@.len() ==> in_box(#[trigger] forces@[k], NET_FORCE_LIMIT as int),
    ensures
        final(particles)@.len() == old(particles)@.len(),
        forall|k: int|
            0 <= k < final(particles)@.len() ==> #[trigger] final(particles)@[k] == integrate_spec(
                old(particles)@[k],
                force_of(forces@, k),
                k < forces@.len(),
                decay as int,
                *grid,
                mode,
            ),
        forall|k: int|
            0 <= k < final(particles)@.len() ==> within_grid(
                (#[trigger] final(particles)@[k]).position,
                *grid,
            ),
        forall|k: int|
            0 <= k < final(particles)@.len() ==> in_box(
                (#[trigger] final(particles)@[k]).velocity,
                MAX_VELOCITY as int,
            ),
{
    let n = particles.len();
    let mut k: usize = 0;
    while k < n
        invariant
            n == particles@.len(),
            particles@.len() == old(particles)@.len(),
            k <= n,
            grid.wf(),
            0 <= decay <= 1000,
            forall|j: int|
                0 <= j < forces@.len() ==> in_box(#[trigger] forces@[j], NET_FORCE_LIMIT as int),
            forall|j: int|
                k as int <= j < particles@.len() ==> #[trigger] particles@[j] == old(
                    particles,
                )@[j],
            forall|j: int|
                0 <= j < particles@.len() ==> within_grid(
                    (#[trigger] particles@[j]).position,
                    *grid,
                ),
            forall|j: int|
                0 <= j < particles@.len() ==> in_box(
                    (#[trigger] particles@[j]).velocity,
                    MAX_VELOCITY as int,
                ),
            forall|j: int|
                0 <= j < k as int ==> #[trigger] particles@[j] == integrate_spec(
                    old(particles)@[j],
                    force_of(forces@, j),
                    j < forces@.len(),
                    decay as int,
                    *grid,
                    mode,
                ),
        decreases n - k,
    {
        let p = particles[k];
        let has_force = k < forces.len();
        let force = if has_force {
            forces[k]
        } else {
            Vec3Fx::zero()
        };
        let updated = integrate_particle(p, force, has_force, decay, grid, mode);
        particles[k] = updated;
        k = k + 1;
    }
}

/// One particle's state after a batch executor's result is screened: the
/// result replaces the state only when the executor produced one (a
/// non-finite value is reported as `None`) and it lies within the
/// fixed-point domain; anything else leaves the previous valid state.
pub open spec fn batch_apply(p: Particle, r: Option<(Vec3Fx, Vec3Fx)>, grid: GridParameters) -> Particle {
    match r {
        Some(pv) => {
            if within_grid(pv.0, grid) && in_box(pv.1, MAX_VELOCITY as int) {
                Particle { position: pv.0, velocity: pv.1, ..p }
            } else {
                p
            }
        },
        None => p,
    }
}

/// Commits a batch (data-parallel) executor's per-particle results,
/// discarding any result that is absent or out of the fixed-point
/// domain, so one divergent calculation never corrupts the rest of the
/// colony. Element `k` becomes `batch_apply` of its old state and result
/// `k`; particles beyond the result array keep their state.
pub fn apply_batch_results(
    particles: &mut Vec<Particle>,
    results: &Vec<Option<(Vec3Fx, Vec3Fx)>>,
    grid: &GridParameters,
)
    requires
        grid.wf(),
        forall|k: int|
            0 <= k < old(particles)@.len() ==> within_grid(
                (#[trigger] old(particles)@[k]).position,
                *grid,
            ),
        forall|k: int|
            0 <= k < old(particles)@.len() ==> in_box(
                (#[trigger] old(particles)@[k]).velocity,
                MAX_VELOCITY as int,
            ),
    ensures
        final(particles)@.len() == old(particles)@.len(),
        forall|k: int|
            0 <= k < final(particles)@.len() ==> #[trigger] final(particles)@[k] == (if k
                < results@.len() {
                batch_apply(old(particles)@[k], results@[k], *grid)
            } else {
                old(particles)@[k]
            }),
        forall|k: int|
            0 <= k < final(particles)@.len() ==> within_grid(
                (#[trigger] final(particles)@[k]).position,
                *grid,
            ),
        forall|k: int|
            0 <= k < final(particles)@.len() ==> in_box(
                (#[trigger] final(particles)@[k]).velocity,
                MAX_VELOCITY as int,
            ),
{
    let n = particles.len();
    let m = results.len();
    let bound = if m < n {
        m
    } else {
        n
    };
    let mut k: usize = 0;
    while k < bound
        invariant
            n == particles@.len(),
            particles@.len() == old(particles)@.len(),
            m == results@.len(),
            bound <= n,
            bound <= m,
            k <= bound,
            grid.wf(),
            forall|j: int|
                k as int <= j < particles@.len() ==> #[trigger] particles@[j] == old(
                    particles,
                )@[j],
            forall|j: int|
                0 <= j < particles@.len() ==> within_grid(
                    (#[trigger] particles@[j]).position,
                    *grid,
                ),
            forall|j: int|
                0 <= j < particles@.len() ==> in_box(
                    (#[trigger] particles@[j]).velocity,
                    MAX_VELOCITY as int,
                ),
            forall|j: int|
                0 <= j < k as int ==> #[trigger] particles@[j] == batch_apply(
                    old(particles)@[j],
                    results@[j],
                    *grid,
                ),
        decreases bound - k,
    {
        let p = particles[k];
        match &results[k] {
            Some(pv) => {
                let pos = pv.0;
                let vel = pv.1;
                let pos_ok = grid.is_in_bounds(pos);
                let vel_ok = vel.x >= -MAX_VELOCITY && vel.x <= MAX_VELOCITY && vel.y
                    >= -MAX_VELOCITY && vel.y <= MAX_VELOCITY && vel.z >= -MAX_VELOCITY && vel.z
                    <= MAX_VELOCITY;
                if pos_ok && vel_ok {
                    particles[k] = Particle { position: pos, velocity: vel, ..p };
                }
            },
            None => {},
        }
        k = k + 1;
    }
}

/// A food displacement, scaled by a bounded magnitude, stays within
/// machine range and within `160_000 * dist`.
proof fn lemma_food_products(d: Vec3Fx, mag: int, dist: int)
    requires
        1 <= dist,
        abs_spec(mag) <= 160_000,
        abs_spec(d.x as int) <= dist,
        abs_spec(d.y as int) <= dist,
        abs_spec(d.z as int) <= dist,
        dist <= 1_000_000_000,
    ensures
        abs_spec((d.x as int) * mag) <= 160_000 * dist,
        abs_spec((d.y as int) * mag) <= 160_000 * dist,
        abs_spec((d.z as int) * mag) <= 160_000 * dist,
        i64::MIN < (d.x as int) * mag <= i64::MAX,
        i64::MIN < (d.y as int) * mag <= i64::MAX,
        i64::MIN < (d.z as int) * mag <= i64::MAX,
{
    assert(abs_spec((d.x as int) * mag) <= 160_000 * dist && abs_spec((d.x as int) * mag)
        <= i64::MAX) by (nonlinear_arith)
        requires
            1 <= dist <= 1_000_000_000,
            abs_spec(mag) <= 160_000,
            abs_spec(d.x as int) <= dist,
    {}
    assert(abs_spec((d.y as int) * mag) <= 160_000 * dist && abs_spec((d.y as int) * mag)
        <= i64::MAX) by (nonlinear_arith)
        requires
            1 <= dist <= 1_000_000_000,
            abs_spec(mag) <= 160_000,
            abs_spec(d.y as int) <= dist,
    {}
    assert(abs_spec((d.z as int) * mag) <= 160_000 * dist && abs_spec((d.z as int) * mag)
        <= i64::MAX) by (nonlinear_arith)
        requires
            1 <= dist <= 1_000_000_000,
            abs_spec(mag) <= 160_000,
            abs_spec(d.z as int) <= dist,
    {}
}

} // verus!
