//! The genetic engine: elitism, weighted tournament selection, adaptive
//! mutation, and assembly of the next generation from an epoch's score
//! snapshot.

use vstd::prelude::*;
use crate::fixed::{
    abs_spec, fx_mul, fx_mul_spec, lemma_div_le, lemma_tdiv_monotone, tdiv, tdiv_i64, SCALE,
};
use crate::genome::Genome;
use crate::params::{SimulationParameters, COORD_LIMIT, COUNT_LIMIT};
use crate::rng::rand_in_range;
use crate::stats::{bounded_scores, calculate_epoch_stats, EpochStats};

verus! {

/// Entrants per tournament (capped at the population size).
pub const TOURNAMENT_SIZE: usize = 3;

/// Hard cap on the adaptive mutation rate (0.5).
pub const MUTATION_RATE_CAP: i64 = 500;

/// A genome together with the score its colony earned this epoch.
pub struct ScoredGenome {
    /// The colony's genome at epoch end.
    pub genome: Genome,
    /// The colony's accumulated score.
    pub score: i64,
}

/// Two genomes hold exactly the same data.
pub open spec fn same_genome(a: Genome, b: Genome) -> bool {
    &&& a.type_count == b.type_count
    &&& a.force_matrix@ == b.force_matrix@
    &&& a.food_forces@ == b.food_forces@
}

/// Every genome in the snapshot is well-formed with the given type count,
/// and every score is bounded.
pub open spec fn wf_snapshot(s: Seq<ScoredGenome>, type_count: int) -> bool {
    &&& forall|i: int| 0 <= i < s.len() ==> (#[trigger] s[i].genome).wf()
    &&& forall|i: int| 0 <= i < s.len() ==> (#[trigger] s[i].genome).type_count == type_count
    &&& forall|i: int| 0 <= i < s.len() ==> abs_spec(#[trigger] s[i].score as int) <= COORD_LIMIT
}

/// The snapshot's scores, in snapshot order.
pub open spec fn score_seq(s: Seq<ScoredGenome>) -> Seq<i64> {
    Seq::new(s.len(), |i: int| s[i].score)
}

/// `g` could have been bred from parents `a` and `b`: the same type
/// count and entry counts, and every entry one mutation step away from
/// the corresponding entry of one of the two parents (a copied parent is
/// the case `a == b`).
pub open spec fn bred_from(g: Genome, a: Genome, b: Genome) -> bool {
    &&& g.type_count == a.type_count
    &&& g.type_count == b.type_count
    &&& g.force_matrix@.len() == a.force_matrix@.len()
    &&& g.force_matrix@.len() == b.force_matrix@.len()
    &&& g.food_forces@.len() == a.food_forces@.len()
    &&& g.food_forces@.len() == b.food_forces@.len()
    &&& forall|e: int|
        0 <= e < g.force_matrix@.len() ==> crate::genome::mutated_entry(
            a.force_matrix@[e] as int,
            #[trigger] g.force_matrix@[e] as int,
        ) || crate::genome::mutated_entry(b.force_matrix@[e] as int, g.force_matrix@[e] as int)
    &&& forall|e: int|
        0 <= e < g.food_forces@.len() ==> crate::genome::mutated_entry(
            a.food_forces@[e] as int,
            #[trigger] g.food_forces@[e] as int,
        ) || crate::genome::mutated_entry(b.food_forces@[e] as int, g.food_forces@[e] as int)
}

/// Number of genomes carried over unchanged: `ceil(count * ratio)`, at
/// least one.
pub open spec fn elite_count_spec(simulation_count: int, elite_ratio: int) -> int {
    let c = (simulation_count * elite_ratio + (SCALE - 1)) / (SCALE as int);
    if c < 1 {
        1
    } else {
        c
    }
}

/// Elite head count for this configuration; always between 1 and the
/// colony count.
pub fn elite_count(simulation_count: usize, elite_ratio: i64) -> (r: usize)
    requires
        1 <= simulation_count <= COUNT_LIMIT,
        0 < elite_ratio <= 1000,
    ensures
        r as int == elite_count_spec(simulation_count as int, elite_ratio as int),
        1 <= r <= simulation_count,
{
    proof {
        assert(0 <= (simulation_count as int) * (elite_ratio as int) <= 10_000 * 1000)
            by (nonlinear_arith)
            requires
                1 <= simulation_count as int <= 10_000,
                0 < elite_ratio as int <= 1000,
        {}
    }
    let scaled: i64 = (simulation_count as i64) * elite_ratio + 999;
    let c = tdiv_i64(scaled, 1000);
    proof {
        assert((scaled as int) < (simulation_count as int + 1) * 1000) by (nonlinear_arith)
            requires
                elite_ratio <= 1000,
                1 <= simulation_count as int,
                scaled as int == (simulation_count as int) * elite_ratio + 999,
        {}
        vstd::arithmetic::div_mod::lemma_multiply_divide_lt(
            scaled as int,
            1000,
            simulation_count as int + 1,
        );
        assert(tdiv(scaled as int, 1000) == scaled as int / 1000);
    }
    if c < 1 {
        1
    } else {
        c as usize
    }
}

/// The adaptive mutation rate: the base rate scaled by a diversity factor
/// (2 when the deviation is small, 0.5 when it is large), a stagnation
/// factor (1.5 when the epoch brought no improvement) and an early-phase
/// factor (1.5 during the first ten epochs), capped at
/// `MUTATION_RATE_CAP`.
pub open spec fn adaptive_rate_spec(
    std_deviation: int,
    improvement: int,
    base_rate: int,
    epoch: int,
) -> int {
    let diversity = if std_deviation < 5000 {
        2000
    } else if std_deviation > 20000 {
        500
    } else {
        1000
    };
    let stagnation: int = if improvement <= 0 {
        1500
    } else {
        1000
    };
    let early: int = if epoch < 10 {
        1500
    } else {
        1000
    };
    let raw = fx_mul_spec(fx_mul_spec(fx_mul_spec(base_rate, diversity), stagnation), early);
    if raw > MUTATION_RATE_CAP as int {
        MUTATION_RATE_CAP as int
    } else {
        raw
    }
}

/// Exact twin of `adaptive_rate_spec`; the result is a probability no
/// greater than the cap.
pub fn calculate_adaptive_mutation_rate(
    std_deviation: i64,
    improvement: i64,
    base_rate: i64,
    epoch: usize,
) -> (r: i64)
    requires
        0 <= std_deviation,
        0 <= base_rate <= 1000,
    ensures
        r as int == adaptive_rate_spec(
            std_deviation as int,
            improvement as int,
            base_rate as int,
            epoch as int,
        ),
        0 <= r <= MUTATION_RATE_CAP,
{
    let diversity: i64 = if std_deviation < 5000 {
        2000
    } else if std_deviation > 20000 {
        500
    } else {
        1000
    };
    let stagnation: i64 = if improvement <= 0 {
        1500
    } else {
        1000
    };
    let early: i64 = if epoch < 10 {
        1500
    } else {
        1000
    };
    proof {
        lemma_rate_product_bounds(base_rate as int, diversity as int, stagnation as int);
    }
    let a = fx_mul(base_rate, diversity);
    let b = fx_mul(a, stagnation);
    proof {
        assert(abs_spec(b as int) * abs_spec(early as int) <= i64::MAX * (SCALE as int))
            by (nonlinear_arith)
            requires
                0 <= b as int <= 3000,
                0 <= early as int <= 1500,
        {}
    }
    let c = fx_mul(b, early);
    if c > MUTATION_RATE_CAP {
        MUTATION_RATE_CAP
    } else {
        c
    }
}

/// The intermediate products of the adaptive rate stay small and
/// non-negative.
proof fn lemma_rate_product_bounds(base: int, diversity: int, stagnation: int)
    requires
        0 <= base <= 1000,
        500 <= diversity <= 2000,
        1000 <= stagnation <= 1500,
    ensures
        0 <= fx_mul_spec(base, diversity) <= 2000,
        0 <= fx_mul_spec(fx_mul_spec(base, diversity), stagnation) <= 3000,
        forall|early: int|
            1000 <= early <= 1500 ==> 0 <= #[trigger] fx_mul_spec(
                fx_mul_spec(fx_mul_spec(base, diversity), stagnation),
                early,
            ) <= 4500,
{
    crate::fixed::lemma_fx_mul_bound(base, diversity, 1000, 2000);
    vstd::arithmetic::div_mod::lemma_div_pos_is_pos(base * diversity, SCALE as int);
    assert(base * diversity >= 0) by (nonlinear_arith)
        requires
            base >= 0,
            diversity >= 0,
    {}
    assert(tdiv(2000000int, 1000) == 2000);
    let a = fx_mul_spec(base, diversity);
    crate::fixed::lemma_fx_mul_bound(a, stagnation, 2000, 1500);
    assert(a * stagnation >= 0) by (nonlinear_arith)
        requires
            a >= 0,
            stagnation >= 0,
    {}
    vstd::arithmetic::div_mod::lemma_div_pos_is_pos(a * stagnation, SCALE as int);
    assert(tdiv(3000000int, 1000) == 3000);
    let b = fx_mul_spec(a, stagnation);
    assert forall|early: int| 1000 <= early <= 1500 implies 0 <= #[trigger] fx_mul_spec(b, early)
        <= 4500 by {
        crate::fixed::lemma_fx_mul_bound(b, early, 3000, 1500);
        assert(b * early >= 0) by (nonlinear_arith)
            requires
                b >= 0,
                early >= 0,
        {}
        vstd::arithmetic::div_mod::lemma_div_pos_is_pos(b * early, SCALE as int);
        assert(tdiv(4500000int, 1000) == 4500);
    }
}

/// Scaling a non-negative value by a larger non-negative fixed-point
/// factor never shrinks it.
proof fn lemma_fx_mul_monotone_factor(x: int, f1: int, f2: int)
    requires
        0 <= x,
        0 <= f1 <= f2,
    ensures
        fx_mul_spec(x, f1) <= fx_mul_spec(x, f2),
{
    assert(x * f1 <= x * f2) by (nonlinear_arith)
        requires
            0 <= x,
            f1 <= f2,
    {}
    lemma_tdiv_monotone(x * f1, x * f2, SCALE as int);
}

/// Monotone scaling in the other position.
proof fn lemma_fx_mul_monotone_base(x1: int, x2: int, f: int)
    requires
        0 <= x1 <= x2,
        0 <= f,
    ensures
        fx_mul_spec(x1, f) <= fx_mul_spec(x2, f),
{
    assert(x1 * f <= x2 * f) by (nonlinear_arith)
        requires
            x1 <= x2,
            0 <= f,
    {}
    lemma_tdiv_monotone(x1 * f, x2 * f, SCALE as int);
}

/// Stagnation never lowers the mutation rate: with the same deviation,
/// base rate and epoch, an epoch without improvement mutates at least as
/// strongly as one with improvement.
pub proof fn lemma_rate_monotone_in_stagnation(
    std_deviation: int,
    improvement_stagnant: int,
    improvement_progress: int,
    base_rate: int,
    epoch: int,
)
    requires
        0 <= std_deviation,
        0 <= base_rate <= 1000,
        improvement_stagnant <= 0,
        improvement_progress > 0,
    ensures
        adaptive_rate_spec(std_deviation, improvement_progress, base_rate, epoch)
            <= adaptive_rate_spec(std_deviation, improvement_stagnant, base_rate, epoch),
{
    let diversity = if std_deviation < 5000 {
        2000int
    } else if std_deviation > 20000 {
        500int
    } else {
        1000int
    };
    let early: int = if epoch < 10 {
        1500
    } else {
        1000
    };
    lemma_rate_product_bounds(base_rate, diversity, 1000);
    lemma_rate_product_bounds(base_rate, diversity, 1500);
    let a = fx_mul_spec(base_rate, diversity);
    lemma_fx_mul_monotone_factor(a, 1000, 1500);
    lemma_fx_mul_monotone_base(fx_mul_spec(a, 1000), fx_mul_spec(a, 1500), early);
}

/// The first ten epochs never mutate less than later epochs: with the
/// same deviation, improvement and base rate, an early epoch's rate is at
/// least a late epoch's.
pub proof fn lemma_rate_monotone_in_early_phase(
    std_deviation: int,
    improvement: int,
    base_rate: int,
    epoch_early: int,
    epoch_late: int,
)
    requires
        0 <= std_deviation,
        0 <= base_rate <= 1000,
        epoch_early < 10,
        epoch_late >= 10,
    ensures
        adaptive_rate_spec(std_deviation, improvement, base_rate, epoch_late)
            <= adaptive_rate_spec(std_deviation, improvement, base_rate, epoch_early),
{
    let diversity = if std_deviation < 5000 {
        2000int
    } else if std_deviation > 20000 {
        500int
    } else {
        1000int
    };
    let stagnation: int = if improvement <= 0 {
        1500
    } else {
        1000
    };
    lemma_rate_product_bounds(base_rate, diversity, stagnation);
    let b = fx_mul_spec(fx_mul_spec(base_rate, diversity), stagnation);
    lemma_fx_mul_monotone_factor(b, 1000, 1500);
}

/// The adaptive rate never exceeds its cap, whatever the inputs.
pub proof fn lemma_rate_capped(std_deviation: int, improvement: int, base_rate: int, epoch: int)
    ensures
        adaptive_rate_spec(std_deviation, improvement, base_rate, epoch) <= MUTATION_RATE_CAP as int,
{
}

/// Strictly increasing index sequence.
spec fn strictly_inc(s: Seq<usize>) -> bool {
    forall|i: int, j: int| 0 <= i < j < s.len() ==> s[i] < s[j]
}

/// Colony indices ordered by score, best first. The result is a
/// duplicate-free list of indices into the snapshot whose scores are
/// non-increasing; in particular the first index carries a maximal score.
pub fn rank_indices_desc(scored: &Vec<ScoredGenome>) -> (r: Vec<usize>)
    ensures
        r@.len() == scored@.len(),
        forall|k: int| 0 <= k < r@.len() ==> #[trigger] r@[k] < scored@.len(),
        forall|k1: int, k2: int|
            0 <= k1 < k2 < r@.len() ==> scored@[#[trigger] r@[k1] as int].score
                >= scored@[#[trigger] r@[k2] as int].score,
        forall|k1: int, k2: int| 0 <= k1 < k2 < r@.len() ==> #[trigger] r@[k1] != #[trigger] r@[k2],
        r@.len() > 0 ==> forall|j: int|
            0 <= j < scored@.len() ==> #[trigger] scored@[j].score
                <= scored@[r@[0] as int].score,
{
    let n = scored.len();
    let mut remaining: Vec<usize> = Vec::new();
    let mut i: usize = 0;
    while i < n
        invariant
            i <= n,
            remaining@.len() == i,
            forall|k: int| 0 <= k < i as int ==> #[trigger] remaining@[k] == k,
        decreases n - i,
    {
        remaining.push(i);
        i = i + 1;
    }
    let mut out: Vec<usize> = Vec::new();
    while remaining.len() > 0
        invariant
            n == scored@.len(),
            out@.len() + remaining@.len() == n,
            strictly_inc(remaining@),
            forall|k: int| 0 <= k < remaining@.len() ==> #[trigger] remaining@[k] < n,
            forall|k: int| 0 <= k < out@.len() ==> #[trigger] out@[k] < n,
            forall|a: int, b: int|
                0 <= a < out@.len() && 0 <= b < remaining@.len() ==> #[trigger] out@[a]
                    != #[trigger] remaining@[b],
            forall|k1: int, k2: int| 0 <= k1 < k2 < out@.len() ==> #[trigger] out@[k1] != #[trigger] out@[k2],
            forall|k1: int, k2: int|
                0 <= k1 < k2 < out@.len() ==> scored@[#[trigger] out@[k1] as int].score
                    >= scored@[#[trigger] out@[k2] as int].score,
            forall|a: int, b: int|
                0 <= a < out@.len() && 0 <= b < remaining@.len() ==> scored@[#[trigger] out@[
                a] as int].score >= scored@[#[trigger] remaining@[b] as int].score,
            out@.len() == 0 ==> remaining@.len() == n && (forall|k: int|
                0 <= k < n as int ==> #[trigger] remaining@[k] == k),
            out@.len() > 0 ==> forall|j: int|
                0 <= j < n as int ==> #[trigger] scored@[j].score <= scored@[out@[0] as int].score,
        decreases remaining@.len(),
    {
        let mut best: usize = 0;
        let mut k: usize = 1;
        while k < remaining.len()
            invariant
                best < k <= remaining@.len(),
                remaining@.len() > 0,
                n == scored@.len(),
                forall|j: int| 0 <= j < remaining@.len() ==> #[trigger] remaining@[j] < n,
                forall|j: int|
                    0 <= j < k as int ==> scored@[remaining@[best as int] as int].score
                        >= scored@[#[trigger] remaining@[j] as int].score,
            decreases remaining@.len() - k,
        {
            if scored[remaining[k]].score > scored[remaining[best]].score {
                best = k;
            }
            k = k + 1;
        }
        let ghost prev_out = out@;
        let ghost prev_rem = remaining@;
        let x = remaining.remove(best);
        out.push(x);
        proof {
            assert(forall|j: int|
                0 <= j < remaining@.len() ==> #[trigger] remaining@[j] == prev_rem[if j < best
                    as int {
                    j
                } else {
                    j + 1
                }]);
            if prev_out.len() == 0 {
                assert(out@[0] == prev_rem[best as int]);
                assert forall|j: int| 0 <= j < n as int implies #[trigger] scored@[j].score
                    <= scored@[out@[0] as int].score by {
                    assert(prev_rem[j] == j);
                    assert(scored@[prev_rem[j] as int].score
                        <= scored@[prev_rem[best as int] as int].score);
                }
            }
        }
    }
    out
}

/// Weighted tournament selection: a fixed-size tournament is drawn with
/// rank-weighted probabilities (weight `1 / (1 + rank * 0.1)`, ranks in
/// the order of the given population, which the caller passes best
/// first), and the entrant with the highest score wins. The result is
/// always a copy of some member's genome.
pub fn weighted_tournament_selection(population: &Vec<ScoredGenome>) -> (r: Genome)
    requires
        1 <= population@.len() <= COUNT_LIMIT,
        forall|i: int| 0 <= i < population@.len() ==> (#[trigger] population@[i].genome).wf(),
    ensures
        exists|i: int|
            0 <= i < population@.len() && same_genome(r, #[trigger] population@[i].genome),
        r.wf(),
{
    let n = population.len();
    // Fixed-point rank weights 1 / (1 + rank / 10); distant ranks may
    // round to weight zero.
    let mut weights: Vec<i64> = Vec::new();
    let mut total: i64 = 0;
    let mut i: usize = 0;
    while i < n
        invariant
            n <= COUNT_LIMIT,
            i <= n,
            weights@.len() == i,
            forall|k: int| 0 <= k < i as int ==> 0 <= #[trigger] weights@[k] <= 1000,
            0 <= total <= i as int * 1000,
        decreases n - i,
    {
        let divisor: i64 = 1000 + 100 * (i as i64);
        let w = tdiv_i64(1_000_000, divisor);
        proof {
            lemma_div_le(1_000_000, divisor as int, 1000);
            vstd::arithmetic::div_mod::lemma_div_pos_is_pos(1_000_000, divisor as int);
            assert((i as int) * 1000 + 1000 == (i as int + 1) * 1000) by (nonlinear_arith);
        }
        weights.push(w);
        total = total + w;
        i = i + 1;
    }
    let mut winner: usize = 0;
    let mut have_winner = false;
    let tournament_size = if TOURNAMENT_SIZE < n {
        TOURNAMENT_SIZE
    } else {
        n
    };
    let mut round: usize = 0;
    while round < tournament_size
        invariant
            n == population@.len(),
            1 <= n <= COUNT_LIMIT,
            weights@.len() == n,
            forall|k: int| 0 <= k < n as int ==> 0 <= #[trigger] weights@[k] <= 1000,
            0 <= total <= 10_000_000,
            winner < n,
        decreases tournament_size - round,
    {
        let entrant = if total > 0 {
            let mut draw = rand_in_range(0, total - 1);
            let mut j: usize = 0;
            let mut picked: usize = n - 1;
            while j < n
                invariant_except_break
                    0 <= draw <= 10_000_000,
                invariant
                    n == weights@.len(),
                    1 <= n,
                    j <= n,
                    picked < n,
                    forall|k: int| 0 <= k < n as int ==> 0 <= #[trigger] weights@[k] <= 1000,
                ensures
                    picked < n,
                decreases n - j,
            {
                draw = draw - weights[j];
                if draw <= 0 {
                    picked = j;
                    break ;
                }
                j = j + 1;
            }
            picked
        } else {
            0
        };
        if !have_winner || population[entrant].score > population[winner].score {
            winner = entrant;
            have_winner = true;
        }
        round = round + 1;
    }
    let chosen = population[winner].genome.duplicate();
    proof {
        assert(same_genome(chosen, population@[winner as int].genome));
    }
    chosen
}

/// Assembles the next generation from an epoch's snapshot: the epoch's
/// statistics are computed, the snapshot is ranked best-first, the
/// `elite_count` best genomes are carried over unchanged (best first),
/// and every remaining slot is filled by tournament selection over the
/// ranked snapshot — crossing two parents with probability
/// `crossover_rate`, copying one otherwise — followed by mutation at the
/// adaptive rate. The best-scoring genome of the snapshot is always the
/// first genome of the result, unmodified, and every bred slot is
/// `bred_from` two snapshot members.
pub fn next_generation(
    scored: &Vec<ScoredGenome>,
    params: &SimulationParameters,
    previous_best: i64,
) -> (r: (Vec<Genome>, EpochStats))
    requires
        params.wf(),
        scored@.len() == params.simulation_count,
        wf_snapshot(scored@, params.particle_types as int),
        abs_spec(previous_best as int) <= COORD_LIMIT,
    ensures
        r.0@.len() == params.simulation_count,
        forall|k: int| 0 <= k < r.0@.len() ==> (#[trigger] r.0@[k]).wf(),
        forall|k: int|
            0 <= k < r.0@.len() ==> (#[trigger] r.0@[k]).type_count == params.particle_types,
        exists|i: int|
            0 <= i < scored@.len() && (forall|j: int|
                0 <= j < scored@.len() ==> (#[trigger] scored@[j].score)
                    <= scored@[i].score) && same_genome(r.0@[0], #[trigger] scored@[i].genome),
        forall|k: int|
            0 <= k < elite_count_spec(
                params.simulation_count as int,
                params.elite_ratio as int,
            ) ==> exists|i: int|
                0 <= i < scored@.len() && same_genome(
                    #[trigger] r.0@[k],
                    #[trigger] scored@[i].genome,
                ),
        forall|k: int|
            #![trigger r.0@[k]]
            elite_count_spec(params.simulation_count as int, params.elite_ratio as int) <= k
                < r.0@.len() ==> exists|i: int, j: int|
                #![trigger scored@[i].genome, scored@[j].genome]
                0 <= i < scored@.len() && 0 <= j < scored@.len() && bred_from(
                    r.0@[k],
                    scored@[i].genome,
                    scored@[j].genome,
                ),
        r.1.improvement as int == r.1.best_score - previous_best,
        exists|i: int| 0 <= i < scored@.len() && #[trigger] scored@[i].score == r.1.best_score,
        forall|j: int| 0 <= j < scored@.len() ==> #[trigger] scored@[j].score <= r.1.best_score,
        exists|i: int| 0 <= i < scored@.len() && #[trigger] scored@[i].score == r.1.worst_score,
        forall|j: int| 0 <= j < scored@.len() ==> #[trigger] scored@[j].score >= r.1.worst_score,
        r.1.average_score as int == crate::fixed::tdiv(
            crate::stats::sum_spec(score_seq(scored@)),
            scored@.len() as int,
        ),
        exists|t: Seq<i64>|
            crate::stats::sorted_asc(t) && t.to_multiset() == score_seq(scored@).to_multiset()
                && #[trigger] t.len() == scored@.len() && r.1.median_score as int
                == crate::stats::median_spec(t),
        r.1.std_deviation >= 0,
        (r.1.std_deviation as int) * (r.1.std_deviation as int) <= crate::fixed::tdiv(
            crate::stats::sq_dev_sum(score_seq(scored@), r.1.average_score as int),
            scored@.len() as int,
        ),
        (r.1.std_deviation as int + 1) * (r.1.std_deviation as int + 1) > crate::fixed::tdiv(
            crate::stats::sq_dev_sum(score_seq(scored@), r.1.average_score as int),
            scored@.len() as int,
        ),
{
    let n = scored.len();
    let mut scores: Vec<i64> = Vec::new();
    let mut i: usize = 0;
    while i < n
        invariant
            n == scored@.len(),
            i <= n,
            scores@.len() == i,
            wf_snapshot(scored@, params.particle_types as int),
            forall|k: int| 0 <= k < i as int ==> #[trigger] scores@[k] == scored@[k].score,
        decreases n - i,
    {
        scores.push(scored[i].score);
        i = i + 1;
    }
    proof {
        assert(bounded_scores(scores@, COORD_LIMIT as int));
        assert(scores@ =~= score_seq(scored@));
    }
    let stats = calculate_epoch_stats(&scores, previous_best);
    let order = rank_indices_desc(scored);
    let elites = elite_count(params.simulation_count, params.elite_ratio);
    // The tournament weights fall on score-descending rank, so reorder
    // the snapshot best-first before any parent is drawn.
    let mut ranked: Vec<ScoredGenome> = Vec::new();
    let mut q: usize = 0;
    while q < n
        invariant
            n == scored@.len(),
            q <= n,
            ranked@.len() == q,
            wf_snapshot(scored@, params.particle_types as int),
            order@.len() == n,
            forall|j: int| 0 <= j < order@.len() ==> #[trigger] order@[j] < n,
            forall|j: int|
                0 <= j < q as int ==> same_genome(
                    (#[trigger] ranked@[j]).genome,
                    scored@[order@[j] as int].genome,
                ),
            forall|j: int| 0 <= j < q as int ==> (#[trigger] ranked@[j]).genome.wf(),
        decreases n - q,
    {
        let src = order[q];
        ranked.push(ScoredGenome { genome: scored[src].genome.duplicate(), score: scored[src].score });
        q = q + 1;
    }
    let mut next: Vec<Genome> = Vec::new();
    let mut k: usize = 0;
    while k < elites
        invariant
            n == scored@.len(),
            n == params.simulation_count,
            1 <= elites <= n,
            k <= elites,
            next@.len() == k,
            wf_snapshot(scored@, params.particle_types as int),
            order@.len() == n,
            forall|j: int| 0 <= j < order@.len() ==> #[trigger] order@[j] < n,
            forall|j: int|
                0 <= j < k as int ==> same_genome(
                    #[trigger] next@[j],
                    scored@[order@[j] as int].genome,
                ),
        decreases elites - k,
    {
        next.push(scored[order[k]].genome.duplicate());
        k = k + 1;
    }
    let adaptive_rate = calculate_adaptive_mutation_rate(
        stats.std_deviation,
        stats.improvement,
        params.mutation_rate,
        params.current_epoch,
    );
    while next.len() < n
        invariant
            n == scored@.len(),
            n == params.simulation_count,
            1 <= elites <= n,
            elites <= next@.len(),
            next@.len() <= n,
            params.wf(),
            0 <= adaptive_rate <= MUTATION_RATE_CAP,
            wf_snapshot(scored@, params.particle_types as int),
            order@.len() == n,
            forall|j: int| 0 <= j < order@.len() ==> #[trigger] order@[j] < n,
            ranked@.len() == n,
            forall|j: int|
                0 <= j < n as int ==> same_genome(
                    (#[trigger] ranked@[j]).genome,
                    scored@[order@[j] as int].genome,
                ),
            forall|j: int| 0 <= j < n as int ==> (#[trigger] ranked@[j]).genome.wf(),
            forall|j: int|
                0 <= j < elites as int ==> same_genome(
                    #[trigger] next@[j],
                    scored@[order@[j] as int].genome,
                ),
            forall|j: int| 0 <= j < next@.len() ==> (#[trigger] next@[j]).wf(),
            forall|j: int|
                0 <= j < next@.len() ==> (#[trigger] next@[j]).type_count == params.particle_types,
            forall|k: int|
                #![trigger next@[k]]
                elites as int <= k < next@.len() ==> exists|i: int, j: int|
                    #![trigger scored@[i].genome, scored@[j].genome]
                    0 <= i < scored@.len() && 0 <= j < scored@.len() && bred_from(
                        next@[k],
                        scored@[i].genome,
                        scored@[j].genome,
                    ),
        decreases n - next@.len(),
    {
        let ghost mut w1: int = 0;
        let ghost mut w2: int = 0;
        let mut child = if rand_in_range(0, 999) < params.crossover_rate && n >= 2 {
            let parent1 = weighted_tournament_selection(&ranked);
            let parent2 = weighted_tournament_selection(&ranked);
            proof {
                let r1 = choose|i: int|
                    0 <= i < ranked@.len() && same_genome(parent1, ranked@[i].genome);
                let r2 = choose|i: int|
                    0 <= i < ranked@.len() && same_genome(parent2, ranked@[i].genome);
                w1 = order@[r1] as int;
                w2 = order@[r2] as int;
                assert(same_genome(parent1, scored@[w1].genome));
                assert(same_genome(parent2, scored@[w2].genome));
            }
            parent1.crossover(&parent2)
        } else {
            let parent = weighted_tournament_selection(&ranked);
            proof {
                let r1 = choose|i: int|
                    0 <= i < ranked@.len() && same_genome(parent, ranked@[i].genome);
                w1 = order@[r1] as int;
                w2 = w1;
                assert(same_genome(parent, scored@[w1].genome));
            }
            parent
        };
        proof {
            assert(0 <= w1 < scored@.len() && 0 <= w2 < scored@.len());
            assert(forall|e: int|
                0 <= e < child.force_matrix@.len() ==> #[trigger] child.force_matrix@[e]
                    == scored@[w1].genome.force_matrix@[e] || child.force_matrix@[e]
                    == scored@[w2].genome.force_matrix@[e]);
            assert(forall|e: int|
                0 <= e < child.food_forces@.len() ==> #[trigger] child.food_forces@[e]
                    == scored@[w1].genome.food_forces@[e] || child.food_forces@[e]
                    == scored@[w2].genome.food_forces@[e]);
        }
        child.mutate(adaptive_rate);
        proof {
            assert(bred_from(child, scored@[w1].genome, scored@[w2].genome));
        }
        next.push(child);
    }
    proof {
        let ghost top = order@[0] as int;
        assert(same_genome(next@[0], scored@[top].genome));
        assert forall|k: int|
            0 <= k < elite_count_spec(
                params.simulation_count as int,
                params.elite_ratio as int,
            ) implies exists|i: int|
            0 <= i < scored@.len() && same_genome(#[trigger] next@[k], #[trigger] scored@[i].genome) by {
            let src = order@[k] as int;
            assert(same_genome(next@[k], scored@[src].genome));
        }
        assert(forall|j: int|
            0 <= j < scored@.len() ==> (#[trigger] scored@[j].score) <= scored@[top].score);
        assert(exists|i: int| 0 <= i < scored@.len() && #[trigger] scored@[i].score
            == stats.best_score) by {
            assert(scores@.contains(stats.best_score));
            let w = choose|w: int| 0 <= w < scores@.len() && scores@[w] == stats.best_score;
            assert(scored@[w].score == stats.best_score);
        }
        assert forall|j: int| 0 <= j < scored@.len() implies #[trigger] scored@[j].score
            <= stats.best_score by {
            assert(scores@[j] == scored@[j].score);
            assert(scores@[j] <= stats.best_score);
        }
        assert(exists|i: int| 0 <= i < scored@.len() && #[trigger] scored@[i].score
            == stats.worst_score) by {
            assert(scores@.contains(stats.worst_score));
            let w = choose|w: int| 0 <= w < scores@.len() && scores@[w] == stats.worst_score;
            assert(scored@[w].score == stats.worst_score);
        }
        assert forall|j: int| 0 <= j < scored@.len() implies #[trigger] scored@[j].score
            >= stats.worst_score by {
            assert(scores@[j] == scored@[j].score);
            assert(scores@[j] >= stats.worst_score);
        }
    }
    (next, stats)
}

} // verus!
