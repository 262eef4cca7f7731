//! Per-epoch score statistics: best, worst, average, median, population
//! standard deviation, and the improvement over the previous epoch's best.
//! Computed fresh each epoch from the score snapshot; never persisted.

use vstd::prelude::*;
use crate::fixed::{abs_spec, isqrt, lemma_square_bound, tdiv, tdiv_i64};
use crate::params::{COORD_LIMIT, COUNT_LIMIT};

verus! {

broadcast use vstd::seq_lib::group_to_multiset_ensures;

/// Non-decreasing order.
pub open spec fn sorted_asc(s: Seq<i64>) -> bool {
    forall|i: int, j: int| 0 <= i < j < s.len() ==> s[i] <= s[j]
}

/// Every element's magnitude is at most `m`.
pub open spec fn bounded_scores(s: Seq<i64>, m: int) -> bool {
    forall|i: int| 0 <= i < s.len() ==> abs_spec(#[trigger] s[i] as int) <= m
}

/// Sum of a score sequence.
pub open spec fn sum_spec(s: Seq<i64>) -> int
    decreases s.len(),
{
    if s.len() == 0 {
        0
    } else {
        sum_spec(s.drop_last()) + s.last()
    }
}

/// Sum of squared deviations from `avg`.
pub open spec fn sq_dev_sum(s: Seq<i64>, avg: int) -> int
    decreases s.len(),
{
    if s.len() == 0 {
        0
    } else {
        sq_dev_sum(s.drop_last(), avg) + (s.last() - avg) * (s.last() - avg)
    }
}

/// Median of a sorted sequence: the middle element, or the rounded mean
/// of the two middle elements on an even count.
pub open spec fn median_spec(s: Seq<i64>) -> int
    recommends
        s.len() > 0,
        sorted_asc(s),
{
    let n = s.len() as int;
    if n % 2 == 0 {
        tdiv(s[n / 2 - 1] + s[n / 2], 2)
    } else {
        s[n / 2] as int
    }
}

/// Appending an element adds it to the sum.
pub proof fn lemma_sum_push(s: Seq<i64>, x: i64)
    ensures
        sum_spec(s.push(x)) == sum_spec(s) + x,
{
    assert(s.push(x).drop_last() =~= s);
}

/// Appending an element adds its squared deviation.
pub proof fn lemma_sq_dev_push(s: Seq<i64>, avg: int, x: i64)
    ensures
        sq_dev_sum(s.push(x), avg) == sq_dev_sum(s, avg) + (x - avg) * (x - avg),
{
    assert(s.push(x).drop_last() =~= s);
}

/// The sum of a bounded sequence is bounded by `len * m`.
pub proof fn lemma_sum_bound(s: Seq<i64>, m: int)
    requires
        bounded_scores(s, m),
        0 <= m,
    ensures
        abs_spec(sum_spec(s)) <= s.len() * m,
    decreases s.len(),
{
    if s.len() > 0 {
        assert(bounded_scores(s.drop_last(), m)) by {
            assert(forall|i: int|
                0 <= i < s.drop_last().len() ==> #[trigger] s.drop_last()[i] == s[i]);
        }
        lemma_sum_bound(s.drop_last(), m);
        assert(abs_spec(s.last() as int) <= m);
        assert((s.len() - 1) * m + m == s.len() * m) by (nonlinear_arith);
    }
}

/// The squared-deviation sum of a bounded sequence is non-negative and at
/// most `len * (2m)^2` when the average is bounded by `m` as well.
pub proof fn lemma_sq_dev_bound(s: Seq<i64>, avg: int, m: int)
    requires
        bounded_scores(s, m),
        abs_spec(avg) <= m,
        0 <= m,
    ensures
        0 <= sq_dev_sum(s, avg) <= s.len() * (4 * m * m),
    decreases s.len(),
{
    if s.len() > 0 {
        assert(bounded_scores(s.drop_last(), m)) by {
            assert(forall|i: int|
                0 <= i < s.drop_last().len() ==> #[trigger] s.drop_last()[i] == s[i]);
        }
        lemma_sq_dev_bound(s.drop_last(), avg, m);
        assert(abs_spec(s.last() - avg) <= 2 * m);
        lemma_square_bound(s.last() - avg, 2 * m);
        assert((2 * m) * (2 * m) == 4 * m * m) by (nonlinear_arith);
        assert((s.len() - 1) * (4 * m * m) + 4 * m * m == s.len() * (4 * m * m))
            by (nonlinear_arith);
    }
}

/// Statistics of the just-ended epoch, derived from the score snapshot.
#[derive(Clone, Copy, Debug, PartialEq, Eq, Structural)]
pub struct EpochStats {
    /// Highest colony score.
    pub best_score: i64,
    /// Lowest colony score.
    pub worst_score: i64,
    /// Mean score, rounded toward zero.
    pub average_score: i64,
    /// Median score, rounded toward zero on even counts.
    pub median_score: i64,
    /// Population standard deviation, rounded down.
    pub std_deviation: i64,
    /// Best score minus the previous epoch's best.
    pub improvement: i64,
}

impl Default for EpochStats {
    /// The all-zero statistics of an empty snapshot.
    fn default() -> (r: EpochStats)
        ensures
            r == (EpochStats {
                best_score: 0,
                worst_score: 0,
                average_score: 0,
                median_score: 0,
                std_deviation: 0,
                improvement: 0,
            }),
    {
        EpochStats {
            best_score: 0,
            worst_score: 0,
            average_score: 0,
            median_score: 0,
            std_deviation: 0,
            improvement: 0,
        }
    }
}

/// Selection sort into non-decreasing order; the result holds exactly the
/// input's elements.
pub fn sort_scores(v: &Vec<i64>) -> (r: Vec<i64>)
    ensures
        r@.len() == v@.len(),
        sorted_asc(r@),
        r@.to_multiset() == v@.to_multiset(),
{
    let mut rest = crate::genome::copy_vec(v);
    let mut out: Vec<i64> = Vec::new();
    proof {
        assert(out@.to_multiset().add(rest@.to_multiset()) =~= v@.to_multiset());
    }
    while rest.len() > 0
        invariant
            out@.to_multiset().add(rest@.to_multiset()) == v@.to_multiset(),
            out@.len() + rest@.len() == v@.len(),
            sorted_asc(out@),
            forall|i: int, j: int|
                0 <= i < out@.len() && 0 <= j < rest@.len() ==> #[trigger] out@[i]
                    <= #[trigger] rest@[j],
        decreases rest@.len(),
    {
        let mut best: usize = 0;
        let mut k: usize = 1;
        while k < rest.len()
            invariant
                best < k <= rest@.len(),
                rest@.len() > 0,
                forall|i: int| 0 <= i < k as int ==> rest@[best as int] <= #[trigger] rest@[i],
            decreases rest@.len() - k,
        {
            if rest[k] < rest[best] {
                best = k;
            }
            k = k + 1;
        }
        let ghost prev_out = out@;
        let ghost prev_rest = rest@;
        let x = rest.remove(best);
        out.push(x);
        proof {
            assert(prev_rest.remove(best as int).to_multiset() =~= prev_rest.to_multiset().remove(
                x,
            ));
            assert(prev_out.push(x).to_multiset() =~= prev_out.to_multiset().insert(x));
            assert(out@.to_multiset().add(rest@.to_multiset()) =~= v@.to_multiset()) by {
                assert(prev_rest.to_multiset().count(x) > 0) by {
                    assert(prev_rest.contains(x));
                }
                vstd::assert_multisets_equal!(
                    prev_out.to_multiset().insert(x).add(prev_rest.to_multiset().remove(x)),
                    prev_out.to_multiset().add(prev_rest.to_multiset()),
                );
            }
            assert(forall|j: int|
                0 <= j < rest@.len() ==> x <= #[trigger] rest@[j]) by {
                assert(forall|j: int|
                    0 <= j < rest@.len() ==> rest@[j] == prev_rest[if j < best as int {
                        j
                    } else {
                        j + 1
                    }]);
            }
        }
    }
    out
}

/// Computes the epoch statistics of a score snapshot. On an empty
/// snapshot every field is zero. Otherwise: best and worst are the
/// extreme scores, the average is the truncated mean, the median is taken
/// over the sorted snapshot, the standard deviation is the floor square
/// root of the population variance, and the improvement is the best score
/// minus `previous_best`.
pub fn calculate_epoch_stats(scores: &Vec<i64>, previous_best: i64) -> (r: EpochStats)
    requires
        bounded_scores(scores@, COORD_LIMIT as int),
        scores@.len() <= COUNT_LIMIT,
        abs_spec(previous_best as int) <= COORD_LIMIT,
    ensures
        scores@.len() == 0 ==> r == (EpochStats {
            best_score: 0,
            worst_score: 0,
            average_score: 0,
            median_score: 0,
            std_deviation: 0,
            improvement: 0,
        }),
        scores@.len() > 0 ==> {
            &&& scores@.contains(r.best_score)
            &&& forall|i: int| 0 <= i < scores@.len() ==> #[trigger] scores@[i] <= r.best_score
            &&& scores@.contains(r.worst_score)
            &&& forall|i: int| 0 <= i < scores@.len() ==> #[trigger] scores@[i] >= r.worst_score
            &&& r.average_score as int == tdiv(sum_spec(scores@), scores@.len() as int)
            &&& exists|t: Seq<i64>|
                sorted_asc(t) && t.to_multiset() == scores@.to_multiset() && #[trigger] t.len()
                    == scores@.len() && r.median_score as int == median_spec(t)
            &&& r.std_deviation >= 0
            &&& (r.std_deviation as int) * (r.std_deviation as int) <= tdiv(
                sq_dev_sum(scores@, r.average_score as int),
                scores@.len() as int,
            )
            &&& (r.std_deviation as int + 1) * (r.std_deviation as int + 1) > tdiv(
                sq_dev_sum(scores@, r.average_score as int),
                scores@.len() as int,
            )
            &&& r.improvement as int == r.best_score - previous_best
        },
{
    let n = scores.len();
    if n == 0 {
        return EpochStats {
            best_score: 0,
            worst_score: 0,
            average_score: 0,
            median_score: 0,
            std_deviation: 0,
            improvement: 0,
        };
    }
    // Extremes.
    let mut best = scores[0];
    let mut worst = scores[0];
    let mut i: usize = 1;
    while i < n
        invariant
            n == scores@.len(),
            0 < i <= n,
            scores@.contains(best),
            scores@.contains(worst),
            forall|j: int| 0 <= j < i as int ==> #[trigger] scores@[j] <= best,
            forall|j: int| 0 <= j < i as int ==> #[trigger] scores@[j] >= worst,
        decreases n - i,
    {
        if scores[i] > best {
            best = scores[i];
        }
        if scores[i] < worst {
            worst = scores[i];
        }
        i = i + 1;
    }
    // Mean.
    let mut total: i64 = 0;
    let mut i: usize = 0;
    while i < n
        invariant
            n == scores@.len(),
            n <= COUNT_LIMIT,
            bounded_scores(scores@, COORD_LIMIT as int),
            i <= n,
            total as int == sum_spec(scores@.subrange(0, i as int)),
            abs_spec(total as int) <= i as int * COORD_LIMIT,
        decreases n - i,
    {
        proof {
            assert(scores@.subrange(0, i + 1 as int) =~= scores@.subrange(0, i as int).push(
                scores@[i as int],
            ));
            lemma_sum_push(scores@.subrange(0, i as int), scores@[i as int]);
            assert((i as int) * COORD_LIMIT + COORD_LIMIT == (i as int + 1) * COORD_LIMIT)
                by (nonlinear_arith);
        }
        total = total + scores[i];
        i = i + 1;
    }
    proof {
        assert(scores@.subrange(0, n as int) =~= scores@);
        assert((n as int) * COORD_LIMIT <= 10_000 * 1_000_000_000) by (nonlinear_arith)
            requires
                0 <= n as int <= 10_000,
        {}
    }
    let average = tdiv_i64(total, n as i64);
    proof {
        assert(abs_spec(total as int) <= abs_spec(total as int) * (n as int)) by (nonlinear_arith)
            requires
                1 <= n as int,
                0 <= abs_spec(total as int),
        {}
        crate::fixed::lemma_tdiv_bound(total as int, n as int, abs_spec(total as int));
    }
    // Population variance and standard deviation.
    let mut devs: i128 = 0;
    let mut i: usize = 0;
    while i < n
        invariant
            n == scores@.len(),
            n <= COUNT_LIMIT,
            bounded_scores(scores@, COORD_LIMIT as int),
            abs_spec(average as int) <= 10_000_000_000_000,
            i <= n,
            devs as int == sq_dev_sum(scores@.subrange(0, i as int), average as int),
            0 <= devs as int <= i as int * (4 * 10_000_000_000_000 * 10_000_000_000_000),
        decreases n - i,
    {
        proof {
            assert(scores@.subrange(0, i + 1 as int) =~= scores@.subrange(0, i as int).push(
                scores@[i as int],
            ));
            lemma_sq_dev_push(scores@.subrange(0, i as int), average as int, scores@[i as int]);
            assert(abs_spec(scores@[i as int] - average) <= 2 * 10_000_000_000_000);
            lemma_square_bound(scores@[i as int] - average, 2 * 10_000_000_000_000int);
            assert((2 * 10_000_000_000_000) * (2 * 10_000_000_000_000) == 4 * 10_000_000_000_000
                * 10_000_000_000_000) by (nonlinear_arith);
            assert((i as int) * (4 * 10_000_000_000_000 * 10_000_000_000_000) + 4
                * 10_000_000_000_000 * 10_000_000_000_000 == (i as int + 1) * (4
                * 10_000_000_000_000 * 10_000_000_000_000)) by (nonlinear_arith);
        }
        proof {
            assert((i as int) * (4 * 10_000_000_000_000 * 10_000_000_000_000) <= 10_000 * (4
                * 10_000_000_000_000 * 10_000_000_000_000)) by (nonlinear_arith)
                requires
                    0 <= i as int <= 10_000,
            {}
        }
        let d: i128 = (scores[i] as i128) - (average as i128);
        devs = devs + d * d;
        i = i + 1;
    }
    proof {
        assert(scores@.subrange(0, n as int) =~= scores@);
        assert((n as int) * (4 * 10_000_000_000_000 * 10_000_000_000_000) <= 10_000 * (4
            * 10_000_000_000_000 * 10_000_000_000_000)) by (nonlinear_arith)
            requires
                0 <= n as int <= 10_000,
        {}
    }
    let variance: i128 = devs / (n as i128);
    proof {
        assert(devs as int <= (devs as int) * (n as int)) by (nonlinear_arith)
            requires
                1 <= n as int,
                0 <= devs as int,
        {}
        crate::fixed::lemma_div_le(devs as int, n as int, devs as int);
        vstd::arithmetic::div_mod::lemma_div_pos_is_pos(devs as int, n as int);
    }
    let std_deviation = isqrt(variance as u128);
    proof {
        let v = variance as int;
        assert(std_deviation as int <= 2_000_000_000_000_000) by (nonlinear_arith)
            requires
                0 <= std_deviation as int,
                (std_deviation as int) * (std_deviation as int) <= v,
                v <= 10_000 * (4 * 10_000_000_000_000 * 10_000_000_000_000),
        {}
        assert(tdiv(sq_dev_sum(scores@, average as int), scores@.len() as int) == v);
    }
    // Median over the sorted snapshot.
    let sorted = sort_scores(scores);
    proof {
        assert(forall|k: int|
            0 <= k < sorted@.len() ==> abs_spec(#[trigger] sorted@[k] as int) <= COORD_LIMIT) by {
            assert(forall|k: int|
                0 <= k < sorted@.len() ==> scores@.contains(#[trigger] sorted@[k])) by {
                assert(forall|k: int|
                    0 <= k < sorted@.len() ==> sorted@.to_multiset().count(
                        #[trigger] sorted@[k],
                    ) > 0) by {
                    assert(forall|k: int|
                        0 <= k < sorted@.len() ==> sorted@.contains(#[trigger] sorted@[k]));
                }
            }
        }
    }
    let median = if n % 2 == 0 {
        tdiv_i64(sorted[n / 2 - 1] + sorted[n / 2], 2)
    } else {
        sorted[n / 2]
    };
    proof {
        assert(median as int == median_spec(sorted@));
        assert(sorted_asc(sorted@) && sorted@.to_multiset() == scores@.to_multiset()
            && sorted@.len() == scores@.len());
    }
    EpochStats {
        best_score: best,
        worst_score: worst,
        average_score: average,
        median_score: median,
        std_deviation: std_deviation as i64,
        improvement: best - previous_best,
    }
}

} // verus!
