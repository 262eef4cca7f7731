use particle_life::stats::{calculate_epoch_stats, sort_scores, EpochStats};

#[test]
fn epoch_stats_example() {
    // Scores 10, 20, 30, 40 in fixed point.
    let scores = vec![10_000i64, 20_000, 30_000, 40_000];
    let stats = calculate_epoch_stats(&scores, 0);
    assert_eq!(stats.best_score, 40_000);
    assert_eq!(stats.worst_score, 10_000);
    assert_eq!(stats.average_score, 25_000);
    assert_eq!(stats.median_score, 25_000);
    // Population standard deviation sqrt(125) = 11.180...
    assert_eq!(stats.std_deviation, 11_180);
    assert_eq!(stats.improvement, 40_000);
}

#[test]
fn improvement_subtracts_previous_best() {
    let scores = vec![5_000i64, 15_000];
    let stats = calculate_epoch_stats(&scores, 20_000);
    assert_eq!(stats.best_score, 15_000);
    assert_eq!(stats.improvement, -5_000);
}

#[test]
fn empty_snapshot_yields_zero_stats() {
    let scores: Vec<i64> = Vec::new();
    let stats = calculate_epoch_stats(&scores, 7_000);
    assert_eq!(
        stats,
        EpochStats {
            best_score: 0,
            worst_score: 0,
            average_score: 0,
            median_score: 0,
            std_deviation: 0,
            improvement: 0,
        }
    );
}

#[test]
fn odd_count_median_is_the_middle_element() {
    let scores = vec![30_000i64, 10_000, 20_000];
    let stats = calculate_epoch_stats(&scores, 0);
    assert_eq!(stats.median_score, 20_000);
    assert_eq!(stats.average_score, 20_000);
}

#[test]
fn identical_scores_have_zero_deviation() {
    let scores = vec![7_000i64, 7_000, 7_000];
    let stats = calculate_epoch_stats(&scores, 0);
    assert_eq!(stats.std_deviation, 0);
    assert_eq!(stats.best_score, 7_000);
    assert_eq!(stats.worst_score, 7_000);
    assert_eq!(stats.median_score, 7_000);
}

#[test]
fn sort_scores_orders_ascending() {
    let scores = vec![5i64, -3, 9, 0, 9, 2];
    let sorted = sort_scores(&scores);
    assert_eq!(sorted, vec![-3, 0, 2, 5, 9, 9]);
}
