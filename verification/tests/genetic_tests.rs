use particle_life::genetic::{
    calculate_adaptive_mutation_rate, elite_count, next_generation, rank_indices_desc,
    weighted_tournament_selection, ScoredGenome,
};
use particle_life::genome::Genome;
use particle_life::params::SimulationParameters;

fn marked_genome(mark: i64) -> Genome {
    let mut g = Genome::new(1);
    g.set_force(0, 0, mark);
    g
}

#[test]
fn elite_count_is_ceiling_with_a_floor_of_one() {
    // ceil(6 * 0.1) = 1
    assert_eq!(elite_count(6, 100), 1);
    // ceil(10 * 0.25) = 3
    assert_eq!(elite_count(10, 250), 3);
    // ceil(4 * 0.5) = 2
    assert_eq!(elite_count(4, 500), 2);
    // A tiny ratio still keeps one elite.
    assert_eq!(elite_count(3, 1), 1);
    // A full ratio keeps everyone.
    assert_eq!(elite_count(7, 1000), 7);
}

#[test]
fn adaptive_rate_combines_all_three_factors() {
    // Low deviation doubles, stagnation and the early phase add 1.5 each:
    // 0.1 * 2 * 1.5 * 1.5 = 0.45.
    assert_eq!(calculate_adaptive_mutation_rate(0, 0, 100, 0), 450);
    // Mid deviation, improvement, late epoch: the base rate unchanged.
    assert_eq!(calculate_adaptive_mutation_rate(10_000, 1, 100, 20), 100);
    // High deviation halves the base rate.
    assert_eq!(calculate_adaptive_mutation_rate(30_000, 1, 100, 20), 50);
    // Stagnation alone: 0.1 * 1.5 = 0.15.
    assert_eq!(calculate_adaptive_mutation_rate(10_000, -5, 100, 20), 150);
}

#[test]
fn adaptive_rate_never_exceeds_the_cap() {
    for std_dev in [0i64, 10_000, 30_000] {
        for improvement in [-1i64, 0, 1] {
            for epoch in [0usize, 5, 50] {
                for base in [0i64, 100, 500, 1000] {
                    let r = calculate_adaptive_mutation_rate(std_dev, improvement, base, epoch);
                    assert!((0..=500).contains(&r));
                }
            }
        }
    }
    // A case where the uncapped product would be 4.5.
    assert_eq!(calculate_adaptive_mutation_rate(0, 0, 1000, 0), 500);
}

#[test]
fn adaptive_rate_is_monotone_in_stagnation_and_early_phase() {
    for base in [0i64, 50, 100, 300] {
        for std_dev in [0i64, 10_000, 30_000] {
            let stagnant = calculate_adaptive_mutation_rate(std_dev, 0, base, 20);
            let improving = calculate_adaptive_mutation_rate(std_dev, 1, base, 20);
            assert!(stagnant >= improving);
            let early = calculate_adaptive_mutation_rate(std_dev, 1, base, 3);
            let late = calculate_adaptive_mutation_rate(std_dev, 1, base, 15);
            assert!(early >= late);
        }
    }
}

#[test]
fn rank_orders_scores_descending() {
    let scored = vec![
        ScoredGenome { genome: marked_genome(1), score: 5_000 },
        ScoredGenome { genome: marked_genome(2), score: 9_000 },
        ScoredGenome { genome: marked_genome(3), score: 1_000 },
    ];
    let order = rank_indices_desc(&scored);
    assert_eq!(order, vec![1, 0, 2]);
}

#[test]
fn tournament_returns_a_member_genome() {
    let scored = vec![
        ScoredGenome { genome: marked_genome(10), score: 100 },
        ScoredGenome { genome: marked_genome(20), score: 300 },
        ScoredGenome { genome: marked_genome(30), score: 200 },
    ];
    for _ in 0..30 {
        let winner = weighted_tournament_selection(&scored);
        let mark = winner.get_force(0, 0);
        assert!(mark == 10 || mark == 20 || mark == 30);
    }
}

#[test]
fn elitism_keeps_the_best_genome_first_and_unmodified() {
    let mut params = SimulationParameters::default();
    params.simulation_count = 4;
    params.particle_types = 1;
    let scored = vec![
        ScoredGenome { genome: marked_genome(-700), score: 10_000 },
        ScoredGenome { genome: marked_genome(-800), score: 40_000 },
        ScoredGenome { genome: marked_genome(-900), score: 30_000 },
        ScoredGenome { genome: marked_genome(-1000), score: 20_000 },
    ];
    for _ in 0..10 {
        let (next, stats) = next_generation(&scored, &params, 0);
        assert_eq!(next.len(), 4);
        // The epoch's single highest score belongs to the genome marked
        // -800; it must lead the next generation bit for bit.
        assert_eq!(next[0].force_matrix, vec![-800]);
        assert_eq!(stats.best_score, 40_000);
        for g in &next {
            assert_eq!(g.type_count, 1);
            assert_eq!(g.force_matrix.len(), 1);
        }
    }
}
