use particle_life::errors::ConfigError;
use particle_life::genome::Genome;

#[test]
fn get_force_never_fails_in_or_out_of_range() {
    for type_count in 1..6usize {
        let g = Genome::random(type_count);
        for a in 0..type_count {
            for b in 0..type_count {
                let v = g.get_force(a, b);
                assert!((-2000..=2000).contains(&v));
            }
        }
        // Far out-of-range lookups degrade to the neutral force.
        assert_eq!(g.get_force(type_count + 7, 0), 0);
        assert_eq!(g.get_force(0, usize::MAX), 0);
        assert_eq!(g.get_force(usize::MAX, usize::MAX), 0);
        assert_eq!(g.get_food_force(type_count), 0);
        assert_eq!(g.get_food_force(usize::MAX), 0);
    }
}

#[test]
fn get_force_reads_row_major_entries() {
    let mut g = Genome::new(3);
    g.set_force(1, 2, 777);
    assert_eq!(g.force_matrix[1 * 3 + 2], 777);
    assert_eq!(g.get_force(1, 2), 777);
    // An out-of-range write is ignored.
    g.set_force(9, 9, 555);
    assert_eq!(g.get_force(9, 9), 0);
}

#[test]
fn an_out_of_range_column_never_reads_another_row() {
    // On a 2-type genome the flattened index of (0, 2) falls inside the
    // matrix, but the column is out of range: the lookup must yield 0 and
    // the write must change nothing.
    let mut g = Genome::new(2);
    g.set_force(1, 0, 900);
    assert_eq!(g.force_matrix[2], 900);
    assert_eq!(g.get_force(0, 2), 0);
    let before = g.force_matrix.clone();
    g.set_force(0, 2, -700);
    assert_eq!(g.force_matrix, before);
}

#[test]
fn mutation_keeps_entries_clamped() {
    for _ in 0..20 {
        let mut g = Genome::random(4);
        // Push entries to the clamp edges first.
        g.set_force(0, 0, 2000);
        g.set_force(1, 1, -2000);
        for _ in 0..50 {
            g.mutate(1000);
        }
        for v in &g.force_matrix {
            assert!((-2000..=2000).contains(v), "matrix entry {} escaped the clamp", v);
        }
        for v in &g.food_forces {
            assert!((-2000..=2000).contains(v), "food entry {} escaped the clamp", v);
        }
    }
}

#[test]
fn mutation_moves_entries_by_at_most_one_step() {
    let mut g = Genome::new(3);
    let before = g.force_matrix.clone();
    g.mutate(1000);
    for (b, a) in before.iter().zip(g.force_matrix.iter()) {
        assert!((a - b).abs() <= 200);
    }
}

#[test]
fn crossover_takes_every_entry_from_a_parent() {
    for _ in 0..50 {
        let p1 = Genome::random(3);
        let p2 = Genome::random(3);
        let child = p1.crossover(&p2);
        assert_eq!(child.type_count, 3);
        assert_eq!(child.force_matrix.len(), p1.force_matrix.len());
        assert_eq!(child.food_forces.len(), p1.food_forces.len());
        for i in 0..child.force_matrix.len() {
            let c = child.force_matrix[i];
            assert!(c == p1.force_matrix[i] || c == p2.force_matrix[i]);
        }
        for i in 0..child.food_forces.len() {
            let c = child.food_forces[i];
            assert!(c == p1.food_forces[i] || c == p2.food_forces[i]);
        }
    }
}

#[test]
fn crossover_checked_rejects_mismatched_parents() {
    let p1 = Genome::random(3);
    let p2 = Genome::random(4);
    match p1.crossover_checked(&p2) {
        Err(e) => assert_eq!(e, ConfigError::GenomeTypeCountMismatch),
        Ok(_) => panic!("mismatched type counts must be rejected"),
    }
    assert!(p1.crossover_checked(&p1.duplicate()).is_ok());
}

#[test]
fn random_genome_is_negative_on_the_diagonal() {
    for _ in 0..10 {
        let g = Genome::random(5);
        for t in 0..5 {
            let v = g.get_force(t, t);
            assert!((-1000..=-100).contains(&v), "diagonal {} outside the band", v);
        }
        for a in 0..5 {
            for b in 0..5 {
                assert!((-1000..=1000).contains(&g.get_force(a, b)));
            }
        }
        for t in 0..5 {
            assert!((-1000..=1000).contains(&g.get_food_force(t)));
        }
    }
}

#[test]
fn force_matrix_rows_mirror_lookups() {
    let g = Genome::random(4);
    let rows = g.get_force_matrix();
    assert_eq!(rows.len(), 4);
    for a in 0..4 {
        assert_eq!(rows[a].len(), 4);
        for b in 0..4 {
            assert_eq!(rows[a][b], g.get_force(a, b));
        }
    }
}

#[test]
fn interesting_forces_for_three_types() {
    let mut g = Genome::new(3);
    g.set_interesting_forces();
    assert_eq!(g.force_matrix, vec![-300, 1000, -500, -500, -300, 1000, 1000, -500, -300]);
    assert_eq!(g.food_forces, vec![800, -300, 500]);
    assert_eq!(g.get_force(0, 1), 1000);
    assert_eq!(g.get_force(1, 0), -500);
}

#[test]
fn interesting_forces_for_four_types() {
    let mut g = Genome::new(4);
    g.set_interesting_forces();
    assert_eq!(
        g.force_matrix,
        vec![-400, 1500, -1000, 0, 0, -400, 800, -800, -600, 0, -400, 1200, 600, -1200, 0, -400]
    );
    assert_eq!(g.food_forces, vec![600, -400, 800, -200]);
}

#[test]
fn interesting_forces_fall_back_to_random_tables() {
    let mut g = Genome::new(5);
    g.set_interesting_forces();
    assert_eq!(g.force_matrix.len(), 25);
    assert_eq!(g.food_forces.len(), 5);
    for v in &g.force_matrix {
        assert!((-2000..=2000).contains(v));
    }
}

#[test]
fn duplicate_is_bit_identical() {
    let g = Genome::random(3);
    let d = g.duplicate();
    assert_eq!(d.force_matrix, g.force_matrix);
    assert_eq!(d.food_forces, g.food_forces);
    assert_eq!(d.type_count, g.type_count);
}
