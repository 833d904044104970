use genetic_algorithm::chromosome::Chromosome;
use genetic_algorithm::selection::elitism::ElitistSelection;
use genetic_algorithm::selection::random::RandomSelection;
use genetic_algorithm::selection::roulette::RouletteSelection;
use genetic_algorithm::selection::tournament::{TournamentWithDuplicates, TournamentWithoutDuplicates};
use genetic_algorithm::selection::{SelectionError, SelectionStrategy};

/// A population whose chromosome at position `i` has genes `[values[i]]` and
/// cached fitness `values[i]`.
fn population_with_fitness(values: &[i64]) -> Vec<Chromosome> {
    values
        .iter()
        .map(|v| {
            let mut c = Chromosome::new(vec![*v as u64]);
            c.set_fitness(*v);
            c
        })
        .collect()
}

#[test]
fn elitism_returns_the_first_n_in_order() {
    let population = population_with_fitness(&[9, 7, 5, 3, 1]);
    let selected = ElitistSelection {}.select(&population, 3).unwrap();
    assert_eq!(selected.len(), 3);
    for (s, p) in selected.iter().zip(population.iter()) {
        assert_eq!(s, p);
    }
}

#[test]
fn elitism_caps_at_the_population_length() {
    let population = population_with_fitness(&[2, 1]);
    let selected = ElitistSelection {}.select(&population, 10).unwrap();
    assert_eq!(selected.len(), 2);
}

#[test]
fn roulette_favours_high_fitness_proportionally() {
    let population = population_with_fitness(&[10, 1, 1, 1]);
    let strategy = RouletteSelection {};
    let trials = 20000;
    let mut high_hits = 0usize;
    for _ in 0..trials {
        let selected = strategy.select(&population, 1).unwrap();
        assert_eq!(selected.len(), 1);
        if selected[0].genes[0] == 10 {
            high_hits += 1;
        }
    }
    // Expected frequency 10/13 = 0.769...; with 20000 trials the empirical
    // frequency is within 0.05 of that except with negligible probability.
    let frequency = high_hits as f64 / trials as f64;
    assert!((frequency - 10.0 / 13.0).abs() < 0.05, "frequency was {frequency}");
}

#[test]
fn roulette_rejects_an_all_zero_population() {
    let population = population_with_fitness(&[0, 0, 0]);
    let r = RouletteSelection {}.select(&population, 2);
    assert_eq!(r, Err(SelectionError::InvalidWeights));
}

#[test]
fn roulette_rejects_negative_fitness() {
    let population = population_with_fitness(&[5, -1, 3]);
    let r = RouletteSelection {}.select(&population, 2);
    assert_eq!(r, Err(SelectionError::InvalidWeights));
}

#[test]
fn roulette_never_selects_zero_weight() {
    let population = population_with_fitness(&[0, 4, 0, 2]);
    for _ in 0..200 {
        let selected = RouletteSelection {}.select(&population, 3).unwrap();
        assert_eq!(selected.len(), 3);
        for c in selected.iter() {
            assert!(c.get_fitness() > 0);
        }
    }
}

#[test]
fn random_selection_draws_distinct_positions() {
    let population = population_with_fitness(&[1, 2, 3, 4, 5, 6]);
    for _ in 0..100 {
        let selected = RandomSelection {}.select(&population, 4).unwrap();
        assert_eq!(selected.len(), 4);
        // All values in this population are distinct, so distinct positions
        // mean distinct selected values.
        for i in 0..selected.len() {
            for j in 0..selected.len() {
                if i != j {
                    assert_ne!(selected[i], selected[j]);
                }
            }
        }
    }
}

#[test]
fn tournament_with_duplicates_picks_members() {
    let population = population_with_fitness(&[8, 6, 4, 2]);
    let selected = TournamentWithDuplicates {}.select(&population, 10).unwrap();
    assert_eq!(selected.len(), 10);
    for c in selected.iter() {
        assert!(population.iter().any(|p| p == c));
    }
}

#[test]
fn tournament_without_duplicates_returns_distinct_values() {
    let population = population_with_fitness(&[9, 8, 7, 6, 5, 4, 3, 2, 1]);
    let selected = TournamentWithoutDuplicates {}.select(&population, 5).unwrap();
    assert_eq!(selected.len(), 5);
    for i in 0..selected.len() {
        for j in 0..selected.len() {
            if i != j {
                assert_ne!(selected[i], selected[j]);
            }
        }
    }
}

#[test]
fn tournament_without_duplicates_reports_exhaustion() {
    // Three chromosomes equal by value: only one distinct value exists, so
    // two distinct winners can never be gathered.
    let population = population_with_fitness(&[5, 5, 5]);
    let r = TournamentWithoutDuplicates {}.select(&population, 2);
    assert_eq!(r, Err(SelectionError::Exhausted));
}

#[test]
fn tournament_without_duplicates_with_no_request_succeeds() {
    // Even a population with a single distinct value can supply an empty
    // selection.
    let population = population_with_fitness(&[5, 5, 5]);
    let selected = TournamentWithoutDuplicates {}.select(&population, 0).unwrap();
    assert_eq!(selected.len(), 0);
}
