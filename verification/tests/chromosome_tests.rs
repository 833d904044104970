use genetic_algorithm::chromosome::{contains_value, Chromosome};
use genetic_algorithm::genetic::{BuildError, GeneticBuilder};
use genetic_algorithm::problem::Problem;
use genetic_algorithm::selection::Selection;

/// A trivial permutation problem over a fixed genome, used where the tests
/// only need an engine instance.
struct FixedGenome;

impl Problem for FixedGenome {
    fn fitness(&self, chromosome: &Chromosome) -> i64 {
        chromosome.genes[0] as i64
    }

    fn terminate(&self, _population: &Vec<Chromosome>, _generation: u64, _temperature: i64) -> bool {
        true
    }

    fn genotype(&self) -> Vec<u64> {
        vec![3, 1, 2, 1]
    }
}

fn sorted_copy(genes: &[u64]) -> Vec<u64> {
    let mut s = genes.to_vec();
    s.sort();
    s
}

#[test]
fn new_chromosome_starts_unevaluated() {
    let c = Chromosome::new(vec![4, 5, 6]);
    assert_eq!(c.get_size(), 3);
    assert_eq!(c.genes, vec![4, 5, 6]);
    assert_eq!(c.age, 0);
    assert_eq!(c.fitness, None);
}

#[test]
fn set_fitness_then_get_fitness_round_trips() {
    let mut c = Chromosome::new(vec![1]);
    c.set_fitness(-17);
    assert_eq!(c.get_fitness(), -17);
    assert_eq!(c.get_size(), 1);
}

#[test]
fn chromosome_equality_is_by_value() {
    let mut a = Chromosome::new(vec![1, 2]);
    let mut b = Chromosome::new(vec![1, 2]);
    assert_eq!(a, b);
    b.set_fitness(3);
    assert_ne!(a, b);
    a.set_fitness(3);
    assert_eq!(a, b);
    let cloned = a.clone();
    assert_eq!(a, cloned);
    assert_ne!(a, Chromosome::new(vec![2, 1]));
}

#[test]
fn contains_value_finds_equal_chromosomes() {
    let pool = vec![Chromosome::new(vec![1]), Chromosome::new(vec![2])];
    assert!(contains_value(&pool, &Chromosome::new(vec![2])));
    assert!(!contains_value(&pool, &Chromosome::new(vec![3])));
}

#[test]
fn builder_without_problem_fails_fast() {
    let r = GeneticBuilder::<FixedGenome>::new()
        .with_selection_strategy(Selection::Elitism)
        .build();
    assert!(matches!(r, Err(BuildError::MissingProblem)));
}

#[test]
fn builder_without_selection_strategy_fails_fast() {
    let r = GeneticBuilder::new().with_problem(FixedGenome).build();
    assert!(matches!(r, Err(BuildError::MissingSelectionStrategy)));
}

#[test]
fn builder_applies_every_tunable() {
    let engine = GeneticBuilder::new()
        .with_problem(FixedGenome)
        .with_selection_strategy(Selection::Roulette)
        .with_population_size(7)
        .with_mutation_rate(125)
        .with_selection_rate(400)
        .with_fitness_target(42)
        .build()
        .unwrap();
    assert_eq!(engine.population_size, 7);
    assert_eq!(engine.mutation_rate, 125);
    assert_eq!(engine.selection_rate, 400);
    assert_eq!(engine.fitness_target, Some(42));
    assert!(matches!(engine.selection_strategy, Selection::Roulette));
}

#[test]
fn mutation_only_reorders_alleles() {
    let engine = GeneticBuilder::new()
        .with_problem(FixedGenome)
        .with_selection_strategy(Selection::Elitism)
        .with_mutation_rate(1000)
        .build()
        .unwrap();
    for _ in 0..50 {
        let before = Chromosome::new(vec![3, 1, 2, 1]);
        let mutated = engine.mutate(vec![before]);
        assert_eq!(mutated.len(), 1);
        assert_eq!(sorted_copy(&mutated[0].genes), vec![1, 1, 2, 3]);
        assert_eq!(mutated[0].fitness, None);
        assert_eq!(mutated[0].age, 0);
    }
}

#[test]
fn mutation_at_full_rate_eventually_reorders() {
    let engine = GeneticBuilder::new()
        .with_problem(FixedGenome)
        .with_selection_strategy(Selection::Elitism)
        .with_mutation_rate(1000)
        .build()
        .unwrap();
    let mut reordered = 0usize;
    for _ in 0..100 {
        let before = Chromosome::new(vec![0, 1, 2, 3, 4, 5]);
        let mutated = engine.mutate(vec![before]);
        if mutated[0].genes != vec![0, 1, 2, 3, 4, 5] {
            reordered += 1;
        }
        assert_eq!(sorted_copy(&mutated[0].genes), vec![0, 1, 2, 3, 4, 5]);
    }
    // A uniformly random order of six distinct alleles is the original one
    // only with probability 1/720 per trial.
    assert!(reordered > 0);
}

#[test]
fn mutation_at_zero_rate_changes_nothing() {
    let engine = GeneticBuilder::new()
        .with_problem(FixedGenome)
        .with_selection_strategy(Selection::Elitism)
        .with_mutation_rate(0)
        .build()
        .unwrap();
    let mut before = Chromosome::new(vec![9, 8, 7]);
    before.set_fitness(9);
    let expected = before.clone();
    let mutated = engine.mutate(vec![before]);
    assert_eq!(mutated[0], expected);
}

#[test]
fn evaluation_scores_and_sorts_descending() {
    let engine = GeneticBuilder::new()
        .with_problem(FixedGenome)
        .with_selection_strategy(Selection::Elitism)
        .build()
        .unwrap();
    let population = vec![
        Chromosome::new(vec![2, 0, 0, 0]),
        Chromosome::new(vec![9, 0, 0, 0]),
        Chromosome::new(vec![5, 0, 0, 0]),
    ];
    let evaluated = engine.evaluate(population);
    assert_eq!(evaluated.len(), 3);
    let fitnesses: Vec<i64> = evaluated.iter().map(|c| c.get_fitness()).collect();
    assert_eq!(fitnesses, vec![9, 5, 2]);
    for c in evaluated.iter() {
        assert_eq!(c.age, 1);
    }
}

#[test]
fn evaluation_skips_chromosomes_with_cached_fitness() {
    let engine = GeneticBuilder::new()
        .with_problem(FixedGenome)
        .with_selection_strategy(Selection::Elitism)
        .build()
        .unwrap();
    let mut cached = Chromosome::new(vec![1, 0, 0, 0]);
    cached.set_fitness(100);
    let fresh = Chromosome::new(vec![6, 0, 0, 0]);
    let evaluated = engine.evaluate(vec![cached, fresh]);
    // The cached chromosome keeps its stored score and its age; only the
    // fresh one is scored and aged.
    assert_eq!(evaluated[0].get_fitness(), 100);
    assert_eq!(evaluated[0].age, 0);
    assert_eq!(evaluated[1].get_fitness(), 6);
    assert_eq!(evaluated[1].age, 1);
}

#[test]
fn evaluation_sorts_stably_by_prior_order() {
    let engine = GeneticBuilder::new()
        .with_problem(FixedGenome)
        .with_selection_strategy(Selection::Elitism)
        .build()
        .unwrap();
    let mut first = Chromosome::new(vec![4, 1, 0, 0]);
    first.set_fitness(4);
    let mut second = Chromosome::new(vec![4, 2, 0, 0]);
    second.set_fitness(4);
    let expected_first = first.clone();
    let expected_second = second.clone();
    let evaluated = engine.evaluate(vec![first, second]);
    assert_eq!(evaluated[0], expected_first);
    assert_eq!(evaluated[1], expected_second);
}
