use genetic_algorithm::chromosome::Chromosome;
use genetic_algorithm::genetic::GeneticBuilder;
use genetic_algorithm::problem::Problem;
use genetic_algorithm::selection::{Selection, SelectionError};
use rand::Rng;
use std::cell::RefCell;

/// Bit-string maximization: alleles are bits, fitness counts the ones.
struct BitMax {
    genome_len: usize,
    population_size: usize,
    generation_cap: u64,
}

impl Problem for BitMax {
    fn fitness(&self, chromosome: &Chromosome) -> i64 {
        chromosome.genes.iter().map(|g| *g as i64).sum()
    }

    fn terminate(&self, population: &Vec<Chromosome>, generation: u64, _temperature: i64) -> bool {
        // The engine hands terminate an evaluated, size-stable, sorted
        // population: check that on every generation.
        assert_eq!(population.len(), self.population_size);
        for c in population.iter() {
            assert_eq!(c.genes.len(), self.genome_len);
            assert_eq!(c.get_size(), self.genome_len);
        }
        for w in population.windows(2) {
            assert!(w[0].get_fitness() >= w[1].get_fitness());
        }
        population[0].get_fitness() == self.genome_len as i64 || generation >= self.generation_cap
    }

    fn genotype(&self) -> Vec<u64> {
        let mut rng = rand::thread_rng();
        (0..self.genome_len).map(|_| rng.gen_range(0..2u64)).collect()
    }
}

#[test]
fn bit_string_maximization_reaches_all_ones() {
    let problem = BitMax { genome_len: 10, population_size: 50, generation_cap: 5000 };
    let engine = GeneticBuilder::new()
        .with_problem(problem)
        .with_selection_strategy(Selection::Elitism)
        .with_population_size(50)
        .with_mutation_rate(0)
        .build()
        .unwrap();
    let best = engine.run().unwrap();
    assert_eq!(best.genes.len(), 10);
    assert_eq!(best.get_fitness(), 10);
    assert!(best.genes.iter().all(|g| *g == 1));
}

/// A problem with constant fitness that records the temperature signal it is
/// handed on each generation.
struct ConstantFitness {
    temperatures: RefCell<Vec<i64>>,
}

impl Problem for ConstantFitness {
    fn fitness(&self, _chromosome: &Chromosome) -> i64 {
        7
    }

    fn terminate(&self, _population: &Vec<Chromosome>, generation: u64, temperature: i64) -> bool {
        self.temperatures.borrow_mut().push(temperature);
        generation >= 1
    }

    fn genotype(&self) -> Vec<u64> {
        vec![0, 0, 0]
    }
}

#[test]
fn temperature_follows_the_smoothing_formula() {
    let problem = ConstantFitness { temperatures: RefCell::new(Vec::new()) };
    let engine = GeneticBuilder::new()
        .with_problem(problem)
        .with_selection_strategy(Selection::Elitism)
        .with_population_size(4)
        .with_mutation_rate(0)
        .build()
        .unwrap();
    let best = engine.run().unwrap();
    assert_eq!(best.get_fitness(), 7);
    // Generation 0: best fitness 7, previous best 0, previous signal 0:
    // 4 * (0 + 7) / 5 = 5 (truncated).  Generation 1: fitness unchanged:
    // 4 * (5 + 0) / 5 = 4.
    let temperatures = engine.problem.temperatures.borrow();
    assert_eq!(temperatures.as_slice(), &[5, 4]);
}

#[test]
fn run_returns_an_evaluated_chromosome() {
    let problem = ConstantFitness { temperatures: RefCell::new(Vec::new()) };
    let engine = GeneticBuilder::new()
        .with_problem(problem)
        .with_selection_strategy(Selection::Random)
        .with_population_size(5)
        .with_mutation_rate(500)
        .build()
        .unwrap();
    let best = engine.run().unwrap();
    assert_eq!(best.genes.len(), 3);
    assert_eq!(best.get_fitness(), 7);
}

/// A problem whose fitness is uniformly zero: roulette selection has no
/// valid weights for it.
struct AllZero;

impl Problem for AllZero {
    fn fitness(&self, _chromosome: &Chromosome) -> i64 {
        0
    }

    fn terminate(&self, _population: &Vec<Chromosome>, _generation: u64, _temperature: i64) -> bool {
        false
    }

    fn genotype(&self) -> Vec<u64> {
        vec![1, 2]
    }
}

#[test]
fn run_surfaces_roulette_weight_errors() {
    let engine = GeneticBuilder::new()
        .with_problem(AllZero)
        .with_selection_strategy(Selection::Roulette)
        .with_population_size(6)
        .build()
        .unwrap();
    assert_eq!(engine.run(), Err(SelectionError::InvalidWeights));
}

#[test]
fn run_with_tournament_selection_terminates() {
    let problem = BitMax { genome_len: 6, population_size: 50, generation_cap: 3 };
    let engine = GeneticBuilder::new()
        .with_problem(problem)
        .with_selection_strategy(Selection::TournamentWithDuplicates)
        .with_population_size(50)
        .build()
        .unwrap();
    let best = engine.run().unwrap();
    assert_eq!(best.genes.len(), 6);
}

#[test]
fn run_with_duplicate_free_tournament_terminates_or_exhausts() {
    let problem = BitMax { genome_len: 10, population_size: 30, generation_cap: 2 };
    let engine = GeneticBuilder::new()
        .with_problem(problem)
        .with_selection_strategy(Selection::TournamentWithoutDuplicates)
        .with_population_size(30)
        .build()
        .unwrap();
    // A population may collapse below the needed diversity, in which case the
    // engine surfaces the strategy's exhaustion instead of looping forever.
    match engine.run() {
        Ok(best) => assert_eq!(best.genes.len(), 10),
        Err(e) => assert_eq!(e, SelectionError::Exhausted),
    }
}

#[test]
fn next_generation_restores_the_population_size() {
    let problem = BitMax { genome_len: 4, population_size: 6, generation_cap: 0 };
    let engine = GeneticBuilder::new()
        .with_problem(problem)
        .with_selection_strategy(Selection::Elitism)
        .with_population_size(6)
        .build()
        .unwrap();
    let mut population: Vec<Chromosome> = (0..6).map(|_| Chromosome::new(engine.problem.genotype())).collect();
    for _ in 0..10 {
        population = engine.evaluate(population);
        // round(6 * 0.8) = 5, rounded up to the even parent count 6.
        population = engine.next_generation(population, 6).unwrap();
        assert_eq!(population.len(), 6);
        for c in population.iter() {
            assert_eq!(c.genes.len(), 4);
        }
    }
}
