use crate::chromosome::{contains_value, Chromosome};
use crate::crossover::single_point::SinglePoint;
use crate::crossover::CrossoverStrategy;
use crate::problem::Problem;
use crate::rng::{rand_below, shuffle_vec};
use crate::selection::elitism::ElitistSelection;
use crate::selection::random::RandomSelection;
use crate::selection::roulette::{fit, RouletteSelection};
use crate::selection::tournament::{
    tournament_pick, TournamentWithDuplicates, TournamentWithoutDuplicates,
};
use crate::selection::{
    all_evaluated, all_wf, appears_in, drawn_from, Selection, SelectionError, SelectionStrategy,
};
use vstd::multiset::Multiset;
use vstd::prelude::*;

verus! {

/// Every chromosome of the sequence has a genome of length `l`.
pub open spec fn all_gene_len(p: Seq<Chromosome>, l: nat) -> bool {
    forall|i: int| 0 <= i < p.len() ==> (#[trigger] p[i]).genes@.len() == l
}

/// A cached fitness, where present, is the problem's score of the genes.
pub open spec fn consistent_with<T: Problem>(problem: T, c: Chromosome) -> bool {
    c.fitness is Some ==> c.fitness.unwrap() == problem.fitness_spec(c.genes@)
}

/// Every cached fitness of the sequence is the problem's score of its genes.
pub open spec fn all_consistent<T: Problem>(problem: T, p: Seq<Chromosome>) -> bool {
    forall|i: int| 0 <= i < p.len() ==> consistent_with(problem, #[trigger] p[i])
}

/// The sequence is ordered by non-increasing cached fitness.
pub open spec fn sorted_desc(p: Seq<Chromosome>) -> bool {
    forall|i: int, j: int| 0 <= i <= j < p.len() ==> fit(#[trigger] p[i]) >= fit(#[trigger] p[j])
}

/// An age one evaluation pass later; ages this high are never reached in
/// practice, but the count stops rather than wraps.
pub open spec fn bumped_age(age: u32) -> u32 {
    if age == u32::MAX {
        age
    } else {
        (age + 1) as u32
    }
}

/// What one evaluation pass makes of a chromosome: one that already carries a
/// fitness is untouched; one without gets the problem's score of its genes
/// and one more evaluation pass on its age.
pub open spec fn evaluated_form<T: Problem>(problem: T, c: Chromosome) -> Chromosome {
    if c.fitness is Some {
        c
    } else {
        Chromosome {
            genes: c.genes,
            fitness: Some(problem.fitness_spec(c.genes@)),
            size: c.size,
            age: bumped_age(c.age),
        }
    }
}

/// A population after one evaluation pass, element by element.
pub open spec fn evaluated_pop<T: Problem>(problem: T, p: Seq<Chromosome>) -> Seq<Chromosome> {
    p.map_values(|c: Chromosome| evaluated_form(problem, c))
}

/// How many parents one generation selects: the population size times the
/// selection rate (in thousandths), rounded half up, then rounded up to the
/// nearest even number so the parents pair off — capped at the largest even
/// count the population can supply.
pub open spec fn parent_count_spec(population_size: int, selection_rate: int) -> int {
    let rounded = (population_size * selection_rate + 500) / 1000;
    let evened = if rounded % 2 == 0 {
        rounded
    } else {
        rounded + 1
    };
    if evened <= population_size {
        evened
    } else if population_size % 2 == 0 {
        population_size
    } else {
        population_size - 1
    }
}

/// Compute the selected-parent count.
fn parent_count(population_size: u32, selection_rate: u32) -> (n: usize)
    requires
        selection_rate <= 1000,
    ensures
        n == parent_count_spec(population_size as int, selection_rate as int),
        n % 2 == 0,
        n <= population_size,
{
    proof {
        assert((population_size as u64) * (selection_rate as u64) <= 0xffff_ffff * 1000) by (nonlinear_arith)
            requires
                population_size <= 0xffff_ffffu32,
                selection_rate <= 1000,
        ;
    }
    let product: u64 = (population_size as u64) * (selection_rate as u64);
    let rounded: u64 = (product + 500) / 1000;
    let evened: u64 = if rounded % 2 == 0 {
        rounded
    } else {
        rounded + 1
    };
    let psize: u64 = population_size as u64;
    let capped: u64 = if evened <= psize {
        evened
    } else if psize % 2 == 0 {
        psize
    } else {
        psize - 1
    };
    capped as usize
}

/// The exponentially smoothed rate-of-improvement signal after one
/// generation whose best fitness moved by `delta` from the previous best:
/// four fifths of the previous signal plus the move, with the division
/// rounded towards zero.
pub open spec fn cooled_spec(temperature: int, delta: int) -> int {
    let scaled = 4 * (temperature + delta);
    if scaled >= 0 {
        scaled / 5
    } else {
        -((-scaled) / 5)
    }
}

/// `x` forced into the `i64` range.
pub open spec fn clamp_to_i64(x: int) -> int {
    if x < i64::MIN as int {
        i64::MIN as int
    } else if x > i64::MAX as int {
        i64::MAX as int
    } else {
        x
    }
}

/// Update the temperature signal from the current and previous best fitness.
fn cooled(temperature: i64, best: i64, last_best: i64) -> (r: i64)
    ensures
        r as int == clamp_to_i64(cooled_spec(temperature as int, best - last_best)),
{
    let delta: i128 = best as i128 - last_best as i128;
    let scaled: i128 = 4 * (temperature as i128 + delta);
    let quotient: i128 = if scaled >= 0 {
        ((scaled as u128) / 5) as i128
    } else {
        -((((-scaled) as u128) / 5) as i128)
    };
    if quotient < i64::MIN as i128 {
        i64::MIN
    } else if quotient > i64::MAX as i128 {
        i64::MAX
    } else {
        quotient as i64
    }
}

/// The greatest cached fitness of a population; meaningful when the
/// population is non-empty and evaluated.
pub open spec fn max_fit(p: Seq<Chromosome>) -> int
    decreases p.len(),
{
    if p.len() <= 1 {
        fit(p[0])
    } else {
        let rest_max = max_fit(p.drop_first());
        if fit(p[0]) >= rest_max {
            fit(p[0])
        } else {
            rest_max
        }
    }
}

/// The position of the earliest chromosome attaining the greatest fitness.
pub open spec fn first_best(p: Seq<Chromosome>) -> int
    decreases p.len(),
{
    if p.len() <= 1 {
        0
    } else if fit(p[0]) >= max_fit(p.drop_first()) {
        0
    } else {
        1 + first_best(p.drop_first())
    }
}

/// Sorting by non-increasing fitness with ties broken by prior order:
/// repeatedly move the earliest chromosome of greatest fitness to the front.
pub open spec fn stable_sorted(p: Seq<Chromosome>) -> Seq<Chromosome>
    decreases p.len(),
    via stable_sorted_decreases
{
    if p.len() == 0 {
        p
    } else {
        seq![p[first_best(p)]] + stable_sorted(p.remove(first_best(p)))
    }
}

#[via_fn]
proof fn stable_sorted_decreases(p: Seq<Chromosome>) {
    if p.len() > 0 {
        lemma_first_best(p);
    }
}

/// What the configured selection policy promises of its raw selection
/// result: the engine's selection step delegates, so its parents satisfy the
/// chosen policy's own contract.
pub open spec fn dispatched_sel_ens(
    strategy: Selection,
    population: Seq<Chromosome>,
    n: nat,
    r: Result<Vec<Chromosome>, SelectionError>,
) -> bool {
    match strategy {
        Selection::TournamentWithDuplicates => (TournamentWithDuplicates {  }).sel_ens(
            population,
            n,
            r,
        ),
        Selection::TournamentWithoutDuplicates => (TournamentWithoutDuplicates {  }).sel_ens(
            population,
            n,
            r,
        ),
        Selection::Roulette => (RouletteSelection {  }).sel_ens(population, n, r),
        Selection::Elitism => (ElitistSelection {  }).sel_ens(population, n, r),
        Selection::Random => (RandomSelection {  }).sel_ens(population, n, r),
    }
}

/// The only failures a run can surface, each tied to the one policy that
/// produces it: roulette selection on invalid probability weights, and the
/// duplicate-free tournament on exhaustion.  Every other policy always
/// succeeds, so an engine configured with one of them can only return `Ok`.
pub open spec fn run_error(strategy: Selection, e: SelectionError) -> bool {
    ||| strategy == Selection::Roulette && e == SelectionError::InvalidWeights
    ||| strategy == Selection::TournamentWithoutDuplicates && e == SelectionError::Exhausted
}

/// Why an engine could not be built.
#[derive(Copy, Clone, Eq, PartialEq, Structural, Debug)]
pub enum BuildError {
    /// No problem was supplied to the builder.
    MissingProblem,
    /// No selection strategy was supplied to the builder.
    MissingSelectionStrategy,
}

/// The evolutionary engine: a problem, the tunables, and the selection
/// policy, assembled by [`GeneticBuilder`].
///
/// The generational loop applies single-point crossover, the default
/// crossover policy, to each consecutive pair of parents; the order-one and
/// uniform policies are available to callers through the public
/// [`crate::crossover`] interface.
pub struct GeneticAlgorithm<T: Problem> {
    pub population_size: u32,
    pub problem: T,
    pub fitness_target: Option<i64>,
    pub mutation_rate: u32,
    pub selection_rate: u32,
    pub selection_strategy: Selection,
}

impl<T: Problem> GeneticAlgorithm<T> {
    /// The engine's configuration domain: a non-empty population, and rates
    /// that are probabilities in thousandths.
    pub open spec fn wf(&self) -> bool {
        &&& self.population_size >= 1
        &&& self.mutation_rate <= 1000
        &&& self.selection_rate <= 1000
    }

    /// The evaluation pass: score every chromosome that has no cached fitness
    /// yet (ageing it by one pass), then sort the population by descending
    /// fitness.  The result holds exactly the evaluated forms of the input
    /// chromosomes, as a multiset.
    pub fn evaluate(&self, population: Vec<Chromosome>) -> (r: Vec<Chromosome>)
        requires
            all_wf(population@),
            all_gene_len(population@, self.problem.genome_len()),
            all_consistent(self.problem, population@),
        ensures
            r@.len() == population@.len(),
            all_wf(r@),
            all_gene_len(r@, self.problem.genome_len()),
            all_consistent(self.problem, r@),
            all_evaluated(r@),
            sorted_desc(r@),
            r@.to_multiset() == evaluated_pop(self.problem, population@).to_multiset(),
            r@ == stable_sorted(evaluated_pop(self.problem, population@)),
    {
        let ghost orig = population@;
        let mut rest = population;
        let mut annotated: Vec<Chromosome> = Vec::new();
        while rest.len() > 0
            invariant
                all_wf(orig),
                all_gene_len(orig, self.problem.genome_len()),
                all_consistent(self.problem, orig),
                annotated@.len() + rest@.len() == orig.len(),
                rest@ == orig.skip(annotated@.len() as int),
                annotated@ == evaluated_pop(self.problem, orig.take(annotated@.len() as int)),
            decreases rest@.len(),
        {
            let ghost k = annotated@.len() as int;
            let mut c = rest.remove(0);
            proof {
                assert(c == orig[k]);
                assert(rest@ =~= orig.skip(k + 1));
            }
            if c.fitness.is_none() {
                let f = self.problem.fitness(&c);
                c.set_fitness(f);
                c.age = if c.age == u32::MAX {
                    u32::MAX
                } else {
                    c.age + 1
                };
            }
            proof {
                assert(c == evaluated_form(self.problem, orig[k]));
            }
            annotated.push(c);
            proof {
                assert(annotated@ =~= evaluated_pop(self.problem, orig.take(k + 1)));
            }
        }
        proof {
            assert(orig.take(orig.len() as int) =~= orig);
            assert(annotated@ == evaluated_pop(self.problem, orig));
        }
        let ghost ann = annotated@;
        let r = sort_by_descending_fitness(annotated);
        proof {
            broadcast use vstd::seq_lib::group_to_multiset_ensures;

            assert forall|i: int|
                0 <= i < r@.len() implies (#[trigger] r@[i]).wf() && r@[i].genes@.len()
                == self.problem.genome_len() && consistent_with(self.problem, r@[i]) by {
                let c = r@[i];
                assert(r@.contains(c));
                assert(r@.to_multiset().count(c) > 0);
                assert(ann.contains(c));
                let q = choose|q: int| 0 <= q < ann.len() && ann[q] == c;
                assert(c == evaluated_form(self.problem, orig[q]));
                assert(orig[q].wf() && orig[q].genes@.len() == self.problem.genome_len()
                    && consistent_with(self.problem, orig[q]));
            }
        }
        r
    }

    /// The selection step: delegate the choice of `n` parents to the
    /// configured strategy, then gather the unselected remainder of the
    /// population — deduplicated by value — into a leftover pool holding at
    /// most `population.len() - n` chromosomes.
    fn selection(&self, population: Vec<Chromosome>, n: usize) -> (r: Result<
        (Vec<Chromosome>, Vec<Chromosome>),
        SelectionError,
    >)
        requires
            all_wf(population@),
            all_evaluated(population@),
            all_gene_len(population@, self.problem.genome_len()),
            all_consistent(self.problem, population@),
            population@.len() >= 1,
            n <= population@.len(),
        ensures
            r matches Err(e) ==> dispatched_sel_ens(
                self.selection_strategy,
                population@,
                n as nat,
                Err(e),
            ),
            r matches Ok((parents, leftover)) ==> {
                &&& dispatched_sel_ens(
                    self.selection_strategy,
                    population@,
                    n as nat,
                    Ok(parents),
                )
                &&& parents@.len() == n
                &&& all_wf(parents@)
                &&& all_evaluated(parents@)
                &&& all_gene_len(parents@, self.problem.genome_len())
                &&& all_consistent(self.problem, parents@)
                &&& leftover@.len() <= population@.len() - n
                &&& drawn_from(leftover@, population@)
                &&& all_wf(leftover@)
                &&& all_evaluated(leftover@)
                &&& all_gene_len(leftover@, self.problem.genome_len())
                &&& all_consistent(self.problem, leftover@)
                &&& forall|i: int, j: int|
                    #![trigger leftover@[i], leftover@[j]]
                    0 <= i < leftover@.len() && 0 <= j < leftover@.len() && i != j
                        ==> !leftover@[i].same_value(&leftover@[j])
                &&& forall|i: int, j: int|
                    #![trigger leftover@[i], parents@[j]]
                    0 <= i < leftover@.len() && 0 <= j < parents@.len()
                        ==> !leftover@[i].same_value(&parents@[j])
            },
    {
        let picked: Result<Vec<Chromosome>, SelectionError> = match self.selection_strategy {
            Selection::TournamentWithDuplicates => {
                let s = TournamentWithDuplicates {  };
                let r = s.select(&population, n);
                proof {
                    if r is Ok {
                        lemma_tournament_drawn(r.unwrap()@, population@);
                    }
                }
                r
            },
            Selection::TournamentWithoutDuplicates => {
                let s = TournamentWithoutDuplicates {  };
                let r = s.select(&population, n);
                proof {
                    if r is Ok {
                        lemma_tournament_drawn(r.unwrap()@, population@);
                    }
                }
                r
            },
            Selection::Roulette => {
                let s = RouletteSelection {  };
                let r = s.select(&population, n);
                proof {
                    if r is Ok {
                        assert forall|k: int|
                            0 <= k < r.unwrap()@.len() implies appears_in(
                            #[trigger] r.unwrap()@[k],
                            population@,
                        ) by {
                            let i = choose|i: int|
                                0 <= i < population@.len() && r.unwrap()@[k].same_value(
                                    &population@[i],
                                ) && fit(population@[i]) > 0;
                            assert(0 <= i < population@.len() && r.unwrap()@[k].same_value(
                                &population@[i],
                            ));
                        }
                        assert(drawn_from(r.unwrap()@, population@));
                    }
                }
                r
            },
            Selection::Elitism => {
                let s = ElitistSelection {  };
                let r = s.select(&population, n);
                proof {
                    assert forall|k: int|
                        0 <= k < r.unwrap()@.len() implies appears_in(
                        #[trigger] r.unwrap()@[k],
                        population@,
                    ) by {
                        assert(r.unwrap()@[k].same_value(&population@[k]));
                    }
                    assert(drawn_from(r.unwrap()@, population@));
                }
                r
            },
            Selection::Random => {
                let s = RandomSelection {  };
                let r = s.select(&population, n);
                proof {
                    let v = r.unwrap()@;
                    let idx = choose|idx: Seq<int>|
                        {
                            &&& idx.len() == n
                            &&& idx.no_duplicates()
                            &&& forall|k: int|
                                0 <= k < n ==> 0 <= #[trigger] idx[k] < population@.len()
                                    && v[k].same_value(&population@[idx[k]])
                        };
                    assert forall|k: int|
                        0 <= k < v.len() implies appears_in(#[trigger] v[k], population@) by {
                        assert(0 <= idx[k] < population@.len() && v[k].same_value(
                            &population@[idx[k]],
                        ));
                    }
                    assert(drawn_from(v, population@));
                }
                r
            },
        };
        proof {
            assert(dispatched_sel_ens(self.selection_strategy, population@, n as nat, picked));
            assert(picked matches Ok(v) ==> v@.len() == n && drawn_from(v@, population@));
        }
        let parents = match picked {
            Ok(p) => p,
            Err(e) => {
                return Err(e);
            },
        };
        proof {
            lemma_drawn_props(
                self.problem,
                parents@,
                population@,
                self.problem.genome_len(),
            );
        }
        let cap = population.len() - n;
        let ghost orig = population@;
        let mut rest = population;
        let mut leftover: Vec<Chromosome> = Vec::new();
        while rest.len() > 0
            invariant
                all_wf(orig),
                all_evaluated(orig),
                all_gene_len(orig, self.problem.genome_len()),
                all_consistent(self.problem, orig),
                leftover@.len() + rest@.len() <= orig.len() + 0,
                rest@ == orig.skip(orig.len() - rest@.len()),
                leftover@.len() <= cap,
                drawn_from(leftover@, orig),
                all_wf(leftover@),
                all_evaluated(leftover@),
                all_gene_len(leftover@, self.problem.genome_len()),
                all_consistent(self.problem, leftover@),
                forall|i: int, j: int|
                    #![trigger leftover@[i], leftover@[j]]
                    0 <= i < leftover@.len() && 0 <= j < leftover@.len() && i != j
                        ==> !leftover@[i].same_value(&leftover@[j]),
                forall|i: int, j: int|
                    #![trigger leftover@[i], parents@[j]]
                    0 <= i < leftover@.len() && 0 <= j < parents@.len()
                        ==> !leftover@[i].same_value(&parents@[j]),
            decreases rest@.len(),
        {
            let ghost k = orig.len() - rest@.len();
            let c = rest.remove(0);
            proof {
                assert(c == orig[k]);
                assert(rest@ =~= orig.skip(k + 1));
            }
            if leftover.len() < cap && !contains_value(&parents, &c) && !contains_value(
                &leftover,
                &c,
            ) {
                proof {
                    assert(c.same_value(&orig[k]));
                }
                leftover.push(c);
            }
        }
        Ok((parents, leftover))
    }

    /// The crossover step: pair the parents off in selection order and apply
    /// single-point crossover to each pair, collecting two children per pair.
    /// An unpaired trailing parent is dropped.
    fn crossover_step(&self, parents: Vec<Chromosome>) -> (children: Vec<Chromosome>)
        requires
            all_wf(parents@),
            all_gene_len(parents@, self.problem.genome_len()),
            self.problem.genome_len() >= 1,
        ensures
            children@.len() == 2 * (parents@.len() as int / 2),
            all_wf(children@),
            all_gene_len(children@, self.problem.genome_len()),
            all_consistent(self.problem, children@),
            forall|i: int| 0 <= i < children@.len() ==> (#[trigger] children@[i]).fitness is None,
            forall|q: int|
                0 <= q < parents@.len() as int / 2 ==> (SinglePoint {  }).cx_ens(
                    parents@[2 * q],
                    parents@[2 * q + 1],
                    (#[trigger] children@[2 * q], children@[2 * q + 1]),
                ),
    {
        let ghost orig = parents@;
        let mut rest = parents;
        let mut children: Vec<Chromosome> = Vec::new();
        while rest.len() >= 2
            invariant
                self.problem.genome_len() >= 1,
                all_wf(orig),
                all_gene_len(orig, self.problem.genome_len()),
                children@.len() + rest@.len() == orig.len(),
                children@.len() % 2 == 0,
                rest@ == orig.skip(children@.len() as int),
                all_wf(children@),
                all_gene_len(children@, self.problem.genome_len()),
                all_consistent(self.problem, children@),
                forall|i: int|
                    0 <= i < children@.len() ==> (#[trigger] children@[i]).fitness is None,
                forall|q: int|
                    0 <= q < children@.len() as int / 2 ==> (SinglePoint {  }).cx_ens(
                        orig[2 * q],
                        orig[2 * q + 1],
                        (#[trigger] children@[2 * q], children@[2 * q + 1]),
                    ),
            decreases rest@.len(),
        {
            let ghost k = children@.len() as int;
            let father = rest.remove(0);
            let mother = rest.remove(0);
            proof {
                assert(father == orig[k]);
                assert(orig.skip(k).remove(0) =~= orig.skip(k + 1));
                assert(mother == orig[k + 1]);
                assert(rest@ =~= orig.skip(k + 2));
            }
            let strategy = SinglePoint {  };
            let (first, second) = strategy.crossover(father, mother);
            children.push(first);
            children.push(second);
        }
        children
    }

    /// Run the engine to termination and hand back the best chromosome of
    /// the final generation: evaluated, its cached fitness the problem's own
    /// score of its genes, its genome of the problem's length.  The run ends
    /// only when the problem's termination predicate says so; an error is
    /// surfaced when the configured selection strategy fails (roulette
    /// selection on invalid weights, or an exhausted duplicate-free
    /// tournament).
    pub fn run(&self) -> (r: Result<Chromosome, SelectionError>)
        requires
            self.wf(),
            self.problem.genome_len() >= 1,
        ensures
            r matches Ok(best) ==> {
                &&& best.wf()
                &&& best.genes@.len() == self.problem.genome_len()
                &&& best.fitness == Some(self.problem.fitness_spec(best.genes@))
            },
            r matches Err(e) ==> run_error(self.selection_strategy, e),
    {
        self.evolve()
    }

    /// The generational loop: evaluate, check termination, select, cross
    /// over, refill, mutate, repeat.  The population always holds exactly
    /// `population_size` chromosomes of the problem's genome length between
    /// steps.  The loop's only intended exit is the termination predicate; a
    /// run that somehow exhausts the 64-bit generation counter ends with the
    /// then-best chromosome.
    fn evolve(&self) -> (r: Result<Chromosome, SelectionError>)
        requires
            self.wf(),
            self.problem.genome_len() >= 1,
        ensures
            r matches Ok(best) ==> {
                &&& best.wf()
                &&& best.genes@.len() == self.problem.genome_len()
                &&& best.fitness == Some(self.problem.fitness_spec(best.genes@))
            },
            r matches Err(e) ==> run_error(self.selection_strategy, e),
    {
        let psize = self.population_size as usize;
        let mut population: Vec<Chromosome> = Vec::new();
        while population.len() < psize
            invariant
                all_wf(population@),
                all_gene_len(population@, self.problem.genome_len()),
                all_consistent(self.problem, population@),
                population@.len() <= psize,
            decreases psize - population@.len(),
        {
            population.push(Chromosome::new(self.problem.genotype()));
        }
        let n = parent_count(self.population_size, self.selection_rate);
        let mut generation: u64 = 0;
        let mut last_best: i64 = 0;
        let mut temperature: i64 = 0;
        while generation < u64::MAX
            invariant
                self.wf(),
                self.problem.genome_len() >= 1,
                psize == self.population_size as usize,
                psize >= 1,
                n <= psize,
                n % 2 == 0,
                population@.len() == psize,
                all_wf(population@),
                all_gene_len(population@, self.problem.genome_len()),
                all_consistent(self.problem, population@),
            decreases u64::MAX - generation,
        {
            population = self.evaluate(population);
            let best_fitness = population[0].get_fitness();
            temperature = cooled(temperature, best_fitness, last_best);
            if self.problem.terminate(&population, generation, temperature) {
                let best = population[0].clone();
                proof {
                    assert(best.same_value(&population@[0]));
                }
                return Ok(best);
            }
            population = match self.next_generation(population, n) {
                Ok(next) => next,
                Err(e) => {
                    return Err(e);
                },
            };
            last_best = best_fitness;
            generation = generation + 1;
        }
        population = self.evaluate(population);
        let best = population[0].clone();
        proof {
            assert(best.same_value(&population@[0]));
        }
        Ok(best)
    }

    /// One generation after evaluation: select the parents, cross them over
    /// in pairs, append the deduplicated leftover pool, refill with fresh
    /// random genomes, and mutate.  The next population again holds exactly
    /// `population_size` chromosomes, every genome of the problem's length.
    pub fn next_generation(&self, population: Vec<Chromosome>, n: usize) -> (r: Result<
        Vec<Chromosome>,
        SelectionError,
    >)
        requires
            self.wf(),
            self.problem.genome_len() >= 1,
            population@.len() == self.population_size as usize,
            all_wf(population@),
            all_evaluated(population@),
            all_gene_len(population@, self.problem.genome_len()),
            all_consistent(self.problem, population@),
            n <= population@.len(),
            n % 2 == 0,
        ensures
            r matches Ok(next) ==> {
                &&& next@.len() == self.population_size as usize
                &&& all_wf(next@)
                &&& all_gene_len(next@, self.problem.genome_len())
                &&& all_consistent(self.problem, next@)
            },
            r matches Err(e) ==> run_error(self.selection_strategy, e),
    {
        let psize = self.population_size as usize;
        let (parents, mut leftover) = match self.selection(population, n) {
            Ok(pair) => pair,
            Err(e) => {
                return Err(e);
            },
        };
        let mut children = self.crossover_step(parents);
        proof {
            assert(children@.len() == n);
        }
        children.append(&mut leftover);
        while children.len() < psize
            invariant
                all_wf(children@),
                all_gene_len(children@, self.problem.genome_len()),
                all_consistent(self.problem, children@),
                children@.len() <= psize,
            decreases psize - children@.len(),
        {
            children.push(Chromosome::new(self.problem.genotype()));
        }
        Ok(self.mutate(children))
    }

    /// The mutation step: every chromosome independently keeps its genome
    /// with probability one minus the mutation rate, and otherwise has it
    /// shuffled into a uniformly random order — a pure reordering, never a
    /// change of alleles — with its fitness reset to unset.
    pub fn mutate(&self, population: Vec<Chromosome>) -> (r: Vec<Chromosome>)
        requires
            self.wf(),
            all_wf(population@),
            all_gene_len(population@, self.problem.genome_len()),
            all_consistent(self.problem, population@),
        ensures
            r@.len() == population@.len(),
            all_wf(r@),
            all_gene_len(r@, self.problem.genome_len()),
            all_consistent(self.problem, r@),
            forall|i: int|
                0 <= i < r@.len() ==> (#[trigger] r@[i]).genes@.to_multiset()
                    == population@[i].genes@.to_multiset(),
            forall|i: int| 0 <= i < r@.len() ==> (#[trigger] r@[i]).age == population@[i].age,
            forall|i: int|
                0 <= i < r@.len() ==> (#[trigger] r@[i]) == population@[i] || r@[i].fitness
                    is None,
            self.mutation_rate == 0 ==> r@ == population@,
    {
        proof {
            broadcast use vstd::seq_lib::group_to_multiset_ensures;

        }
        let ghost orig = population@;
        let mut rest = population;
        let mut out: Vec<Chromosome> = Vec::new();
        while rest.len() > 0
            invariant
                self.wf(),
                all_wf(orig),
                all_gene_len(orig, self.problem.genome_len()),
                all_consistent(self.problem, orig),
                out@.len() + rest@.len() == orig.len(),
                rest@ == orig.skip(out@.len() as int),
                all_wf(out@),
                all_gene_len(out@, self.problem.genome_len()),
                all_consistent(self.problem, out@),
                forall|i: int|
                    0 <= i < out@.len() ==> (#[trigger] out@[i]).genes@.to_multiset()
                        == orig[i].genes@.to_multiset(),
                forall|i: int| 0 <= i < out@.len() ==> (#[trigger] out@[i]).age == orig[i].age,
                forall|i: int|
                    0 <= i < out@.len() ==> (#[trigger] out@[i]) == orig[i] || out@[i].fitness
                        is None,
                self.mutation_rate == 0 ==> out@ =~= orig.take(out@.len() as int),
            decreases rest@.len(),
        {
            let ghost k = out@.len() as int;
            let mut c = rest.remove(0);
            proof {
                assert(c == orig[k]);
                assert(rest@ =~= orig.skip(k + 1));
                broadcast use vstd::seq_lib::group_to_multiset_ensures;

            }
            let trial = rand_below(1000);
            if trial < self.mutation_rate as u128 {
                shuffle_vec(&mut c.genes);
                c.fitness = None;
            }
            out.push(c);
        }
        proof {
            if self.mutation_rate == 0 {
                assert(out@ =~= orig);
            }
        }
        out
    }
}

/// `first_best` names the earliest position of greatest fitness: everything
/// is at most its fitness, and everything before it is strictly below.
proof fn lemma_first_best(p: Seq<Chromosome>)
    requires
        p.len() >= 1,
    ensures
        0 <= first_best(p) < p.len(),
        fit(p[first_best(p)]) == max_fit(p),
        forall|k: int| 0 <= k < p.len() ==> fit(#[trigger] p[k]) <= max_fit(p),
        forall|k: int| 0 <= k < first_best(p) ==> fit(#[trigger] p[k]) < max_fit(p),
    decreases p.len(),
{
    if p.len() > 1 {
        lemma_first_best(p.drop_first());
        assert forall|k: int| 0 <= k < p.len() implies fit(#[trigger] p[k]) <= max_fit(p) by {
            if k > 0 {
                assert(p.drop_first()[k - 1] == p[k]);
            }
        }
        if fit(p[0]) < max_fit(p.drop_first()) {
            assert(p[1 + first_best(p.drop_first())] == p.drop_first()[first_best(
                p.drop_first(),
            )]);
            assert forall|k: int| 0 <= k < first_best(p) implies fit(#[trigger] p[k]) < max_fit(
                p,
            ) by {
                if k > 0 {
                    assert(p.drop_first()[k - 1] == p[k]);
                }
            }
        }
    }
}

/// A sequence of tournament winners is drawn, by value, from its population.
proof fn lemma_tournament_drawn(v: Seq<Chromosome>, p: Seq<Chromosome>)
    requires
        forall|k: int| 0 <= k < v.len() ==> tournament_pick(p, #[trigger] v[k]),
    ensures
        drawn_from(v, p),
{
    assert forall|k: int| 0 <= k < v.len() implies appears_in(#[trigger] v[k], p) by {
        let i = lemma_pick_member(p, v[k]);
        assert(0 <= i < p.len() && v[k].same_value(&p[i]));
    }
}

/// A tournament winner is, by value, a member of the population it was
/// drawn from.
proof fn lemma_pick_member(population: Seq<Chromosome>, c: Chromosome) -> (i: int)
    requires
        tournament_pick(population, c),
    ensures
        0 <= i < population.len(),
        c.same_value(&population[i]),
{
    let i = choose|i: int|
        0 <= i < population.len() && c.same_value(&population[i]) && (population.len() >= 2
            ==> exists|l: int| 0 <= l < population.len() && l != i && fit(#[trigger] population[i])
            >= fit(population[l]));
    i
}

/// Chromosomes drawn by value from a population share its well-formedness,
/// evaluation state, genome length and fitness consistency.
proof fn lemma_drawn_props<T: Problem>(problem: T, v: Seq<Chromosome>, p: Seq<Chromosome>, l: nat)
    requires
        drawn_from(v, p),
        all_wf(p),
        all_evaluated(p),
        all_gene_len(p, l),
        all_consistent(problem, p),
    ensures
        all_wf(v),
        all_evaluated(v),
        all_gene_len(v, l),
        all_consistent(problem, v),
{
    assert forall|k: int|
        0 <= k < v.len() implies (#[trigger] v[k]).wf() && v[k].fitness is Some
        && v[k].genes@.len() == l && consistent_with(problem, v[k]) by {
        assert(appears_in(v[k], p));
        let i = choose|i: int| 0 <= i < p.len() && v[k].same_value(&p[i]);
        assert(p[i].wf() && p[i].fitness is Some && p[i].genes@.len() == l && consistent_with(
            problem,
            p[i],
        ));
    }
}

/// Sort a fully evaluated population by non-increasing cached fitness,
/// breaking ties by prior order: repeatedly move the earliest chromosome of
/// highest fitness to the back of the sorted part.
fn sort_by_descending_fitness(population: Vec<Chromosome>) -> (r: Vec<Chromosome>)
    requires
        all_evaluated(population@),
    ensures
        r@.len() == population@.len(),
        all_evaluated(r@),
        sorted_desc(r@),
        r@.to_multiset() == population@.to_multiset(),
        r@ == stable_sorted(population@),
{
    proof {
        broadcast use vstd::seq_lib::group_to_multiset_ensures;

    }
    let ghost orig = population@;
    let mut rest = population;
    let mut sorted: Vec<Chromosome> = Vec::new();
    while rest.len() > 0
        invariant
            all_evaluated(rest@),
            all_evaluated(sorted@),
            sorted_desc(sorted@),
            sorted@.len() + rest@.len() == orig.len(),
            sorted@.to_multiset().add(rest@.to_multiset()) == orig.to_multiset(),
            sorted@ + stable_sorted(rest@) == stable_sorted(orig),
            forall|i: int, j: int|
                #![trigger sorted@[i], rest@[j]]
                0 <= i < sorted@.len() && 0 <= j < rest@.len() ==> fit(sorted@[i]) >= fit(
                    rest@[j],
                ),
        decreases rest@.len(),
    {
        let mut best_i: usize = 0;
        let mut m: usize = 1;
        while m < rest.len()
            invariant
                all_evaluated(rest@),
                rest@.len() >= 1,
                best_i < m,
                m <= rest@.len(),
                forall|k: int| 0 <= k < m ==> fit(rest@[best_i as int]) >= fit(#[trigger] rest@[k]),
                forall|k: int|
                    0 <= k < best_i ==> fit(#[trigger] rest@[k]) < fit(rest@[best_i as int]),
            decreases rest@.len() - m,
        {
            if rest[m].get_fitness() > rest[best_i].get_fitness() {
                best_i = m;
            }
            m = m + 1;
        }
        let ghost rest_before = rest@;
        let ghost sorted_before = sorted@;
        let picked = rest.remove(best_i);
        proof {
            broadcast use vstd::seq_lib::group_to_multiset_ensures;

            assert(rest@ == rest_before.remove(best_i as int));
            lemma_first_best(rest_before);
            assert(fit(rest_before[best_i as int]) >= fit(rest_before[first_best(rest_before)]));
            assert(fit(rest_before[best_i as int]) == max_fit(rest_before));
            assert(first_best(rest_before) == best_i as int) by {
                if first_best(rest_before) < best_i as int {
                    assert(fit(rest_before[first_best(rest_before)]) < fit(
                        rest_before[best_i as int],
                    ));
                } else if first_best(rest_before) > best_i as int {
                    assert(fit(rest_before[best_i as int]) < max_fit(rest_before));
                }
            }
            assert(stable_sorted(rest_before) == seq![picked] + stable_sorted(rest@));
            assert(sorted@.to_multiset().insert(picked).add(rest_before.to_multiset().remove(picked))
                =~= sorted@.to_multiset().add(rest_before.to_multiset()));
            assert forall|j: int| 0 <= j < rest@.len() implies fit(picked) >= fit(
                #[trigger] rest@[j],
            ) by {
                if j < best_i {
                    assert(rest@[j] == rest_before[j]);
                } else {
                    assert(rest@[j] == rest_before[j + 1]);
                }
            }
        }
        sorted.push(picked);
        proof {
            assert(sorted@ + stable_sorted(rest@) =~= sorted_before + stable_sorted(rest_before));
        }
    }
    proof {
        assert(rest@.to_multiset() =~= Multiset::<Chromosome>::empty());
        assert(sorted@.to_multiset() =~= orig.to_multiset());
        assert(stable_sorted(rest@) == rest@);
        assert(sorted@ =~= sorted@ + stable_sorted(rest@));
    }
    sorted
}

/// Assembles a [`GeneticAlgorithm`]: population size, rates and fitness
/// target start at their defaults; the problem and the selection strategy
/// must be supplied before `build` succeeds.
pub struct GeneticBuilder<T: Problem> {
    pub fitness_target: Option<i64>,
    pub problem: Option<T>,
    pub selection_strategy: Option<Selection>,
    pub population_size: u32,
    pub mutation_rate: u32,
    pub selection_rate: u32,
}

impl<T: Problem> GeneticBuilder<T> {
    /// The builder's configuration domain, as for the engine.
    pub open spec fn wf(&self) -> bool {
        &&& self.population_size >= 1
        &&& self.mutation_rate <= 1000
        &&& self.selection_rate <= 1000
    }

    /// A builder with every tunable at its default.
    pub fn new() -> (r: GeneticBuilder<T>)
        ensures
            r.wf(),
            r.fitness_target is None,
            r.problem is None,
            r.selection_strategy is None,
            r.population_size == 100,
            r.mutation_rate == 50,
            r.selection_rate == 800,
    {
        GeneticBuilder {
            fitness_target: None,
            problem: None,
            selection_strategy: None,
            population_size: 100,
            mutation_rate: 50,
            selection_rate: 800,
        }
    }

    /// Record an advisory fitness target; the engine itself does not act on
    /// it, termination is entirely the problem's call.
    pub fn with_fitness_target(self, fitness_target: i64) -> (r: GeneticBuilder<T>)
        ensures
            r == (GeneticBuilder { fitness_target: Some(fitness_target), ..self }),
    {
        GeneticBuilder { fitness_target: Some(fitness_target), ..self }
    }

    /// Set the population size; a population is never empty.
    pub fn with_population_size(self, population_size: u32) -> (r: GeneticBuilder<T>)
        requires
            population_size >= 1,
        ensures
            r == (GeneticBuilder { population_size, ..self }),
    {
        GeneticBuilder { population_size, ..self }
    }

    /// Supply the problem to optimise.
    pub fn with_problem(self, problem: T) -> (r: GeneticBuilder<T>)
        ensures
            r == (GeneticBuilder { problem: Some(problem), ..self }),
    {
        GeneticBuilder { problem: Some(problem), ..self }
    }

    /// Set the per-chromosome mutation probability, in thousandths.
    pub fn with_mutation_rate(self, mutation_rate: u32) -> (r: GeneticBuilder<T>)
        requires
            mutation_rate <= 1000,
        ensures
            r == (GeneticBuilder { mutation_rate, ..self }),
    {
        GeneticBuilder { mutation_rate, ..self }
    }

    /// Set the share of the population selected as parents, in thousandths.
    pub fn with_selection_rate(self, selection_rate: u32) -> (r: GeneticBuilder<T>)
        requires
            selection_rate <= 1000,
        ensures
            r == (GeneticBuilder { selection_rate, ..self }),
    {
        GeneticBuilder { selection_rate, ..self }
    }

    /// Choose the selection strategy.
    pub fn with_selection_strategy(self, selection_strategy: Selection) -> (r: GeneticBuilder<T>)
        ensures
            r == (GeneticBuilder { selection_strategy: Some(selection_strategy), ..self }),
    {
        GeneticBuilder { selection_strategy: Some(selection_strategy), ..self }
    }

    /// Assemble the engine.  Fails fast, before any generation runs, when the
    /// problem or the selection strategy is missing.
    pub fn build(self) -> (r: Result<GeneticAlgorithm<T>, BuildError>)
        requires
            self.wf(),
        ensures
            r is Ok <==> self.problem is Some && self.selection_strategy is Some,
            self.problem is None ==> r == Err::<GeneticAlgorithm<T>, BuildError>(
                BuildError::MissingProblem,
            ),
            self.problem is Some && self.selection_strategy is None ==> r == Err::<
                GeneticAlgorithm<T>,
                BuildError,
            >(BuildError::MissingSelectionStrategy),
            r matches Ok(g) ==> {
                &&& g.wf()
                &&& g.problem == self.problem.unwrap()
                &&& g.selection_strategy == self.selection_strategy.unwrap()
                &&& g.fitness_target == self.fitness_target
                &&& g.population_size == self.population_size
                &&& g.mutation_rate == self.mutation_rate
                &&& g.selection_rate == self.selection_rate
            },
    {
        let problem = match self.problem {
            Some(p) => p,
            None => {
                return Err(BuildError::MissingProblem);
            },
        };
        let selection_strategy = match self.selection_strategy {
            Some(s) => s,
            None => {
                return Err(BuildError::MissingSelectionStrategy);
            },
        };
        Ok(
            GeneticAlgorithm {
                problem,
                selection_strategy,
                fitness_target: self.fitness_target,
                population_size: self.population_size,
                mutation_rate: self.mutation_rate,
                selection_rate: self.selection_rate,
            },
        )
    }
}

impl<T: Problem> Default for GeneticBuilder<T> {
    /// The same defaults as [`GeneticBuilder::new`].
    fn default() -> (r: GeneticBuilder<T>)
        ensures
            r.wf(),
            r.fitness_target is None,
            r.problem is None,
            r.selection_strategy is None,
            r.population_size == 100,
            r.mutation_rate == 50,
            r.selection_rate == 800,
    {
        GeneticBuilder::new()
    }
}

} // verus!
