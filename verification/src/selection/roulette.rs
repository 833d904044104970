use crate::chromosome::Chromosome;
use crate::rng::rand_below;
use crate::selection::{all_evaluated, SelectionError, SelectionStrategy};
use vstd::prelude::*;

verus! {

/// The cached fitness of a chromosome, as a mathematical integer.
pub open spec fn fit(c: Chromosome) -> int {
    c.fitness.unwrap() as int
}

/// The sum of the cached fitness values of a population.
pub open spec fn total_fitness(p: Seq<Chromosome>) -> int
    decreases p.len(),
{
    if p.len() == 0 {
        0
    } else {
        total_fitness(p.drop_last()) + fit(p.last())
    }
}

/// No chromosome of the sequence has a negative cached fitness.
pub open spec fn no_negative(p: Seq<Chromosome>) -> bool {
    forall|i: int| 0 <= i < p.len() ==> fit(#[trigger] p[i]) >= 0
}

/// Roulette selection: each draw picks a chromosome with probability
/// proportional to its fitness, `n` times independently with replacement.
///
/// Valid probability weights need every fitness non-negative and their sum
/// positive; on any other population the strategy reports `InvalidWeights`.
#[derive(Default, Debug, Clone, Copy)]
pub struct RouletteSelection {

}

impl SelectionStrategy for RouletteSelection {
    open spec fn sel_req(&self, population: Seq<Chromosome>, n: nat) -> bool {
        all_evaluated(population)
    }

    /// Succeeds exactly on populations with valid weights, and then every
    /// drawn chromosome is a member with strictly positive fitness.
    open spec fn sel_ens(
        &self,
        population: Seq<Chromosome>,
        n: nat,
        r: Result<Vec<Chromosome>, SelectionError>,
    ) -> bool {
        &&& (r is Ok <==> no_negative(population) && total_fitness(population) > 0)
        &&& (r is Err ==> r == Err::<Vec<Chromosome>, SelectionError>(
            SelectionError::InvalidWeights,
        ))
        &&& (r is Ok ==> {
            &&& r.unwrap()@.len() == n
            &&& forall|k: int|
                0 <= k < n ==> exists|i: int|
                    0 <= i < population.len() && (#[trigger] r.unwrap()@[k]).same_value(
                        &population[i],
                    ) && fit(population[i]) > 0
        })
    }

    fn select(&self, population: &Vec<Chromosome>, n: usize) -> (r: Result<
        Vec<Chromosome>,
        SelectionError,
    >) {
        let len = population.len();
        let mut total: u128 = 0;
        let mut i: usize = 0;
        while i < len
            invariant
                all_evaluated(population@),
                i <= len,
                len == population@.len(),
                forall|k: int| 0 <= k < i ==> fit(#[trigger] population@[k]) >= 0,
                total as int == total_fitness(population@.take(i as int)),
                total as int <= i * 0x7fff_ffff_ffff_ffff,
            decreases len - i,
        {
            let f = population[i].get_fitness();
            if f < 0 {
                return Err(SelectionError::InvalidWeights);
            }
            proof {
                lemma_total_take_succ(population@, i as int);
            }
            total = total + (f as u128);
            i = i + 1;
        }
        proof {
            assert(population@.take(len as int) =~= population@);
        }
        if total == 0 {
            return Err(SelectionError::InvalidWeights);
        }
        let mut out: Vec<Chromosome> = Vec::new();
        let mut k: usize = 0;
        while k < n
            invariant
                all_evaluated(population@),
                no_negative(population@),
                total as int == total_fitness(population@),
                total >= 1,
                k <= n,
                out@.len() == k,
                forall|j: int|
                    0 <= j < k ==> exists|i: int|
                        0 <= i < population@.len() && (#[trigger] out@[j]).same_value(
                            &population@[i],
                        ) && fit(population@[i]) > 0,
            decreases n - k,
        {
            let x = rand_below(total);
            let pick = pick_weighted(population, x);
            out.push(population[pick].clone());
            k = k + 1;
        }
        Ok(out)
    }
}

/// Walk the cumulative fitness bands until the one holding `x`; the band a
/// draw lands in always belongs to a chromosome with positive fitness.
fn pick_weighted(population: &Vec<Chromosome>, x: u128) -> (j: usize)
    requires
        all_evaluated(population@),
        no_negative(population@),
        (x as int) < total_fitness(population@),
    ensures
        j < population@.len(),
        fit(population@[j as int]) > 0,
{
    let len = population.len();
    let mut j: usize = 0;
    let mut cum: u128 = 0;
    loop
        invariant
            all_evaluated(population@),
            no_negative(population@),
            (x as int) < total_fitness(population@),
            len == population@.len(),
            j <= len,
            cum as int == total_fitness(population@.take(j as int)),
            cum <= x,
        decreases len - j,
    {
        proof {
            if j == len {
                assert(population@.take(len as int) =~= population@);
            }
            lemma_total_take_succ(population@, j as int);
            lemma_total_monotone(population@, j + 1);
            lemma_total_upper(population@);
        }
        let f = population[j].get_fitness();
        if x < cum + (f as u128) {
            return j;
        }
        cum = cum + (f as u128);
        j = j + 1;
    }
}

/// Extending the summed prefix by one element adds that element's fitness.
proof fn lemma_total_take_succ(p: Seq<Chromosome>, j: int)
    requires
        0 <= j < p.len(),
    ensures
        total_fitness(p.take(j + 1)) == total_fitness(p.take(j)) + fit(p[j]),
{
    let t = p.take(j + 1);
    assert(t.drop_last() =~= p.take(j));
    assert(t.last() == p[j]);
}

/// With no negative fitness, a prefix sum never exceeds the full sum.
proof fn lemma_total_monotone(p: Seq<Chromosome>, j: int)
    requires
        no_negative(p),
        0 <= j <= p.len(),
    ensures
        total_fitness(p.take(j)) <= total_fitness(p),
    decreases p.len() - j,
{
    if j == p.len() {
        assert(p.take(j) =~= p);
    } else {
        lemma_total_take_succ(p, j);
        lemma_total_monotone(p, j + 1);
    }
}

/// Each fitness fits in an `i64`, so the sum is at most the length times
/// the largest `i64`.
proof fn lemma_total_upper(p: Seq<Chromosome>)
    ensures
        total_fitness(p) <= p.len() * 0x7fff_ffff_ffff_ffff,
    decreases p.len(),
{
    if p.len() != 0 {
        lemma_total_upper(p.drop_last());
    }
}

} // verus!
