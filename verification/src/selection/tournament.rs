use crate::chromosome::{contains_value, Chromosome};
use crate::rng::rand_below;
use crate::selection::roulette::fit;
use crate::selection::{all_evaluated, SelectionError, SelectionStrategy};
use vstd::prelude::*;

verus! {

/// How many two-way tournaments a duplicate-free selection pass may run before
/// giving up with `SelectionError::Exhausted` instead of looping forever.
pub const TOURNAMENT_ATTEMPT_CAP: u64 = 1000000;

/// The content of a chromosome, as a tuple: two chromosomes are equal by value
/// exactly when their keys are equal.
pub open spec fn value_key(c: Chromosome) -> (Seq<u64>, Option<i64>, usize, u32) {
    (c.genes@, c.fitness, c.size, c.age)
}

/// How many pairwise-distinct chromosome values the sequence holds.
pub open spec fn distinct_values(p: Seq<Chromosome>) -> nat {
    p.map_values(|c: Chromosome| value_key(c)).to_set().len()
}

/// The outcome of one two-way tournament: a chromosome of the population
/// that, in a population of two or more, scored at least one rival.
pub open spec fn tournament_pick(population: Seq<Chromosome>, c: Chromosome) -> bool {
    exists|i: int|
        0 <= i < population.len() && c.same_value(&population[i]) && (population.len() >= 2
            ==> exists|l: int| 0 <= l < population.len() && l != i && fit(#[trigger] population[i])
            >= fit(population[l]))
}

/// Draw two distinct positions of `0..len` uniformly at random.
fn two_distinct(len: usize) -> (r: (usize, usize))
    requires
        len >= 2,
    ensures
        r.0 < len,
        r.1 < len,
        r.0 != r.1,
{
    let first = rand_below(len as u128) as usize;
    let second_raw = rand_below((len - 1) as u128) as usize;
    let second = if second_raw >= first {
        second_raw + 1
    } else {
        second_raw
    };
    (first, second)
}

/// Run one two-way tournament: draw two distinct contestants and keep the one
/// with the higher fitness, preferring the first on a tie.  A population of
/// one has its only member win.
fn tournament_winner(population: &Vec<Chromosome>) -> (w: usize)
    requires
        all_evaluated(population@),
        population@.len() >= 1,
    ensures
        w < population@.len(),
        tournament_pick(population@, population@[w as int]),
{
    let len = population.len();
    if len == 1 {
        return 0;
    }
    let (a, b) = two_distinct(len);
    if population[a].get_fitness() >= population[b].get_fitness() {
        a
    } else {
        b
    }
}

/// Tournament selection with duplicates: `n` independent two-way tournaments,
/// so the same chromosome may be selected several times.
#[derive(Default, Debug, Clone, Copy)]
pub struct TournamentWithDuplicates {

}

impl SelectionStrategy for TournamentWithDuplicates {
    open spec fn sel_req(&self, population: Seq<Chromosome>, n: nat) -> bool {
        all_evaluated(population) && population.len() >= 1
    }

    /// Always succeeds with `n` tournament winners.
    open spec fn sel_ens(
        &self,
        population: Seq<Chromosome>,
        n: nat,
        r: Result<Vec<Chromosome>, SelectionError>,
    ) -> bool {
        &&& r is Ok
        &&& r.unwrap()@.len() == n
        &&& forall|k: int| 0 <= k < n ==> tournament_pick(population, #[trigger] r.unwrap()@[k])
    }

    fn select(&self, population: &Vec<Chromosome>, n: usize) -> (r: Result<
        Vec<Chromosome>,
        SelectionError,
    >) {
        let mut out: Vec<Chromosome> = Vec::new();
        let mut k: usize = 0;
        while k < n
            invariant
                all_evaluated(population@),
                population@.len() >= 1,
                k <= n,
                out@.len() == k,
                forall|j: int| 0 <= j < k ==> tournament_pick(population@, #[trigger] out@[j]),
            decreases n - k,
        {
            let w = tournament_winner(population);
            out.push(population[w].clone());
            k = k + 1;
        }
        Ok(out)
    }
}

/// Tournament selection without duplicates: winners are gathered into a set,
/// deduplicated by full value, until `n` distinct ones are found — or until
/// the attempt cap is hit, which reports `Exhausted` rather than looping
/// forever on a population with too little diversity.
#[derive(Default, Debug, Clone, Copy)]
pub struct TournamentWithoutDuplicates {

}

impl SelectionStrategy for TournamentWithoutDuplicates {
    open spec fn sel_req(&self, population: Seq<Chromosome>, n: nat) -> bool {
        all_evaluated(population) && population.len() >= 1
    }

    /// On success: `n` tournament winners, no two equal by value.  A
    /// population with fewer than `n` distinct values can never succeed, and
    /// asking for no winners at all always does.
    open spec fn sel_ens(
        &self,
        population: Seq<Chromosome>,
        n: nat,
        r: Result<Vec<Chromosome>, SelectionError>,
    ) -> bool {
        &&& (r is Err ==> r == Err::<Vec<Chromosome>, SelectionError>(SelectionError::Exhausted))
        &&& (distinct_values(population) < n ==> r is Err)
        &&& (n == 0 ==> r is Ok)
        &&& (r is Ok ==> {
            &&& r.unwrap()@.len() == n
            &&& forall|k: int| 0 <= k < n ==> tournament_pick(population, #[trigger] r.unwrap()@[k])
            &&& forall|k1: int, k2: int|
                #![trigger r.unwrap()@[k1], r.unwrap()@[k2]]
                0 <= k1 < n && 0 <= k2 < n && k1 != k2 ==> !r.unwrap()@[k1].same_value(
                    &r.unwrap()@[k2],
                )
        })
    }

    fn select(&self, population: &Vec<Chromosome>, n: usize) -> (r: Result<
        Vec<Chromosome>,
        SelectionError,
    >) {
        let mut out: Vec<Chromosome> = Vec::new();
        let mut attempts: u64 = 0;
        while out.len() < n
            invariant
                all_evaluated(population@),
                population@.len() >= 1,
                attempts <= TOURNAMENT_ATTEMPT_CAP,
                out@.len() <= n,
                forall|j: int| 0 <= j < out@.len() ==> tournament_pick(population@, #[trigger] out@[j]),
                forall|k1: int, k2: int|
                    #![trigger out@[k1], out@[k2]]
                    0 <= k1 < out@.len() && 0 <= k2 < out@.len() && k1 != k2
                        ==> !out@[k1].same_value(&out@[k2]),
            decreases TOURNAMENT_ATTEMPT_CAP - attempts,
        {
            if attempts >= TOURNAMENT_ATTEMPT_CAP {
                return Err(SelectionError::Exhausted);
            }
            attempts = attempts + 1;
            let w = tournament_winner(population);
            let winner = population[w].clone();
            if !contains_value(&out, &winner) {
                out.push(winner);
            }
        }
        proof {
            lemma_distinct_members_bound(out@, population@);
        }
        Ok(out)
    }
}

/// A sequence of pairwise-distinct tournament winners of `p` is no longer
/// than the number of distinct values in `p`.
proof fn lemma_distinct_members_bound(out: Seq<Chromosome>, p: Seq<Chromosome>)
    requires
        forall|k1: int, k2: int|
            #![trigger out[k1], out[k2]]
            0 <= k1 < out.len() && 0 <= k2 < out.len() && k1 != k2
                ==> !out[k1].same_value(&out[k2]),
        forall|k: int| 0 <= k < out.len() ==> tournament_pick(p, #[trigger] out[k]),
    ensures
        out.len() <= distinct_values(p),
{
    broadcast use vstd::seq_lib::seq_to_set_is_finite;

    let keyf = |c: Chromosome| value_key(c);
    let out_keys = out.map_values(keyf);
    let p_keys = p.map_values(keyf);
    assert(out_keys.no_duplicates()) by {
        assert forall|k1: int, k2: int|
            0 <= k1 < out_keys.len() && 0 <= k2 < out_keys.len() && k1 != k2 implies out_keys[k1]
            != out_keys[k2] by {
            assert(!out[k1].same_value(&out[k2]));
        }
    }
    assert(out_keys.to_set().subset_of(p_keys.to_set())) by {
        assert forall|key: (Seq<u64>, Option<i64>, usize, u32)|
            out_keys.to_set().contains(key) implies p_keys.to_set().contains(key) by {
            let k = choose|k: int| 0 <= k < out_keys.len() && out_keys[k] == key;
            assert(tournament_pick(p, out[k]));
            let i = choose|i: int|
                0 <= i < p.len() && out[k].same_value(&p[i]) && (p.len() >= 2 ==> exists|l: int|
                    0 <= l < p.len() && l != i && fit(#[trigger] p[i]) >= fit(p[l]));
            assert(out[k].same_value(&p[i]));
            assert(p_keys[i] == key);
        }
    }
    out_keys.unique_seq_to_set();
    vstd::set_lib::lemma_len_subset(out_keys.to_set(), p_keys.to_set());
}

} // verus!
