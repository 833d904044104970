use crate::chromosome::Chromosome;
use vstd::prelude::*;

pub mod elitism;
pub mod random;
pub mod roulette;
pub mod tournament;

verus! {

/// The interchangeable selection policies the engine can be configured with.
#[derive(Copy, Clone, Eq, PartialEq, Structural, Debug)]
pub enum Selection {
    TournamentWithDuplicates,
    TournamentWithoutDuplicates,
    Roulette,
    Elitism,
    Random,
}

/// Why a selection pass could not produce its parents.
#[derive(Copy, Clone, Eq, PartialEq, Structural, Debug)]
pub enum SelectionError {
    /// Roulette selection needs every fitness non-negative and their sum
    /// positive; this population offers no valid probability weights.
    InvalidWeights,
    /// Tournament selection without duplicates gave up before gathering the
    /// requested number of distinct winners.
    Exhausted,
}

/// Every chromosome of the sequence keeps its size/genes agreement.
pub open spec fn all_wf(p: Seq<Chromosome>) -> bool {
    forall|i: int| 0 <= i < p.len() ==> (#[trigger] p[i]).wf()
}

/// Every chromosome of the sequence carries a cached fitness.
pub open spec fn all_evaluated(p: Seq<Chromosome>) -> bool {
    forall|i: int| 0 <= i < p.len() ==> (#[trigger] p[i]).fitness is Some
}

/// `c` is, by value, a member of `p`.
pub open spec fn appears_in(c: Chromosome, p: Seq<Chromosome>) -> bool {
    exists|i: int| 0 <= i < p.len() && c.same_value(&p[i])
}

/// Every element of `v` is, by value, a member of `p`.
pub open spec fn drawn_from(v: Seq<Chromosome>, p: Seq<Chromosome>) -> bool {
    forall|k: int| 0 <= k < v.len() ==> appears_in(#[trigger] v[k], p)
}

/// A selection strategy chooses which chromosomes become parents.
///
/// Each policy pins its own behaviour down through the two specification
/// functions: `sel_req` is what it asks of the caller, `sel_ens` what it
/// promises of its result.  The engine hands every strategy an evaluated,
/// non-empty population and asks for at most its whole length.
pub trait SelectionStrategy: Sized {
    /// What this policy requires of the population and the requested count.
    spec fn sel_req(&self, population: Seq<Chromosome>, n: nat) -> bool;

    /// What this policy guarantees of its selection result.
    spec fn sel_ens(
        &self,
        population: Seq<Chromosome>,
        n: nat,
        r: Result<Vec<Chromosome>, SelectionError>,
    ) -> bool;

    /// Choose `n` chromosomes from the population.
    fn select(&self, population: &Vec<Chromosome>, n: usize) -> (r: Result<
        Vec<Chromosome>,
        SelectionError,
    >)
        requires
            self.sel_req(population@, n as nat),
        ensures
            self.sel_ens(population@, n as nat, r),
    ;
}

} // verus!
