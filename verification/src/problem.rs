use crate::chromosome::Chromosome;
use crate::genetic::sorted_desc;
use vstd::prelude::*;

verus! {

/// The engine's only boundary: a user-supplied optimization problem.
///
/// An implementor fixes a genome length for the whole run, provides a fitness
/// function that is a pure function of the genes, a generator of random valid
/// genomes, and a termination predicate.  The two specification functions pin
/// those obligations down: `genotype` must always produce `genome_len` genes,
/// and `fitness` must return exactly `fitness_spec` of the genes — the same
/// genes always score the same.
pub trait Problem: Sized {
    /// The genome length every chromosome of a run shares.  The default
    /// leaves the length unspecified; a verified implementation overrides it
    /// with its actual length.
    open spec fn genome_len(&self) -> nat {
        arbitrary()
    }

    /// The score of a genome: `fitness` computes exactly this.  The default
    /// leaves the score unspecified; a verified implementation overrides it
    /// with its actual scoring function.
    open spec fn fitness_spec(&self, genes: Seq<u64>) -> i64 {
        arbitrary()
    }

    /// Score one chromosome.  The result depends on the genes alone.
    fn fitness(&self, chromosome: &Chromosome) -> (r: i64)
        requires
            chromosome.wf(),
            chromosome.genes@.len() == self.genome_len(),
        ensures
            r == self.fitness_spec(chromosome.genes@),
    ;

    /// Decide whether the run is over.  The population arrives evaluated and
    /// sorted by non-increasing fitness, so its first element is the current
    /// best; `temperature` is the smoothed rate-of-improvement signal.
    fn terminate(&self, population: &Vec<Chromosome>, generation: u64, temperature: i64) -> bool
        requires
            population@.len() >= 1,
            forall|i: int| 0 <= i < population@.len() ==> (#[trigger] population@[i]).wf(),
            forall|i: int|
                0 <= i < population@.len() ==> (#[trigger] population@[i]).fitness is Some,
            sorted_desc(population@),
    ;

    /// Produce one random valid genome, always of the fixed length.
    fn genotype(&self) -> (r: Vec<u64>)
        ensures
            r@.len() == self.genome_len(),
    ;
}

} // verus!
