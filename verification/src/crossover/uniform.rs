use crate::chromosome::Chromosome;
use crate::crossover::{fresh_child, CrossoverStrategy};
use crate::rng::rand_below;
use vstd::prelude::*;

verus! {

/// Uniform crossover: for each gene position independently, the children keep
/// the (father, mother) allele pair with probability `crossover_rate`
/// thousandths, and swap it to (mother, father) otherwise.
#[derive(Clone, Copy, Debug)]
pub struct Uniform {
    pub crossover_rate: u32,
}

impl Uniform {
    /// A uniform crossover with the given keep probability, in thousandths.
    pub fn new(crossover_rate: u32) -> (r: Uniform)
        requires
            crossover_rate <= 1000,
        ensures
            r.crossover_rate == crossover_rate,
    {
        Uniform { crossover_rate }
    }
}

impl CrossoverStrategy for Uniform {
    open spec fn cx_req(&self, father: Chromosome, mother: Chromosome) -> bool {
        &&& father.wf()
        &&& mother.wf()
        &&& father.genes@.len() == mother.genes@.len()
    }

    /// Both children keep the parents' genome length, and at every position
    /// the pair of child alleles is the pair of parent alleles, either kept
    /// or swapped.
    open spec fn cx_ens(&self, father: Chromosome, mother: Chromosome, r: (
        Chromosome,
        Chromosome,
    )) -> bool {
        &&& fresh_child(r.0)
        &&& fresh_child(r.1)
        &&& r.0.genes@.len() == father.genes@.len()
        &&& r.1.genes@.len() == father.genes@.len()
        &&& forall|i: int|
            #![trigger r.0.genes@[i]]
            #![trigger r.1.genes@[i]]
            0 <= i < father.genes@.len() ==> (r.0.genes@[i] == father.genes@[i] && r.1.genes@[i]
                == mother.genes@[i]) || (r.0.genes@[i] == mother.genes@[i] && r.1.genes@[i]
                == father.genes@[i])
    }

    fn crossover(&self, father: Chromosome, mother: Chromosome) -> (r: (Chromosome, Chromosome)) {
        let len = father.genes.len();
        let mut first: Vec<u64> = Vec::new();
        let mut second: Vec<u64> = Vec::new();
        let mut i: usize = 0;
        while i < len
            invariant
                i <= len,
                len == father.genes@.len(),
                len == mother.genes@.len(),
                first@.len() == i,
                second@.len() == i,
                forall|k: int|
                    #![trigger first@[k]]
                    #![trigger second@[k]]
                    0 <= k < i ==> (first@[k] == father.genes@[k] && second@[k]
                        == mother.genes@[k]) || (first@[k] == mother.genes@[k] && second@[k]
                        == father.genes@[k]),
            decreases len - i,
        {
            let keep = rand_below(1000) < self.crossover_rate as u128;
            if keep {
                first.push(father.genes[i]);
                second.push(mother.genes[i]);
            } else {
                first.push(mother.genes[i]);
                second.push(father.genes[i]);
            }
            i = i + 1;
        }
        (Chromosome::new(first), Chromosome::new(second))
    }
}

} // verus!
