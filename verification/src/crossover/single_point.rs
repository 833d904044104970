use crate::chromosome::Chromosome;
use crate::crossover::{fresh_child, CrossoverStrategy};
use crate::rng::rand_below;
use vstd::prelude::*;

verus! {

/// Single-point crossover: one random cut index splits both parents, and the
/// children swap tails across the cut.
#[derive(Clone, Copy, Default, Debug)]
pub struct SinglePoint {

}

impl CrossoverStrategy for SinglePoint {
    open spec fn cx_req(&self, father: Chromosome, mother: Chromosome) -> bool {
        &&& father.wf()
        &&& mother.wf()
        &&& father.genes@.len() == mother.genes@.len()
        &&& father.genes@.len() >= 1
    }

    /// For some cut below the genome length, the first child is the father's
    /// genes before the cut followed by the mother's from the cut on, and the
    /// second child is the symmetric construction; both children keep the
    /// parents' genome length.
    open spec fn cx_ens(&self, father: Chromosome, mother: Chromosome, r: (
        Chromosome,
        Chromosome,
    )) -> bool {
        &&& fresh_child(r.0)
        &&& fresh_child(r.1)
        &&& r.0.genes@.len() == father.genes@.len()
        &&& r.1.genes@.len() == father.genes@.len()
        &&& exists|cut: int|
            0 <= cut < father.genes@.len() && r.0.genes@ == father.genes@.take(cut)
                + mother.genes@.skip(cut) && r.1.genes@ == mother.genes@.take(cut)
                + father.genes@.skip(cut)
    }

    fn crossover(&self, father: Chromosome, mother: Chromosome) -> (r: (Chromosome, Chromosome)) {
        let mut father_genes = father.genes;
        let mut mother_genes = mother.genes;
        let ghost fg = father_genes@;
        let ghost mg = mother_genes@;
        let cut = rand_below(father_genes.len() as u128) as usize;
        let mut father_split = father_genes.split_off(cut);
        let mut mother_split = mother_genes.split_off(cut);
        father_genes.append(&mut mother_split);
        mother_genes.append(&mut father_split);
        proof {
            assert(father_genes@ =~= fg.take(cut as int) + mg.skip(cut as int));
            assert(mother_genes@ =~= mg.take(cut as int) + fg.skip(cut as int));
        }
        (Chromosome::new(father_genes), Chromosome::new(mother_genes))
    }
}

} // verus!
