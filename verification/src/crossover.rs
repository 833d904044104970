use crate::chromosome::Chromosome;
use vstd::prelude::*;

pub mod order_one;
pub mod single_point;
pub mod uniform;

verus! {

/// The interchangeable crossover policies.  The uniform policy carries its
/// swap-keeping probability in thousandths.
#[derive(Copy, Clone, Eq, PartialEq, Structural, Debug)]
pub enum Crossover {
    OrderOne,
    SinglePoint,
    Uniform(u32),
}

/// A crossover strategy combines two parent gene sequences into two children.
///
/// Each policy pins its own behaviour down through the two specification
/// functions: `cx_req` is what it asks of the parents, `cx_ens` what it
/// promises of the pair of children.
pub trait CrossoverStrategy: Sized {
    /// What this policy requires of the two parents.
    spec fn cx_req(&self, father: Chromosome, mother: Chromosome) -> bool;

    /// What this policy guarantees of the two children.
    spec fn cx_ens(&self, father: Chromosome, mother: Chromosome, r: (
        Chromosome,
        Chromosome,
    )) -> bool;

    /// Combine the two parents into two fresh children.
    fn crossover(&self, father: Chromosome, mother: Chromosome) -> (r: (Chromosome, Chromosome))
        requires
            self.cx_req(father, mother),
        ensures
            self.cx_ens(father, mother, r),
    ;
}

/// A chromosome fresh out of crossover: well-formed, fitness not yet
/// evaluated, age zero.
pub open spec fn fresh_child(c: Chromosome) -> bool {
    c.wf() && c.fitness is None && c.age == 0
}

} // verus!
