use crate::chromosome::Chromosome;
use crate::selection::{SelectionError, SelectionStrategy};
use vstd::prelude::*;

verus! {

/// Elitism: keep the first `n` of the already fitness-sorted population.
#[derive(Default, Debug, Clone, Copy)]
pub struct ElitistSelection {

}

impl SelectionStrategy for ElitistSelection {
    open spec fn sel_req(&self, population: Seq<Chromosome>, n: nat) -> bool {
        true
    }

    /// Deterministic: exactly the first `min(n, len)` elements, in order.
    open spec fn sel_ens(
        &self,
        population: Seq<Chromosome>,
        n: nat,
        r: Result<Vec<Chromosome>, SelectionError>,
    ) -> bool {
        &&& r is Ok
        &&& r.unwrap()@.len() == if n <= population.len() {
            n as int
        } else {
            population.len() as int
        }
        &&& forall|k: int|
            0 <= k < r.unwrap()@.len() ==> (#[trigger] r.unwrap()@[k]).same_value(&population[k])
    }

    fn select(&self, population: &Vec<Chromosome>, n: usize) -> (r: Result<
        Vec<Chromosome>,
        SelectionError,
    >) {
        let limit = if n <= population.len() {
            n
        } else {
            population.len()
        };
        let mut out: Vec<Chromosome> = Vec::new();
        let mut i: usize = 0;
        while i < limit
            invariant
                i <= limit,
                limit <= population@.len(),
                out@.len() == i,
                forall|k: int|
                    0 <= k < i ==> (#[trigger] out@[k]).same_value(&population@[k]),
            decreases limit - i,
        {
            out.push(population[i].clone());
            i = i + 1;
        }
        Ok(out)
    }
}

} // verus!
