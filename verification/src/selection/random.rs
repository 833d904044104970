use crate::chromosome::Chromosome;
use crate::rng::shuffle_vec;
use crate::selection::{SelectionError, SelectionStrategy};
use vstd::prelude::*;

verus! {

/// Random selection: `n` chromosomes drawn uniformly, without replacement.
#[derive(Default, Debug, Clone, Copy)]
pub struct RandomSelection {

}

impl SelectionStrategy for RandomSelection {
    open spec fn sel_req(&self, population: Seq<Chromosome>, n: nat) -> bool {
        n <= population.len()
    }

    /// Always succeeds with `n` chromosomes read off `n` distinct positions of
    /// the population, in some order.
    open spec fn sel_ens(
        &self,
        population: Seq<Chromosome>,
        n: nat,
        r: Result<Vec<Chromosome>, SelectionError>,
    ) -> bool {
        &&& r is Ok
        &&& r.unwrap()@.len() == n
        &&& exists|idx: Seq<int>|
            {
                &&& idx.len() == n
                &&& idx.no_duplicates()
                &&& forall|k: int|
                    0 <= k < n ==> 0 <= #[trigger] idx[k] < population.len()
                        && r.unwrap()@[k].same_value(&population[idx[k]])
            }
    }

    fn select(&self, population: &Vec<Chromosome>, n: usize) -> (r: Result<
        Vec<Chromosome>,
        SelectionError,
    >) {
        let len = population.len();
        let mut indices: Vec<usize> = Vec::new();
        let mut i: usize = 0;
        while i < len
            invariant
                i <= len,
                indices@.len() == i,
                forall|k: int| 0 <= k < i ==> #[trigger] indices@[k] == k,
            decreases len - i,
        {
            indices.push(i);
            i = i + 1;
        }
        let ghost ordered = indices@;
        shuffle_vec(&mut indices);
        proof {
            lemma_permuted_distinct_bounded(ordered, indices@, len as nat);
        }
        let mut out: Vec<Chromosome> = Vec::new();
        let mut k: usize = 0;
        while k < n
            invariant
                k <= n,
                n <= population@.len(),
                out@.len() == k,
                indices@.len() == population@.len(),
                indices@.no_duplicates(),
                forall|j: int| 0 <= j < indices@.len() ==> #[trigger] indices@[j] < population@.len(),
                forall|j: int|
                    0 <= j < k ==> (#[trigger] out@[j]).same_value(&population@[indices@[j] as int]),
            decreases n - k,
        {
            let pick = indices[k];
            out.push(population[pick].clone());
            k = k + 1;
        }
        proof {
            let widx = Seq::new(n as nat, |j: int| indices@[j] as int);
            assert(widx.no_duplicates()) by {
                assert forall|j1: int, j2: int|
                    0 <= j1 < widx.len() && 0 <= j2 < widx.len() && j1 != j2 implies widx[j1]
                    != widx[j2] by {
                    assert(indices@[j1] != indices@[j2]);
                }
            }
            assert(self.sel_ens(population@, n as nat, Ok(out)));
        }
        Ok(out)
    }
}

/// A sequence of index values `0, 1, ..., len - 1` stays duplicate-free and
/// bounded below `len` under any rearrangement that keeps its multiset.
proof fn lemma_permuted_distinct_bounded(ordered: Seq<usize>, shuffled: Seq<usize>, len: nat)
    requires
        ordered.len() == len,
        forall|k: int| 0 <= k < len ==> #[trigger] ordered[k] == k,
        shuffled.to_multiset() == ordered.to_multiset(),
        shuffled.len() == ordered.len(),
    ensures
        shuffled.len() == len,
        shuffled.no_duplicates(),
        forall|k: int| 0 <= k < len ==> #[trigger] shuffled[k] < len,
{
    broadcast use vstd::seq_lib::group_to_multiset_ensures;

    assert(ordered.no_duplicates());
    ordered.lemma_multiset_has_no_duplicates();
    shuffled.lemma_multiset_has_no_duplicates_conv();
    assert forall|k: int| 0 <= k < len implies #[trigger] shuffled[k] < len by {
        let x = shuffled[k];
        assert(shuffled.contains(x));
        assert(shuffled.to_multiset().count(x) > 0);
        assert(ordered.contains(x));
        let j = choose|j: int| 0 <= j < ordered.len() && ordered[j] == x;
        assert(x == j);
    }
}

} // verus!
