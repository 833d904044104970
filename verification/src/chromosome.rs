use vstd::prelude::*;

verus! {

/// One candidate solution: a genome of integer-encoded alleles together with a
/// cached fitness score and the number of evaluation passes it has survived.
///
/// Alleles are `u64` values; a problem encodes whatever it optimises over
/// (bits, permutation entries, category indices) into that space.  The cached
/// fitness starts unset and is filled in by the engine's evaluation pass.
#[derive(Debug, Hash)]
pub struct Chromosome {
    pub genes: Vec<u64>,
    pub fitness: Option<i64>,
    pub size: usize,
    pub age: u32,
}

impl Chromosome {
    /// The recorded size agrees with the gene count.
    pub open spec fn wf(&self) -> bool {
        self.size == self.genes@.len()
    }

    /// Equality of observable content: genome, cached fitness, recorded size
    /// and age all agree.  This is what "deduplicated by value" means
    /// throughout the engine, and what `==` computes.
    pub open spec fn same_value(&self, other: &Chromosome) -> bool {
        &&& self.genes@ == other.genes@
        &&& self.fitness == other.fitness
        &&& self.size == other.size
        &&& self.age == other.age
    }

    /// Wrap a fresh genome: fitness unset, age zero.
    pub fn new(genes: Vec<u64>) -> (r: Chromosome)
        ensures
            r.wf(),
            r.genes == genes,
            r.fitness is None,
            r.age == 0,
    {
        let size = genes.len();
        Chromosome { size, fitness: None, age: 0, genes }
    }

    /// Read the cached fitness.  Reading before the evaluation pass has set it
    /// is a programming error, so an unset fitness is ruled out up front.
    pub fn get_fitness(&self) -> (r: i64)
        requires
            self.fitness is Some,
        ensures
            r == self.fitness.unwrap(),
    {
        self.fitness.unwrap()
    }

    /// Cache a fitness score; the genome, size and age are untouched.
    pub fn set_fitness(&mut self, fitness: i64)
        ensures
            final(self).fitness == Some(fitness),
            final(self).genes == old(self).genes,
            final(self).size == old(self).size,
            final(self).age == old(self).age,
    {
        self.fitness = Some(fitness);
    }

    /// The genome length this chromosome was constructed with.
    pub fn get_size(&self) -> (r: usize)
        ensures
            r == self.size,
    {
        self.size
    }
}

impl Clone for Chromosome {
    /// A clone carries the same observable content as the original.
    fn clone(&self) -> (r: Chromosome)
        ensures
            r.same_value(self),
    {
        Chromosome {
            genes: clone_genes(&self.genes),
            fitness: self.fitness,
            size: self.size,
            age: self.age,
        }
    }
}

/// Copy a genome element by element.
fn clone_genes(genes: &Vec<u64>) -> (r: Vec<u64>)
    ensures
        r@ == genes@,
{
    let mut r: Vec<u64> = Vec::new();
    let mut i: usize = 0;
    while i < genes.len()
        invariant
            i <= genes@.len(),
            r@ =~= genes@.take(i as int),
        decreases genes@.len() - i,
    {
        r.push(genes[i]);
        i = i + 1;
    }
    assert(r@ =~= genes@);
    r
}

impl PartialEq for Chromosome {
    /// `==` decides `same_value`.
    fn eq(&self, other: &Chromosome) -> (r: bool) {
        let genes_eq = eq_genes(&self.genes, &other.genes);
        let fitness_eq = match (self.fitness, other.fitness) {
            (None, None) => true,
            (Some(a), Some(b)) => a == b,
            _ => false,
        };
        genes_eq && fitness_eq && self.size == other.size && self.age == other.age
    }
}

impl vstd::std_specs::cmp::PartialEqSpecImpl for Chromosome {
    open spec fn obeys_eq_spec() -> bool {
        true
    }

    open spec fn eq_spec(&self, other: &Chromosome) -> bool {
        self.same_value(other)
    }
}

impl Eq for Chromosome {

}

/// Whether some element of `v` equals `c` by value.
pub fn contains_value(v: &Vec<Chromosome>, c: &Chromosome) -> (r: bool)
    ensures
        r == exists|i: int| 0 <= i < v@.len() && (#[trigger] v@[i]).same_value(c),
{
    let mut i: usize = 0;
    while i < v.len()
        invariant
            i <= v@.len(),
            forall|k: int| 0 <= k < i ==> !(#[trigger] v@[k]).same_value(c),
        decreases v@.len() - i,
    {
        if v[i] == *c {
            return true;
        }
        i = i + 1;
    }
    false
}

/// Compare two genomes element by element.
fn eq_genes(a: &Vec<u64>, b: &Vec<u64>) -> (r: bool)
    ensures
        r == (a@ == b@),
{
    if a.len() != b.len() {
        assert(a@ != b@) by {
            assert(a@.len() != b@.len());
        }
        return false;
    }
    let mut i: usize = 0;
    while i < a.len()
        invariant
            i <= a@.len(),
            a@.len() == b@.len(),
            forall|k: int| 0 <= k < i ==> a@[k] == b@[k],
        decreases a@.len() - i,
    {
        if a[i] != b[i] {
            return false;
        }
        i = i + 1;
    }
    assert(a@ =~= b@);
    true
}

} // verus!
