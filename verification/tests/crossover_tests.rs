use genetic_algorithm::chromosome::Chromosome;
use genetic_algorithm::crossover::order_one::OrderOne;
use genetic_algorithm::crossover::single_point::SinglePoint;
use genetic_algorithm::crossover::uniform::Uniform;
use genetic_algorithm::crossover::CrossoverStrategy;

fn sorted_copy(genes: &[u64]) -> Vec<u64> {
    let mut s = genes.to_vec();
    s.sort();
    s
}

#[test]
fn single_point_preserves_length_and_recombines() {
    let father_genes: Vec<u64> = vec![1, 1, 1, 1, 1, 1];
    let mother_genes: Vec<u64> = vec![2, 2, 2, 2, 2, 2];
    for _ in 0..50 {
        let father = Chromosome::new(father_genes.clone());
        let mother = Chromosome::new(mother_genes.clone());
        let (c1, c2) = SinglePoint {}.crossover(father, mother);
        assert_eq!(c1.genes.len(), 6);
        assert_eq!(c2.genes.len(), 6);
        assert!(c1.age == 0 && c2.age == 0);
        // For some cut, the first child is father-genes then mother-genes,
        // and the second child is the complementary split.
        let cut = c1.genes.iter().take_while(|g| **g == 1).count();
        assert!(c1.genes[..cut].iter().all(|g| *g == 1));
        assert!(c1.genes[cut..].iter().all(|g| *g == 2));
        assert!(c2.genes[..cut].iter().all(|g| *g == 2));
        assert!(c2.genes[cut..].iter().all(|g| *g == 1));
    }
}

#[test]
fn uniform_keeps_or_swaps_each_position_pairwise() {
    let father_genes: Vec<u64> = vec![10, 20, 30, 40, 50];
    let mother_genes: Vec<u64> = vec![11, 21, 31, 41, 51];
    for _ in 0..50 {
        let father = Chromosome::new(father_genes.clone());
        let mother = Chromosome::new(mother_genes.clone());
        let (c1, c2) = Uniform::new(300).crossover(father, mother);
        assert_eq!(c1.genes.len(), 5);
        assert_eq!(c2.genes.len(), 5);
        for i in 0..5 {
            let kept = c1.genes[i] == father_genes[i] && c2.genes[i] == mother_genes[i];
            let swapped = c1.genes[i] == mother_genes[i] && c2.genes[i] == father_genes[i];
            assert!(kept || swapped);
        }
    }
}

#[test]
fn order_one_children_are_permutations() {
    let father_genes: Vec<u64> = vec![0, 1, 2, 3, 4, 5];
    let mother_genes: Vec<u64> = vec![5, 3, 1, 0, 2, 4];
    let expected = sorted_copy(&father_genes);
    for _ in 0..200 {
        let father = Chromosome::new(father_genes.clone());
        let mother = Chromosome::new(mother_genes.clone());
        let (c1, c2) = OrderOne {}.crossover(father, mother);
        assert_eq!(c1.genes.len(), 6);
        assert_eq!(c2.genes.len(), 6);
        assert_eq!(sorted_copy(&c1.genes), expected);
        assert_eq!(sorted_copy(&c2.genes), expected);
    }
}

#[test]
fn order_one_on_single_allele_genomes_returns_the_allele() {
    let father = Chromosome::new(vec![42]);
    let mother = Chromosome::new(vec![42]);
    let (c1, c2) = OrderOne {}.crossover(father, mother);
    assert_eq!(c1.genes, vec![42]);
    assert_eq!(c2.genes, vec![42]);
}

#[test]
fn uniform_at_full_rate_keeps_every_position() {
    let father = Chromosome::new(vec![1, 2, 3]);
    let mother = Chromosome::new(vec![7, 8, 9]);
    let (c1, c2) = Uniform::new(1000).crossover(father, mother);
    assert_eq!(c1.genes, vec![1, 2, 3]);
    assert_eq!(c2.genes, vec![7, 8, 9]);
}

#[test]
fn uniform_at_zero_rate_swaps_every_position() {
    let father = Chromosome::new(vec![1, 2, 3]);
    let mother = Chromosome::new(vec![7, 8, 9]);
    let (c1, c2) = Uniform::new(0).crossover(father, mother);
    assert_eq!(c1.genes, vec![7, 8, 9]);
    assert_eq!(c2.genes, vec![1, 2, 3]);
}
