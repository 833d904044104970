use crate::chromosome::Chromosome;
use crate::crossover::{fresh_child, CrossoverStrategy};
use crate::rng::rand_below;
use vstd::prelude::*;

verus! {

/// Holds of an allele that does not occur in `keeper`'s segment `[lo, hi)`.
pub open spec fn not_in_segment(keeper: Seq<u64>, lo: int, hi: int) -> spec_fn(u64) -> bool {
    |g: u64| !keeper.subrange(lo, hi).contains(g)
}

/// The alleles `donor` contributes to a child keeping `keeper`'s segment
/// `[lo, hi)`: `donor`'s alleles outside that segment, in `donor`'s order.
pub open spec fn order_one_filler(keeper: Seq<u64>, donor: Seq<u64>, lo: int, hi: int) -> Seq<
    u64,
> {
    donor.filter(not_in_segment(keeper, lo, hi))
}

/// The order-one construction of one child: `keeper`'s segment `[lo, hi)`
/// stays in place, and the positions before and after it are filled, in
/// original relative order, with `donor`'s alleles that are not in the
/// segment.
pub open spec fn order_one_child(
    keeper: Seq<u64>,
    donor: Seq<u64>,
    lo: int,
    hi: int,
    child: Seq<u64>,
) -> bool {
    let filler = order_one_filler(keeper, donor, lo, hi);
    child == filler.take(lo) + keeper.subrange(lo, hi) + filler.skip(lo)
}

/// Order-one crossover for permutation genomes: a random segment of one
/// parent is kept verbatim and the rest is filled from the other parent, so
/// each child is again a permutation of its parents' alleles.
#[derive(Clone, Copy, Default, Debug)]
pub struct OrderOne {

}

impl CrossoverStrategy for OrderOne {
    /// Both parents are permutations of one shared set of distinct alleles.
    open spec fn cx_req(&self, father: Chromosome, mother: Chromosome) -> bool {
        &&& father.wf()
        &&& mother.wf()
        &&& father.genes@.len() >= 1
        &&& father.genes@.no_duplicates()
        &&& mother.genes@.no_duplicates()
        &&& father.genes@.to_multiset() == mother.genes@.to_multiset()
    }

    /// For one random segment, the first child keeps the father's segment and
    /// is filled from the mother, the second is the symmetric construction —
    /// and both children are again duplicate-free permutations of the
    /// parents' alleles, at the parents' genome length.
    open spec fn cx_ens(&self, father: Chromosome, mother: Chromosome, r: (
        Chromosome,
        Chromosome,
    )) -> bool {
        &&& fresh_child(r.0)
        &&& fresh_child(r.1)
        &&& r.0.genes@.len() == father.genes@.len()
        &&& r.1.genes@.len() == father.genes@.len()
        &&& r.0.genes@.no_duplicates()
        &&& r.1.genes@.no_duplicates()
        &&& r.0.genes@.to_multiset() == father.genes@.to_multiset()
        &&& r.1.genes@.to_multiset() == father.genes@.to_multiset()
        &&& exists|lo: int, hi: int|
            0 <= lo <= hi < father.genes@.len() && order_one_child(
                father.genes@,
                mother.genes@,
                lo,
                hi,
                r.0.genes@,
            ) && order_one_child(mother.genes@, father.genes@, lo, hi, r.1.genes@)
    }

    fn crossover(&self, father: Chromosome, mother: Chromosome) -> (r: (Chromosome, Chromosome)) {
        proof {
            broadcast use vstd::seq_lib::group_to_multiset_ensures;

            assert(father.genes@.len() == father.genes@.to_multiset().len());
            assert(mother.genes@.len() == mother.genes@.to_multiset().len());
        }
        let len = father.genes.len();
        let a = rand_below(len as u128) as usize;
        let b = rand_below(len as u128) as usize;
        let lo = if a <= b {
            a
        } else {
            b
        };
        let hi = if a <= b {
            b
        } else {
            a
        };
        let first = order_one_build(&father.genes, &mother.genes, lo, hi);
        let second = order_one_build(&mother.genes, &father.genes, lo, hi);
        let r = (Chromosome::new(first), Chromosome::new(second));
        proof {
            assert(r.1.genes@.to_multiset() == father.genes@.to_multiset());
            assert(order_one_child(father.genes@, mother.genes@, lo as int, hi as int, r.0.genes@)
                && order_one_child(mother.genes@, father.genes@, lo as int, hi as int, r.1.genes@));
        }
        r
    }
}

/// Whether `g` occurs in `v[lo..hi]`.
fn range_contains(v: &Vec<u64>, lo: usize, hi: usize, g: u64) -> (r: bool)
    requires
        lo <= hi <= v@.len(),
    ensures
        r == v@.subrange(lo as int, hi as int).contains(g),
{
    let ghost seg = v@.subrange(lo as int, hi as int);
    let mut k: usize = lo;
    while k < hi
        invariant
            lo <= k <= hi <= v@.len(),
            seg == v@.subrange(lo as int, hi as int),
            forall|m: int| lo <= m < k ==> v@[m] != g,
        decreases hi - k,
    {
        if v[k] == g {
            assert(seg[k - lo] == g);
            return true;
        }
        k = k + 1;
    }
    assert(!seg.contains(g)) by {
        if seg.contains(g) {
            let q = choose|q: int| 0 <= q < seg.len() && seg[q] == g;
            assert(v@[lo + q] == g);
        }
    }
    false
}

/// Build one order-one child from the keeping parent's genes, the donating
/// parent's genes, and the chosen segment.
fn order_one_build(keeper: &Vec<u64>, donor: &Vec<u64>, lo: usize, hi: usize) -> (child: Vec<u64>)
    requires
        lo <= hi,
        hi < keeper@.len(),
        keeper@.no_duplicates(),
        donor@.no_duplicates(),
        keeper@.to_multiset() == donor@.to_multiset(),
    ensures
        order_one_child(keeper@, donor@, lo as int, hi as int, child@),
        child@.len() == keeper@.len(),
        child@.no_duplicates(),
        child@.to_multiset() == keeper@.to_multiset(),
{
    let ghost seg = keeper@.subrange(lo as int, hi as int);
    let ghost predf = not_in_segment(keeper@, lo as int, hi as int);
    let len = keeper.len();
    proof {
        broadcast use vstd::seq_lib::group_to_multiset_ensures;

        assert(keeper@.len() == keeper@.to_multiset().len());
        assert(donor@.len() == donor@.to_multiset().len());
        assert(donor@.len() == len);
    }
    let mut filler: Vec<u64> = Vec::new();
    let mut j: usize = 0;
    while j < len
        invariant
            j <= len,
            len == keeper@.len(),
            len == donor@.len(),
            lo <= hi < len,
            seg == keeper@.subrange(lo as int, hi as int),
            predf == not_in_segment(keeper@, lo as int, hi as int),
            filler@ == donor@.take(j as int).filter(predf),
        decreases len - j,
    {
        let g = donor[j];
        let in_seg = range_contains(keeper, lo, hi, g);
        proof {
            assert(donor@.take(j + 1) =~= donor@.take(j as int).push(g));
            donor@.take(j as int).lemma_filter_push(g, predf);
        }
        if !in_seg {
            filler.push(g);
        }
        j = j + 1;
    }
    proof {
        assert(donor@.take(len as int) =~= donor@);
        assert(filler@ == order_one_filler(keeper@, donor@, lo as int, hi as int));
    }
    proof {
        broadcast use vstd::seq_lib::group_to_multiset_ensures;
        broadcast use vstd::seq_lib::seq_to_set_is_finite;
        broadcast use vstd::seq_lib::group_filter_ensures;

        lemma_filter_no_dup(donor@, predf);
        assert(seg.no_duplicates()) by {
            assert forall|q1: int, q2: int|
                0 <= q1 < q2 < seg.len() implies seg[q1] != seg[q2] by {
                assert(seg[q1] == keeper@[lo + q1]);
                assert(seg[q2] == keeper@[lo + q2]);
            }
        }
        let cs = filler@.to_set();
        let ss = seg.to_set();
        let ds = donor@.to_set();
        assert forall|x: u64| ss.contains(x) implies ds.contains(x) by {
            let q = choose|q: int| 0 <= q < seg.len() && seg[q] == x;
            assert(keeper@[lo + q] == x);
            assert(keeper@.contains(x));
            assert(keeper@.to_multiset().count(x) > 0);
            assert(donor@.contains(x));
        }
        assert(cs =~= ds.difference(ss)) by {
            assert forall|x: u64| cs.contains(x) implies ds.contains(x) && !ss.contains(x) by {
                assert(filler@.contains(x));
                assert(donor@.contains(x));
                let q = choose|q: int| 0 <= q < filler@.len() && filler@[q] == x;
                assert(predf(filler@[q]));
            }
            assert forall|x: u64| ds.contains(x) && !ss.contains(x) implies cs.contains(x) by {
                let q = choose|q: int| 0 <= q < donor@.len() && donor@[q] == x;
                assert(predf(donor@[q]));
                assert(filler@.contains(donor@[q]));
            }
        }
        filler@.unique_seq_to_set();
        seg.unique_seq_to_set();
        donor@.unique_seq_to_set();
        assert(cs.disjoint(ss));
        assert(cs + ss =~= ds);
        vstd::set_lib::lemma_set_disjoint_lens(cs, ss);
        assert(filler@.len() == len - (hi - lo));
    }
    let filler_len = filler.len();
    let mut child: Vec<u64> = Vec::new();
    let mut k: usize = 0;
    while k < lo
        invariant
            k <= lo,
            lo <= filler@.len(),
            child@ == filler@.take(k as int),
        decreases lo - k,
    {
        child.push(filler[k]);
        proof {
            assert(child@ =~= filler@.take(k + 1));
        }
        k = k + 1;
    }
    let mut k2: usize = lo;
    while k2 < hi
        invariant
            lo <= k2 <= hi < keeper@.len(),
            lo <= filler@.len(),
            child@ == filler@.take(lo as int) + keeper@.subrange(lo as int, k2 as int),
        decreases hi - k2,
    {
        child.push(keeper[k2]);
        proof {
            assert(child@ =~= filler@.take(lo as int) + keeper@.subrange(lo as int, k2 + 1));
        }
        k2 = k2 + 1;
    }
    let mut k3: usize = lo;
    while k3 < filler_len
        invariant
            lo <= k3 <= filler_len,
            filler_len == filler@.len(),
            lo <= hi < keeper@.len(),
            seg == keeper@.subrange(lo as int, hi as int),
            child@ == filler@.take(lo as int) + seg + filler@.subrange(lo as int, k3 as int),
        decreases filler_len - k3,
    {
        child.push(filler[k3]);
        proof {
            assert(child@ =~= filler@.take(lo as int) + seg + filler@.subrange(
                lo as int,
                k3 + 1,
            ));
        }
        k3 = k3 + 1;
    }
    proof {
        broadcast use vstd::seq_lib::group_to_multiset_ensures;
        broadcast use vstd::seq_lib::seq_to_set_is_finite;
        broadcast use vstd::seq_lib::group_filter_ensures;

        assert(child@ =~= filler@.take(lo as int) + seg + filler@.skip(lo as int));
        assert(order_one_child(keeper@, donor@, lo as int, hi as int, child@));
        assert(child@.len() == keeper@.len());
        lemma_filter_no_dup(donor@, predf);
        assert(forall|q: int|
            0 <= q < filler@.len() ==> !seg.contains(#[trigger] filler@[q])) by {
            assert forall|q: int|
                0 <= q < filler@.len() implies !seg.contains(#[trigger] filler@[q]) by {
                assert(predf(filler@[q]));
            }
        }
        lemma_splice_no_dup(filler@, seg, lo as int);
        assert(child@.no_duplicates());
        assert(child@.to_set() =~= keeper@.to_set()) by {
            lemma_splice_members(filler@, seg, lo as int);
            assert forall|x: u64| keeper@.contains(x) implies donor@.contains(x) by {
                assert(keeper@.to_multiset().count(x) > 0);
            }
            assert forall|x: u64| donor@.contains(x) implies keeper@.contains(x) by {
                assert(donor@.to_multiset().count(x) > 0);
            }
            assert forall|x: u64| child@.to_set().contains(x) implies keeper@.to_set().contains(
                x,
            ) by {
                assert(filler@.contains(x) || seg.contains(x));
                if filler@.contains(x) {
                    assert(donor@.contains(x));
                } else {
                    let q = choose|q: int| 0 <= q < seg.len() && seg[q] == x;
                    assert(keeper@[lo + q] == x);
                }
            }
            assert forall|x: u64| keeper@.to_set().contains(x) implies child@.to_set().contains(
                x,
            ) by {
                assert(donor@.contains(x));
                if seg.contains(x) {
                } else {
                    let q = choose|q: int| 0 <= q < donor@.len() && donor@[q] == x;
                    assert(predf(donor@[q]));
                    assert(filler@.contains(x));
                }
            }
        }
        lemma_nodup_same_set_multiset(child@, keeper@);
    }
    child
}

/// A duplicate-free sequence filtered by any predicate stays duplicate-free,
/// and filtering introduces no new elements.
proof fn lemma_filter_no_dup(s: Seq<u64>, pred: spec_fn(u64) -> bool)
    requires
        s.no_duplicates(),
    ensures
        s.filter(pred).no_duplicates(),
        forall|x: u64| #[trigger] s.filter(pred).contains(x) ==> s.contains(x),
    decreases s.len(),
{
    reveal(Seq::filter);
    if s.len() == 0 {
    } else {
        let s0 = s.drop_last();
        let x = s.last();
        assert(s0.no_duplicates()) by {
            assert forall|i: int, j: int|
                0 <= i < j < s0.len() implies s0[i] != s0[j] by {
                assert(s[i] == s0[i] && s[j] == s0[j]);
            }
        }
        lemma_filter_no_dup(s0, pred);
        if pred(x) {
            assert(s.filter(pred) == s0.filter(pred).push(x));
            assert(!s0.filter(pred).contains(x)) by {
                if s0.filter(pred).contains(x) {
                    assert(s0.contains(x));
                    let q = choose|q: int| 0 <= q < s0.len() && s0[q] == x;
                    assert(s[q] == s[s.len() - 1]);
                }
            }
            assert(s.filter(pred).no_duplicates()) by {
                let f0 = s0.filter(pred);
                assert forall|i: int, j: int|
                    0 <= i < j < f0.push(x).len() implies f0.push(x)[i] != f0.push(x)[j] by {
                    if j < f0.len() {
                    } else {
                        assert(f0.push(x)[j] == x);
                        assert(f0.contains(f0[i])) by {
                            assert(f0[i] == f0[i]);
                        }
                    }
                }
            }
        } else {
            assert(s.filter(pred) == s0.filter(pred));
        }
        assert forall|y: u64| #[trigger] s.filter(pred).contains(y) implies s.contains(y) by {
            if s0.filter(pred).contains(y) {
                assert(s0.contains(y));
                let q = choose|q: int| 0 <= q < s0.len() && s0[q] == y;
                assert(s[q] == y);
            } else {
                assert(y == x);
                assert(s[s.len() - 1] == y);
            }
        }
    }
}

/// Splicing a segment of fresh alleles into a duplicate-free sequence at
/// position `lo` keeps the whole duplicate-free.
proof fn lemma_splice_no_dup(filler: Seq<u64>, seg: Seq<u64>, lo: int)
    requires
        filler.no_duplicates(),
        seg.no_duplicates(),
        forall|q: int| 0 <= q < filler.len() ==> !seg.contains(#[trigger] filler[q]),
        0 <= lo <= filler.len(),
    ensures
        (filler.take(lo) + seg + filler.skip(lo)).no_duplicates(),
{
    let c = filler.take(lo) + seg + filler.skip(lo);
    let sl = seg.len() as int;
    assert forall|p1: int, p2: int| 0 <= p1 < p2 < c.len() implies c[p1] != c[p2] by {
        if p1 < lo {
            assert(c[p1] == filler[p1]);
        } else if p1 < lo + sl {
            assert(c[p1] == seg[p1 - lo]);
            assert(seg.contains(seg[p1 - lo]));
        } else {
            assert(c[p1] == filler[p1 - sl]);
        }
        if p2 < lo {
            assert(c[p2] == filler[p2]);
        } else if p2 < lo + sl {
            assert(c[p2] == seg[p2 - lo]);
            assert(seg.contains(seg[p2 - lo]));
        } else {
            assert(c[p2] == filler[p2 - sl]);
        }
    }
}

/// An element of the spliced sequence is an element of one of its parts.
proof fn lemma_splice_members(filler: Seq<u64>, seg: Seq<u64>, lo: int)
    requires
        0 <= lo <= filler.len(),
    ensures
        forall|x: u64|
            #[trigger] (filler.take(lo) + seg + filler.skip(lo)).contains(x) <==> (
            filler.contains(x) || seg.contains(x)),
{
    let c = filler.take(lo) + seg + filler.skip(lo);
    let sl = seg.len() as int;
    assert forall|x: u64| #[trigger] c.contains(x) implies (filler.contains(x) || seg.contains(
        x,
    )) by {
        let p = choose|p: int| 0 <= p < c.len() && c[p] == x;
        if p < lo {
            assert(filler[p] == x);
        } else if p < lo + sl {
            assert(seg[p - lo] == x);
        } else {
            assert(filler[p - sl] == x);
        }
    }
    assert forall|x: u64| (filler.contains(x) || seg.contains(x)) implies #[trigger] c.contains(
        x,
    ) by {
        if filler.contains(x) {
            let q = choose|q: int| 0 <= q < filler.len() && filler[q] == x;
            if q < lo {
                assert(c[q] == x);
            } else {
                assert(c[q + sl] == x);
            }
        } else {
            let q = choose|q: int| 0 <= q < seg.len() && seg[q] == x;
            assert(c[lo + q] == x);
        }
    }
}

/// Two duplicate-free sequences over the same element set hold the same
/// multiset of elements.
proof fn lemma_nodup_same_set_multiset(s: Seq<u64>, t: Seq<u64>)
    requires
        s.no_duplicates(),
        t.no_duplicates(),
        s.to_set() == t.to_set(),
    ensures
        s.to_multiset() == t.to_multiset(),
{
    broadcast use vstd::seq_lib::group_to_multiset_ensures;

    s.lemma_multiset_has_no_duplicates();
    t.lemma_multiset_has_no_duplicates();
    assert forall|x: u64| s.to_multiset().count(x) == t.to_multiset().count(x) by {
        if s.contains(x) {
            assert(s.to_set().contains(x));
            assert(t.contains(x));
        } else if t.contains(x) {
            assert(t.to_set().contains(x));
            assert(s.contains(x));
        }
    }
    assert(s.to_multiset() =~= t.to_multiset());
}

} // verus!
