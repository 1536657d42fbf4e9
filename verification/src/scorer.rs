use vstd::prelude::*;
use vstd::arithmetic::div_mod::{lemma_div_is_ordered, lemma_div_multiples_vanish};
use vstd::arithmetic::mul::lemma_mul_inequality;

verus! {

/// Probabilities handed to the engine are expressed in parts of this scale:
/// a rate of `RATE_SCALE` is certainty, a rate of 0 never fires.
pub const RATE_SCALE: u64 = 1_000_000;

/// The mathematical sum of a gene vector.
pub open spec fn sum_seq(s: Seq<u64>) -> int
    decreases s.len(),
{
    if s.len() == 0 {
        0
    } else {
        sum_seq(s.drop_last()) + s.last()
    }
}

/// The truncated mean of a gene vector; zero for the empty vector.
pub open spec fn mean_seq(s: Seq<u64>) -> int {
    if s.len() == 0 {
        0
    } else {
        sum_seq(s) / (s.len() as int)
    }
}

/// The absolute difference of two integers.
pub open spec fn abs_diff(a: int, b: int) -> int {
    if a >= b {
        a - b
    } else {
        b - a
    }
}

pub proof fn lemma_sum_seq_bounds(s: Seq<u64>)
    ensures
        0 <= sum_seq(s) <= s.len() * (u64::MAX as int),
    decreases s.len(),
{
    if s.len() == 0 {
    } else {
        lemma_sum_seq_bounds(s.drop_last());
        assert((s.len() - 1) * (u64::MAX as int) + (u64::MAX as int) == s.len() * (
        u64::MAX as int)) by (nonlinear_arith);
    }
}

/// Adds up a gene vector without overflow.
pub fn sum(genome: &Vec<u64>) -> (r: u128)
    ensures
        r as int == sum_seq(genome@),
{
    let mut a: u128 = 0;
    let mut i: usize = 0;
    while i < genome.len()
        invariant
            i <= genome@.len(),
            a as int == sum_seq(genome@.take(i as int)),
            0 <= a as int <= (i as int) * (u64::MAX as int),
        decreases genome@.len() - i,
    {
        proof {
            assert(genome@.take(i + 1).drop_last() =~= genome@.take(i as int));
            assert(genome@.take(i + 1).last() == genome@[i as int]);
            lemma_mul_inequality(i + 1, usize::MAX as int, u64::MAX as int);
            assert((i as int) * (u64::MAX as int) + (u64::MAX as int) == (i + 1) * (
            u64::MAX as int)) by (nonlinear_arith);
            assert((usize::MAX as int) * (u64::MAX as int) <= u128::MAX as int)
                by (nonlinear_arith)
                requires
                    usize::MAX as int <= u64::MAX as int,
            ;
        }
        a = a + (genome[i] as u128);
        i = i + 1;
    }
    proof {
        assert(genome@.take(genome@.len() as int) =~= genome@);
    }
    a
}

pub proof fn lemma_mean_seq_bounds(s: Seq<u64>)
    ensures
        0 <= mean_seq(s) <= u64::MAX as int,
{
    if s.len() == 0 {
    } else {
        lemma_sum_seq_bounds(s);
        lemma_div_is_ordered(sum_seq(s), s.len() * (u64::MAX as int), s.len() as int);
        lemma_div_multiples_vanish(u64::MAX as int, s.len() as int);
        vstd::arithmetic::div_mod::lemma_div_pos_is_pos(sum_seq(s), s.len() as int);
    }
}

/// The truncated mean of a gene vector; zero for the empty vector.
pub fn get_ave(vec: &Vec<u64>) -> (r: u64)
    ensures
        r as int == mean_seq(vec@),
{
    if vec.len() == 0 {
        0
    } else {
        let s = sum(vec);
        let n = vec.len() as u128;
        proof {
            lemma_mean_seq_bounds(vec@);
        }
        (s / n) as u64
    }
}

/// A fitness function over gene vectors: lower scores are better. The spec
/// side pins down exactly what the executable scorer returns, so everything
/// the engine proves about cached fitness values holds of each implementor.
pub trait Scorer: Sized {
    /// The score as a mathematical function of the genes.
    spec fn spec_score(&self, genes: Seq<u64>) -> u64;

    /// Evaluates the genes; must return exactly the specified score.
    fn score(&self, genes: &Vec<u64>) -> (r: u64)
        ensures
            r == self.spec_score(genes@),
    ;
}

/// The example fitness function: how far the mean gene value lies from a
/// target, in absolute value. A gene vector whose mean hits the target
/// scores zero, the optimum.
#[derive(Debug)]
pub struct MeanDistance {
    pub target: u64,
}

impl Scorer for MeanDistance {
    open spec fn spec_score(&self, genes: Seq<u64>) -> u64 {
        abs_diff(mean_seq(genes), self.target as int) as u64
    }

    fn score(&self, genes: &Vec<u64>) -> (r: u64) {
        let m = get_ave(genes);
        proof {
            lemma_mean_seq_bounds(genes@);
        }
        if m >= self.target {
            m - self.target
        } else {
            self.target - m
        }
    }
}

} // verus!
