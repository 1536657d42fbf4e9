use vstd::prelude::*;

use crate::error::GAError;
use crate::rng::{random_below, random_in_range};
use crate::scorer::Scorer;

verus! {

/// One candidate solution: a fixed-length gene vector together with its
/// cached fitness under the active fitness function. The cache is
/// recomputed whenever the genes change, so it never goes stale.
#[derive(Debug)]
pub struct Genome {
    pub dna: Vec<u64>,
    pub eval: u64,
}

/// Two genomes agree as values: same genes, same cached fitness.
pub open spec fn genome_eq(a: Genome, b: Genome) -> bool {
    a.dna@ == b.dna@ && a.eval == b.eval
}

impl Clone for Genome {
    fn clone(&self) -> (r: Self)
        ensures
            genome_eq(r, *self),
    {
        let mut dna: Vec<u64> = Vec::new();
        let mut i: usize = 0;
        while i < self.dna.len()
            invariant
                i <= self.dna@.len(),
                dna@ == self.dna@.take(i as int),
            decreases self.dna@.len() - i,
        {
            dna.push(self.dna[i]);
            proof {
                assert(self.dna@.take(i + 1) =~= self.dna@.take(i as int).push(
                self.dna@[i as int]));
            }
            i = i + 1;
        }
        proof {
            assert(self.dna@.take(self.dna@.len() as int) =~= self.dna@);
        }
        Genome { dna, eval: self.eval }
    }
}

impl Genome {
    /// The genes have the given length and every gene lies in the inclusive
    /// range.
    pub open spec fn wf(&self, length: int, min: u64, max: u64) -> bool {
        &&& self.dna@.len() == length
        &&& forall|i: int| 0 <= i < self.dna@.len() ==> min <= #[trigger] self.dna@[i] <= max
    }

    /// Draws a fresh genome: `length` independent uniform genes in
    /// `[min, max]`, scored under the first registered fitness function.
    /// Without a registered function no gene is drawn and the call fails.
    pub fn new<F: Scorer>(length: usize, min: u64, max: u64, f: &Vec<F>) -> (r: Result<
        Genome,
        GAError,
    >)
        requires
            min <= max,
        ensures
            match r {
                Ok(g) => f@.len() >= 1 && g.wf(length as int, min, max) && g.eval
                    == f@[0].spec_score(g.dna@),
                Err(e) => f@.len() == 0 && e == GAError::MissingFitnessFunction,
            },
    {
        if f.len() == 0 {
            return Err(GAError::MissingFitnessFunction);
        }
        let mut v: Vec<u64> = Vec::new();
        let mut i: usize = 0;
        while i < length
            invariant
                min <= max,
                i <= length,
                v@.len() == i,
                forall|k: int| 0 <= k < v@.len() ==> min <= #[trigger] v@[k] <= max,
            decreases length - i,
        {
            let a = random_in_range(min, max);
            v.push(a);
            i = i + 1;
        }
        let ini_value = f[0].score(&v);
        Ok(Genome { dna: v, eval: ini_value })
    }

    /// Two-level stochastic mutation. One draw decides whether this genome
    /// is eligible at all; if it is, each gene is independently replaced,
    /// with the same probability, by a fresh uniform draw in `[min, max]`.
    /// The cached fitness is recomputed exactly when some gene was
    /// replaced. Every gene either keeps its old value or lands inside
    /// `[min, max]`, and the cache never goes stale.
    pub fn mutate<F: Scorer>(&mut self, x: u64, min: u64, max: u64, f: &Vec<F>, phase: usize)
        requires
            min <= max,
            1 <= phase <= f@.len(),
        ensures
            final(self).dna@.len() == old(self).dna@.len(),
            forall|i: int|
                0 <= i < final(self).dna@.len() ==> (#[trigger] final(self).dna@[i]
                    == old(self).dna@[i] || (min <= final(self).dna@[i] <= max)),
            (final(self).dna@ == old(self).dna@ && final(self).eval == old(self).eval)
                || final(self).eval == f@[phase - 1].spec_score(final(self).dna@),
            x == 0 ==> final(self).dna@ == old(self).dna@ && final(self).eval == old(self).eval,
    {
        let mut recount = false;
        let a = random_in_range(0, crate::scorer::RATE_SCALE - 1);
        if a < x {
            let mut i: usize = 0;
            while i < self.dna.len()
                invariant
                    min <= max,
                    self.dna@.len() == old(self).dna@.len(),
                    self.eval == old(self).eval,
                    i <= self.dna@.len(),
                    forall|k: int|
                        0 <= k < self.dna@.len() ==> (#[trigger] self.dna@[k]
                            == old(self).dna@[k] || (min <= self.dna@[k] <= max)),
                    !recount ==> self.dna@ == old(self).dna@,
                decreases self.dna@.len() - i,
            {
                let b = random_in_range(0, crate::scorer::RATE_SCALE - 1);
                if b < x {
                    let fresh = random_in_range(min, max);
                    self.dna[i] = fresh;
                    if !recount {
                        recount = true;
                    }
                }
                i = i + 1;
            }
        }
        if recount {
            let val = f[phase - 1].score(&self.dna);
            self.eval = val;
        }
    }

    /// Block crossover: the child is assembled from alternating blocks of
    /// `n` genes, blocks at even block index coming from this parent and
    /// blocks at odd block index from the other, both read at the running
    /// gene position. The child is scored afresh.
    pub fn step_n<F: Scorer>(&self, dna2: &Genome, n: usize, f: &Vec<F>, phase: usize) -> (child:
        Genome)
        requires
            n >= 1,
            self.dna@.len() == dna2.dna@.len(),
            1 <= phase <= f@.len(),
        ensures
            child.dna@.len() == self.dna@.len(),
            forall|i: int|
                0 <= i < child.dna@.len() ==> #[trigger] child.dna@[i] == (if ((i / (n as int)) % 2)
                    == 0 {
                    self.dna@[i]
                } else {
                    dna2.dna@[i]
                }),
            child.eval == f@[phase - 1].spec_score(child.dna@),
    {
        let mut child_dna: Vec<u64> = Vec::new();
        let mut count: usize = 0;
        while count < self.dna.len()
            invariant
                n >= 1,
                self.dna@.len() == dna2.dna@.len(),
                count <= self.dna@.len(),
                child_dna@.len() == count,
                forall|i: int|
                    0 <= i < child_dna@.len() ==> #[trigger] child_dna@[i] == (if ((i / (
                    n as int)) % 2) == 0 {
                        self.dna@[i]
                    } else {
                        dna2.dna@[i]
                    }),
            decreases self.dna@.len() - count,
        {
            let block = (count / n) % 2;
            if block == 0 {
                child_dna.push(self.dna[count]);
            } else {
                child_dna.push(dna2.dna[count]);
            }
            count = count + 1;
        }
        let child_eval = f[phase - 1].score(&child_dna);
        Genome { dna: child_dna, eval: child_eval }
    }

    /// Uniform crossover: each child gene is, by a fair coin, one parent's
    /// gene at that position — never a blend. The child is scored afresh.
    pub fn randomly<F: Scorer>(&self, dna2: &Genome, f: &Vec<F>, phase: usize) -> (child: Genome)
        requires
            self.dna@.len() == dna2.dna@.len(),
            1 <= phase <= f@.len(),
        ensures
            child.dna@.len() == self.dna@.len(),
            forall|i: int|
                0 <= i < child.dna@.len() ==> #[trigger] child.dna@[i] == self.dna@[i]
                    || child.dna@[i] == dna2.dna@[i],
            child.eval == f@[phase - 1].spec_score(child.dna@),
    {
        let mut child_dna: Vec<u64> = Vec::new();
        let mut i: usize = 0;
        while i < self.dna.len()
            invariant
                self.dna@.len() == dna2.dna@.len(),
                i <= self.dna@.len(),
                child_dna@.len() == i,
                forall|k: int|
                    0 <= k < child_dna@.len() ==> #[trigger] child_dna@[k] == self.dna@[k]
                        || child_dna@[k] == dna2.dna@[k],
            decreases self.dna@.len() - i,
        {
            let coin = random_below(2);
            if coin == 0 {
                child_dna.push(self.dna[i]);
            } else {
                child_dna.push(dna2.dna[i]);
            }
            i = i + 1;
        }
        let child_eval = f[phase - 1].score(&child_dna);
        Genome { dna: child_dna, eval: child_eval }
    }

    /// Averaging crossover: each child gene is the truncated arithmetic
    /// mean of the parents' genes at that position. The child is scored
    /// afresh.
    pub fn average<F: Scorer>(&self, dna2: &Genome, f: &Vec<F>, phase: usize) -> (child: Genome)
        requires
            self.dna@.len() == dna2.dna@.len(),
            1 <= phase <= f@.len(),
        ensures
            child.dna@.len() == self.dna@.len(),
            forall|i: int|
                0 <= i < child.dna@.len() ==> #[trigger] child.dna@[i] == ((self.dna@[i]
                    + dna2.dna@[i]) as int) / 2,
            child.eval == f@[phase - 1].spec_score(child.dna@),
    {
        let mut child_dna: Vec<u64> = Vec::new();
        let mut i: usize = 0;
        while i < self.dna.len()
            invariant
                self.dna@.len() == dna2.dna@.len(),
                i <= self.dna@.len(),
                child_dna@.len() == i,
                forall|k: int|
                    0 <= k < child_dna@.len() ==> #[trigger] child_dna@[k] == ((self.dna@[k]
                        + dna2.dna@[k]) as int) / 2,
            decreases self.dna@.len() - i,
        {
            let s: u128 = (self.dna[i] as u128) + (dna2.dna[i] as u128);
            let m = (s / 2) as u64;
            child_dna.push(m);
            i = i + 1;
        }
        let child_eval = f[phase - 1].score(&child_dna);
        Genome { dna: child_dna, eval: child_eval }
    }
}

} // verus!
