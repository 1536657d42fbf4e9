use vstd::prelude::*;
use vstd::arithmetic::div_mod::{lemma_div_is_ordered, lemma_div_multiples_vanish};

use crate::error::GAError;
use crate::genome::{genome_eq, Genome};
use crate::population::{is_member_copy, lemma_perm_element, GenomeList};
use crate::scorer::{Scorer, RATE_SCALE};

verus! {

/// What a finished evolution run reports: the best genome ever observed,
/// how many generations were completed, and whether the run converged
/// below the tolerance rather than exhausting the generation cap.
#[derive(Debug)]
pub struct GARun {
    pub best: Genome,
    pub generations: u64,
    pub converged: bool,
}

/// The index of a fittest (lowest-scoring) member of a non-empty
/// population vector.
pub fn best_index(v: &Vec<Genome>) -> (r: usize)
    requires
        v@.len() >= 1,
    ensures
        r < v@.len(),
        forall|i: int| 0 <= i < v@.len() ==> v@[r as int].eval <= (#[trigger] v@[i].eval),
{
    let mut m: usize = 0;
    let mut i: usize = 1;
    while i < v.len()
        invariant
            m < i <= v@.len(),
            forall|k: int| 0 <= k < i ==> v@[m as int].eval <= (#[trigger] v@[k].eval),
        decreases v@.len() - i,
    {
        if v[i].eval < v[m].eval {
            m = i;
        }
        i = i + 1;
    }
    m
}

impl<F: Scorer> GenomeList<F> {
    /// Runs the evolution loop: each generation orders the population,
    /// couples `number` parent pairs, breeds one child per pair with the
    /// crossover picked by `cross_type` (a positive block width, zero for
    /// uniform choice, minus one for the componentwise average), splices
    /// the children over the worst members and mutates everyone. The loop
    /// stops as soon as the best fitness seen drops below `tolerance`, or
    /// after `max_generations` generations. The reported best is never
    /// worse than any member the run started from.
    pub fn ga_loop(
        &mut self,
        number: usize,
        cross_type: i8,
        genome_mutation: u64,
        min: u64,
        max: u64,
        tolerance: u64,
        max_generations: u64,
    ) -> (r: Result<GARun, GAError>)
        requires
            old(self).list@.len() >= 1,
            old(self).config_wf(),
            old(self).members_fresh(),
            old(self).members_wf(old(self).list@[0].dna@.len() as int, min, max),
            min <= max,
            genome_mutation <= RATE_SCALE,
            max_generations < u64::MAX,
        ensures
            r is Err <==> (cross_type < -1 || number > old(self).list@.len()),
            match r {
                Ok(run) => {
                    &&& final(self).list@.len() == old(self).list@.len()
                    &&& final(self).config_wf()
                    &&& final(self).members_fresh()
                    &&& final(self).members_wf(old(self).list@[0].dna@.len() as int, min, max)
                    &&& final(self).function@ == old(self).function@
                    &&& final(self).phase == old(self).phase
                    &&& run.best.wf(old(self).list@[0].dna@.len() as int, min, max)
                    &&& run.best.eval == final(self).function@[final(self).phase
                        - 1].spec_score(run.best.dna@)
                    &&& forall|i: int|
                        0 <= i < old(self).list@.len() ==> run.best.eval <= (#[trigger] old(
                        self).list@[i].eval)
                    &&& run.generations <= max_generations
                    &&& (run.converged ==> run.best.eval < tolerance)
                    &&& (!run.converged ==> run.generations == max_generations)
                    &&& (max_generations > 0 ==> (run.converged <==> run.best.eval < tolerance))
                },
                Err(e) => {
                    &&& *final(self) == *old(self)
                    &&& (e == GAError::InvalidCrossoverType ==> cross_type < -1)
                    &&& (e == GAError::PairCountExceedsPopulation ==> number > old(
                        self).list@.len())
                    &&& (e == GAError::InvalidCrossoverType || e
                        == GAError::PairCountExceedsPopulation)
                },
            },
    {
        if cross_type < -1 {
            return Err(GAError::InvalidCrossoverType);
        }
        if number > self.list.len() {
            return Err(GAError::PairCountExceedsPopulation);
        }
        let ghost glen = old(self).list@[0].dna@.len() as int;
        let ghost orig = old(self).list@;
        let bi = best_index(&self.list);
        let mut best = self.list[bi].clone();
        let mut gen: u64 = 0;
        let mut converged = false;
        while gen < max_generations && !converged
            invariant
                min <= max,
                cross_type >= -1,
                number <= orig.len(),
                orig.len() >= 1,
                self.list@.len() == orig.len(),
                self.config_wf(),
                self.members_fresh(),
                self.members_wf(glen, min, max),
                self.function@ == old(self).function@,
                self.phase == old(self).phase,
                best.wf(glen, min, max),
                best.eval == self.function@[self.phase - 1].spec_score(best.dna@),
                forall|i: int| 0 <= i < orig.len() ==> best.eval <= (#[trigger] orig[i].eval),
                converged ==> best.eval < tolerance,
                gen > 0 && !converged ==> best.eval >= tolerance,
                gen <= max_generations,
            decreases max_generations - gen,
        {
            let ghost pre_sort = self.list@;
            self.order();
            proof {
                assert forall|i: int| 0 <= i < self.list@.len() implies (
                #[trigger] self.list@[i]).wf(glen, min, max) by {
                    lemma_perm_element(self.list@, pre_sort, i);
                }
                assert forall|i: int| 0 <= i < self.list@.len() implies (
                #[trigger] self.list@[i].eval) == self.function@[self.phase - 1].spec_score(
                    self.list@[i].dna@,
                ) by {
                    lemma_perm_element(self.list@, pre_sort, i);
                }
            }
            let pairs = match self.couple(number) {
                Ok(p) => p,
                Err(_) => {
                    proof {
                        assert(false);
                    }
                    return Err(GAError::PairCountExceedsPopulation);
                },
            };
            let mut children: Vec<Genome> = Vec::new();
            let mut pi: usize = 0;
            while pi < pairs.len()
                invariant
                    min <= max,
                    cross_type >= -1,
                    self.config_wf(),
                    self.members_fresh(),
                    self.members_wf(glen, min, max),
                    self.list@.len() == orig.len() >= 1,
                    pairs@.len() <= self.list@.len(),
                    forall|k: int|
                        0 <= k < pairs@.len() ==> genome_eq((#[trigger] pairs@[k]).1,
                        self.list@[k]),
                    forall|k: int|
                        0 <= k < pairs@.len() ==> is_member_copy((#[trigger] pairs@[k]).0,
                        self.list@),
                    pi <= pairs@.len(),
                    children@.len() == pi,
                    forall|k: int|
                        0 <= k < children@.len() ==> (#[trigger] children@[k]).wf(glen, min, max),
                    forall|k: int|
                        0 <= k < children@.len() ==> (#[trigger] children@[k].eval)
                            == self.function@[self.phase - 1].spec_score(children@[k].dna@),
                decreases pairs@.len() - pi,
            {
                proof {
                    assert(genome_eq(pairs@[pi as int].1, self.list@[pi as int]));
                    assert(is_member_copy(pairs@[pi as int].0, self.list@));
                    let j = choose|j: int|
                        0 <= j < self.list@.len() && genome_eq(pairs@[pi as int].0,
                        self.list@[j]);
                    assert(self.list@[j].wf(glen, min, max));
                    assert(self.list@[pi as int].wf(glen, min, max));
                }
                let p0 = &pairs[pi].0;
                let p1 = &pairs[pi].1;
                let phase = self.phase;
                let child = if cross_type > 0 {
                    p0.step_n(p1, cross_type as usize, &self.function, phase)
                } else if cross_type == 0 {
                    p0.randomly(p1, &self.function, phase)
                } else {
                    p0.average(p1, &self.function, phase)
                };
                proof {
                    assert forall|k: int| 0 <= k < child.dna@.len() implies min
                        <= #[trigger] child.dna@[k] <= max by {
                        if cross_type == -1 {
                            let a = p0.dna@[k] as int;
                            let b = p1.dna@[k] as int;
                            lemma_div_multiples_vanish(min as int, 2);
                            lemma_div_multiples_vanish(max as int, 2);
                            lemma_div_is_ordered(2 * (min as int), a + b, 2);
                            lemma_div_is_ordered(a + b, 2 * (max as int), 2);
                        }
                    }
                }
                children.push(child);
                pi = pi + 1;
            }
            let ghost pre_next = self.list@;
            let ghost kids = children@;
            self.create_next_generation(children, genome_mutation, min, max);
            proof {
                assert forall|i: int| 0 <= i < self.list@.len() implies (
                #[trigger] self.list@[i]).wf(glen, min, max) by {
                    let src = crate::population::spliced_source(pre_next, kids, i);
                    assert(src.wf(glen, min, max));
                    assert(self.list@[i].dna@.len() == src.dna@.len());
                    assert(forall|k: int|
                        0 <= k < self.list@[i].dna@.len() ==> (#[trigger] self.list@[
                        i].dna@[k]) == src.dna@[k] || (min <= self.list@[i].dna@[k] <= max));
                }
            }
            gen = gen + 1;
            let b2 = best_index(&self.list);
            if self.list[b2].eval < best.eval {
                best = self.list[b2].clone();
            }
            if best.eval < tolerance {
                converged = true;
            }
        }
        Ok(GARun { best, generations: gen, converged })
    }
}

} // verus!
