use vstd::prelude::*;
use vstd::seq_lib::lemma_multiset_commutative;

use crate::error::GAError;
use crate::genome::{genome_eq, Genome};
use crate::rng::random_below;
use crate::scorer::{mean_seq, Scorer};

verus! {

broadcast use {vstd::multiset::group_multiset_axioms, vstd::seq_lib::group_to_multiset_ensures};

/// The fitness scores of a sequence of genomes, in the same order.
pub open spec fn evals_of(s: Seq<Genome>) -> Seq<u64> {
    s.map_values(|g: Genome| g.eval)
}

/// The genome agrees, genes and cached fitness, with some member of the
/// sequence.
pub open spec fn is_member_copy(g: Genome, s: Seq<Genome>) -> bool {
    exists|j: int| 0 <= j < s.len() && genome_eq(g, s[j])
}

/// The sequence is ordered by cached fitness, best (lowest) first.
pub open spec fn sorted_by_eval(s: Seq<Genome>) -> bool {
    forall|i: int, j: int| 0 <= i <= j < s.len() ==> s[i].eval <= s[j].eval
}

/// Stable ordered insertion: the genome goes in front of the first member
/// with a strictly higher fitness, after every member with an equal one.
pub open spec fn insert_ordered(s: Seq<Genome>, g: Genome) -> Seq<Genome>
    decreases s.len(),
{
    if s.len() == 0 {
        seq![g]
    } else if g.eval < s[0].eval {
        seq![g] + s
    } else {
        seq![s[0]] + insert_ordered(s.drop_first(), g)
    }
}

/// Stable insertion sort by cached fitness, best first.
pub open spec fn sort_genomes(s: Seq<Genome>) -> Seq<Genome>
    decreases s.len(),
{
    if s.len() == 0 {
        s
    } else {
        insert_ordered(sort_genomes(s.drop_last()), s.last())
    }
}

pub proof fn lemma_insert_ordered_props(s: Seq<Genome>, g: Genome)
    requires
        sorted_by_eval(s),
    ensures
        insert_ordered(s, g).len() == s.len() + 1,
        insert_ordered(s, g).to_multiset() == s.to_multiset().insert(g),
        sorted_by_eval(insert_ordered(s, g)),
    decreases s.len(),
{
    let r = insert_ordered(s, g);
    if s.len() == 0 {
        assert(r =~= Seq::empty().push(g));
        assert(r.to_multiset() =~= s.to_multiset().insert(g));
    } else if g.eval < s[0].eval {
        assert(seq![g] =~= Seq::empty().push(g));
        lemma_multiset_commutative(seq![g], s);
        assert(r.to_multiset() =~= s.to_multiset().insert(g));
        assert forall|i: int, j: int| 0 <= i <= j < r.len() implies r[i].eval <= r[j].eval by {
            if i > 0 {
                assert(r[i] == s[i - 1]);
                assert(r[j] == s[j - 1]);
            } else if j > 0 {
                assert(r[j] == s[j - 1]);
                assert(s[0].eval <= s[j - 1].eval);
            }
        }
    } else {
        assert(forall|i: int, j: int|
            0 <= i <= j < s.drop_first().len() ==> s.drop_first()[i].eval
                <= s.drop_first()[j].eval);
        lemma_insert_ordered_props(s.drop_first(), g);
        let tail = insert_ordered(s.drop_first(), g);
        assert(r == seq![s[0]] + tail);
        assert(seq![s[0]] =~= Seq::empty().push(s[0]));
        lemma_multiset_commutative(seq![s[0]], tail);
        lemma_multiset_commutative(seq![s[0]], s.drop_first());
        assert(s =~= seq![s[0]] + s.drop_first());
        assert(r.to_multiset() =~= s.to_multiset().insert(g));
        assert forall|j: int| 1 <= j < r.len() implies s[0].eval <= r[j].eval by {
            assert(r[j] == tail[j - 1]);
            assert(tail.contains(tail[j - 1]));
            assert(tail.to_multiset().count(tail[j - 1]) > 0);
            if tail[j - 1] == g {
                assert(s[0].eval <= g.eval);
            } else {
                assert(s.drop_first().to_multiset().count(tail[j - 1]) > 0);
                assert(s.drop_first().contains(tail[j - 1]));
                let k = choose|k: int|
                    0 <= k < s.drop_first().len() && s.drop_first()[k] == tail[j - 1];
                assert(s[0].eval <= s[k + 1].eval);
            }
        }
        assert forall|i: int, j: int| 0 <= i <= j < r.len() implies r[i].eval <= r[j].eval by {
            if i >= 1 {
                assert(r[i] == tail[i - 1]);
                assert(r[j] == tail[j - 1]);
                assert(tail[i - 1].eval <= tail[j - 1].eval);
            } else if j >= 1 {
                assert(s[0].eval <= r[j].eval);
            }
        }
    }
}

/// Where ordered insertion lands: in front of the first member whose
/// fitness is strictly higher.
pub proof fn lemma_insert_ordered_at(s: Seq<Genome>, g: Genome, k: int)
    requires
        sorted_by_eval(s),
        0 <= k <= s.len(),
        forall|i: int| 0 <= i < k ==> s[i].eval <= g.eval,
        k < s.len() ==> g.eval < s[k].eval,
    ensures
        insert_ordered(s, g) == s.insert(k, g),
    decreases s.len(),
{
    if s.len() == 0 {
        assert(insert_ordered(s, g) =~= s.insert(0, g));
    } else if k == 0 {
        assert(g.eval < s[0].eval);
        assert(insert_ordered(s, g) =~= s.insert(0, g));
    } else {
        assert(s[0].eval <= g.eval);
        assert(forall|i: int, j: int|
            0 <= i <= j < s.drop_first().len() ==> s.drop_first()[i].eval
                <= s.drop_first()[j].eval);
        assert(forall|i: int| 0 <= i < k - 1 ==> s.drop_first()[i].eval <= g.eval);
        lemma_insert_ordered_at(s.drop_first(), g, k - 1);
        assert(insert_ordered(s, g) =~= s.insert(k, g));
    }
}

/// What sorting promises: the same genomes, as a multiset, in
/// fitness order.
pub proof fn lemma_sort_genomes_props(s: Seq<Genome>)
    ensures
        sort_genomes(s).len() == s.len(),
        sort_genomes(s).to_multiset() == s.to_multiset(),
        sorted_by_eval(sort_genomes(s)),
    decreases s.len(),
{
    if s.len() == 0 {
    } else {
        lemma_sort_genomes_props(s.drop_last());
        lemma_insert_ordered_props(sort_genomes(s.drop_last()), s.last());
        assert(s =~= s.drop_last().push(s.last()));
        assert(s.drop_last().push(s.last()).to_multiset() =~= s.drop_last().to_multiset().insert(
            s.last(),
        ));
    }
}

/// Sorting an already ordered sequence moves nothing.
pub proof fn lemma_sort_sorted_id(s: Seq<Genome>)
    requires
        sorted_by_eval(s),
    ensures
        sort_genomes(s) == s,
    decreases s.len(),
{
    if s.len() == 0 {
    } else {
        assert(forall|i: int, j: int|
            0 <= i <= j < s.drop_last().len() ==> s.drop_last()[i].eval <= s.drop_last()[j].eval);
        lemma_sort_sorted_id(s.drop_last());
        lemma_insert_ordered_at(s.drop_last(), s.last(), s.len() - 1);
        assert(s.drop_last().insert(s.len() - 1, s.last()) =~= s);
    }
}

/// Ordering is idempotent: sorting a second time yields exactly the
/// sequence the first sort produced.
pub proof fn lemma_order_idempotent(s: Seq<Genome>)
    ensures
        sort_genomes(sort_genomes(s)) == sort_genomes(s),
{
    lemma_sort_genomes_props(s);
    lemma_sort_sorted_id(sort_genomes(s));
}

/// Every member of a sequence appears in any rearrangement of it.
pub proof fn lemma_perm_element(a: Seq<Genome>, b: Seq<Genome>, i: int)
    requires
        a.to_multiset() == b.to_multiset(),
        0 <= i < a.len(),
    ensures
        exists|j: int| 0 <= j < b.len() && b[j] == a[i],
{
    assert(a.contains(a[i]));
    assert(a.to_multiset().count(a[i]) > 0);
    assert(b.to_multiset().count(a[i]) > 0);
    assert(b.contains(a[i]));
}

/// The largest value in a non-empty vector.
pub fn max_of(v: &Vec<u64>) -> (r: u64)
    requires
        v@.len() >= 1,
    ensures
        forall|i: int| 0 <= i < v@.len() ==> v@[i] <= r,
        exists|i: int| 0 <= i < v@.len() && v@[i] == r,
{
    let mut m = v[0];
    let mut i: usize = 1;
    while i < v.len()
        invariant
            1 <= i <= v@.len(),
            forall|k: int| 0 <= k < i ==> v@[k] <= m,
            exists|k: int| 0 <= k < i && v@[k] == m,
        decreases v@.len() - i,
    {
        if v[i] > m {
            m = v[i];
        }
        i = i + 1;
    }
    m
}

/// The smallest value in a non-empty vector.
pub fn min_of(v: &Vec<u64>) -> (r: u64)
    requires
        v@.len() >= 1,
    ensures
        forall|i: int| 0 <= i < v@.len() ==> r <= v@[i],
        exists|i: int| 0 <= i < v@.len() && v@[i] == r,
{
    let mut m = v[0];
    let mut i: usize = 1;
    while i < v.len()
        invariant
            1 <= i <= v@.len(),
            forall|k: int| 0 <= k < i ==> m <= v@[k],
            exists|k: int| 0 <= k < i && v@[k] == m,
        decreases v@.len() - i,
    {
        if v[i] < m {
            m = v[i];
        }
        i = i + 1;
    }
    m
}

/// An ordered population of genomes with its bookkeeping: the generation
/// counter, per-generation fitness statistics, and the registered fitness
/// functions, selected by the 1-based `phase` index.
#[derive(Debug)]
pub struct GenomeList<F: Scorer> {
    pub list: Vec<Genome>,
    pub times: Vec<u64>,
    pub phase: usize,
    pub eval_max_history: Vec<u64>,
    pub eval_min_history: Vec<u64>,
    pub eval_ave_history: Vec<u64>,
    pub function: Vec<F>,
}

impl<F: Scorer> GenomeList<F> {
    /// At least one fitness function is registered and the phase selects
    /// one of them.
    pub open spec fn config_wf(&self) -> bool {
        &&& self.function@.len() >= 1
        &&& 1 <= self.phase <= self.function@.len()
    }

    /// Every member's cached fitness is exactly the active fitness
    /// function's score of its genes: no stale caches.
    pub open spec fn members_fresh(&self) -> bool {
        forall|i: int|
            0 <= i < self.list@.len() ==> (#[trigger] self.list@[i].eval)
                == self.function@[self.phase - 1].spec_score(self.list@[i].dna@)
    }

    /// Every member has the given gene count, with all genes inside
    /// `[min, max]`.
    pub open spec fn members_wf(&self, length: int, min: u64, max: u64) -> bool {
        forall|i: int| 0 <= i < self.list@.len() ==> (#[trigger] self.list@[i]).wf(length, min, max)
    }

    /// Seeds a population of `amount` random genomes of `length` genes in
    /// `[min, max]`, scored under the first registered fitness function,
    /// and records the initial fitness statistics. Without a registered
    /// function the call fails before any gene is drawn.
    pub fn new(amount: usize, length: usize, min: u64, max: u64, f: Vec<F>) -> (r: Result<
        GenomeList<F>,
        GAError,
    >)
        requires
            amount >= 1,
            length >= 1,
            min <= max,
        ensures
            match r {
                Ok(gl) => {
                    &&& f@.len() >= 1
                    &&& gl.config_wf()
                    &&& gl.phase == 1
                    &&& gl.function@ == f@
                    &&& gl.list@.len() == amount
                    &&& gl.members_wf(length as int, min, max)
                    &&& gl.members_fresh()
                    &&& gl.times@ == seq![1u64]
                    &&& gl.eval_max_history@.len() == 1
                    &&& gl.eval_min_history@.len() == 1
                    &&& gl.eval_ave_history@.len() == 1
                    &&& forall|i: int|
                        0 <= i < gl.list@.len() ==> (#[trigger] gl.list@[i].eval)
                            <= gl.eval_max_history@[0]
                    &&& exists|i: int|
                        0 <= i < gl.list@.len() && (#[trigger] gl.list@[i].eval)
                            == gl.eval_max_history@[0]
                    &&& forall|i: int|
                        0 <= i < gl.list@.len() ==> gl.eval_min_history@[0]
                            <= (#[trigger] gl.list@[i].eval)
                    &&& exists|i: int|
                        0 <= i < gl.list@.len() && (#[trigger] gl.list@[i].eval)
                            == gl.eval_min_history@[0]
                    &&& gl.eval_ave_history@[0] as int == mean_seq(evals_of(gl.list@))
                },
                Err(e) => f@.len() == 0 && e == GAError::MissingFitnessFunction,
            },
    {
        if f.len() == 0 {
            return Err(GAError::MissingFitnessFunction);
        }
        let mut list: Vec<Genome> = Vec::new();
        let mut values: Vec<u64> = Vec::new();
        let mut i: usize = 0;
        while i < amount
            invariant
                min <= max,
                f@.len() >= 1,
                i <= amount,
                list@.len() == i,
                values@ == evals_of(list@),
                forall|k: int|
                    0 <= k < list@.len() ==> (#[trigger] list@[k]).wf(length as int, min, max),
                forall|k: int|
                    0 <= k < list@.len() ==> (#[trigger] list@[k].eval) == f@[0].spec_score(
                        list@[k].dna@,
                    ),
            decreases amount - i,
        {
            let genome = match Genome::new(length, min, max, &f) {
                Ok(g) => g,
                Err(e) => {
                    return Err(e);
                },
            };
            let ev = genome.eval;
            let ghost pre_list = list@;
            let ghost pre_vals = values@;
            list.push(genome);
            values.push(ev);
            proof {
                assert(list@ == pre_list.push(list@.last()));
                assert(values@ == pre_vals.push(ev));
                assert(evals_of(list@) =~= pre_vals.push(ev));
            }
            i = i + 1;
        }
        let val_max = max_of(&values);
        let val_min = min_of(&values);
        let val_ave = crate::scorer::get_ave(&values);
        let mut times: Vec<u64> = Vec::new();
        times.push(1);
        let mut max_h: Vec<u64> = Vec::new();
        max_h.push(val_max);
        let mut min_h: Vec<u64> = Vec::new();
        min_h.push(val_min);
        let mut ave_h: Vec<u64> = Vec::new();
        ave_h.push(val_ave);
        let gl = GenomeList {
            list,
            times,
            phase: 1,
            eval_max_history: max_h,
            eval_min_history: min_h,
            eval_ave_history: ave_h,
            function: f,
        };
        proof {
            assert(gl.times@ =~= seq![1u64]);
            assert forall|k: int| 0 <= k < gl.list@.len() implies (#[trigger] gl.list@[k].eval)
                == evals_of(gl.list@)[k] by {}
        }
        Ok(gl)
    }

    /// Registers one more fitness function at the end of the table.
    pub fn add(&mut self, f: F)
        ensures
            final(self).function@ == old(self).function@.push(f),
            final(self).list@ == old(self).list@,
            final(self).phase == old(self).phase,
            final(self).times@ == old(self).times@,
            final(self).eval_max_history@ == old(self).eval_max_history@,
            final(self).eval_min_history@ == old(self).eval_min_history@,
            final(self).eval_ave_history@ == old(self).eval_ave_history@,
    {
        self.function.push(f);
    }

    /// Sorts the members ascending by cached fitness — best first, stable
    /// for equal fitness. The result is exactly `sort_genomes` of the old
    /// members: sorted, the same multiset, and unchanged if they were
    /// already sorted.
    pub fn order(&mut self)
        ensures
            final(self).list@ == sort_genomes(old(self).list@),
            sorted_by_eval(final(self).list@),
            final(self).list@.to_multiset() == old(self).list@.to_multiset(),
            final(self).list@.len() == old(self).list@.len(),
            final(self).function@ == old(self).function@,
            final(self).phase == old(self).phase,
            final(self).times@ == old(self).times@,
            final(self).eval_max_history@ == old(self).eval_max_history@,
            final(self).eval_min_history@ == old(self).eval_min_history@,
            final(self).eval_ave_history@ == old(self).eval_ave_history@,
    {
        sort_vec(&mut self.list);
        proof {
            lemma_sort_genomes_props(old(self).list@);
        }
    }

    /// Produces `parents_number` parent pairs: each pair couples a
    /// uniformly random member with the member at the next index in the
    /// current order, so right after `order` the second parents are the
    /// fittest. Asking for more pairs than there are members is rejected.
    pub fn couple(&self, parents_number: usize) -> (r: Result<Vec<(Genome, Genome)>, GAError>)
        ensures
            match r {
                Ok(pairs) => {
                    &&& parents_number <= self.list@.len()
                    &&& pairs@.len() == parents_number
                    &&& forall|i: int|
                        0 <= i < pairs@.len() ==> genome_eq((#[trigger] pairs@[i]).1, self.list@[i])
                    &&& forall|i: int|
                        0 <= i < pairs@.len() ==> is_member_copy((#[trigger] pairs@[i]).0,
                        self.list@)
                },
                Err(e) => parents_number > self.list@.len() && e
                    == GAError::PairCountExceedsPopulation,
            },
    {
        if parents_number > self.list.len() {
            return Err(GAError::PairCountExceedsPopulation);
        }
        let mut parents: Vec<(Genome, Genome)> = Vec::new();
        let mut i: usize = 0;
        while i < parents_number
            invariant
                parents_number <= self.list@.len(),
                i <= parents_number,
                parents@.len() == i,
                forall|k: int|
                    0 <= k < parents@.len() ==> genome_eq((#[trigger] parents@[k]).1,
                    self.list@[k]),
                forall|k: int|
                    0 <= k < parents@.len() ==> is_member_copy((#[trigger] parents@[k]).0,
                    self.list@),
            decreases parents_number - i,
        {
            let j = random_below(self.list.len());
            let chosen = self.list[j].clone();
            let elite = self.list[i].clone();
            parents.push((chosen, elite));
            proof {
                assert(genome_eq(parents@[i as int].0, self.list@[j as int]));
                assert(is_member_copy(parents@[i as int].0, self.list@));
            }
            i = i + 1;
        }
        Ok(parents)
    }

    /// Replaces the worst `children.len()` members — the tail of the
    /// fitness-sorted order — with the children, keeping the population
    /// size exactly, then mutates every member. Each surviving gene is
    /// either kept or redrawn inside `[min, max]`, and every cached
    /// fitness stays exact.
    pub fn create_next_generation(&mut self, children: Vec<Genome>, gene_mutate: u64, min: u64, max:
        u64)
        requires
            children@.len() <= old(self).list@.len(),
            min <= max,
            old(self).config_wf(),
            old(self).members_fresh(),
            forall|i: int|
                0 <= i < children@.len() ==> (#[trigger] children@[i].eval)
                    == old(self).function@[old(self).phase - 1].spec_score(children@[i].dna@),
        ensures
            final(self).list@.len() == old(self).list@.len(),
            final(self).config_wf(),
            final(self).members_fresh(),
            forall|i: int|
                0 <= i < final(self).list@.len() ==> (#[trigger] final(self).list@[i]).dna@.len()
                    == spliced_source(old(self).list@, children@, i).dna@.len(),
            forall|i: int, k: int|
                0 <= i < final(self).list@.len() && 0 <= k < final(self).list@[i].dna@.len()
                    ==> (#[trigger] final(self).list@[i].dna@[k]) == spliced_source(
                    old(self).list@, children@, i).dna@[k] || (min
                    <= final(self).list@[i].dna@[k] <= max),
            gene_mutate == 0 ==> forall|i: int|
                0 <= i < final(self).list@.len() ==> genome_eq(
                    #[trigger] final(self).list@[i],
                    spliced_source(old(self).list@, children@, i),
                ),
            final(self).function@ == old(self).function@,
            final(self).phase == old(self).phase,
            final(self).times@ == old(self).times@,
            final(self).eval_max_history@ == old(self).eval_max_history@,
            final(self).eval_min_history@ == old(self).eval_min_history@,
            final(self).eval_ave_history@ == old(self).eval_ave_history@,
    {
        let n = self.list.len();
        let c = children.len();
        let start = n - c;
        let ghost kids = children@;
        self.list.truncate(start);
        proof {
            assert(self.list@ =~= old(self).list@.subrange(0, start as int) + kids.subrange(
                0, 0));
        }
        let mut rest = children;
        let mut j: usize = 0;
        while j < c
            invariant
                c == kids.len(),
                n == old(self).list@.len(),
                start == n - c,
                j <= c,
                rest@ == kids.subrange(j as int, c as int),
                self.list@ == old(self).list@.subrange(0, start as int) + kids.subrange(
                    0, j as int),
                self.function@ == old(self).function@,
                self.phase == old(self).phase,
                self.times@ == old(self).times@,
                self.eval_max_history@ == old(self).eval_max_history@,
                self.eval_min_history@ == old(self).eval_min_history@,
                self.eval_ave_history@ == old(self).eval_ave_history@,
            decreases c - j,
        {
            let child = rest.remove(0);
            self.list.push(child);
            proof {
                assert(child == kids[j as int]);
                assert(kids.subrange(j as int, c as int).remove(0) =~= kids.subrange(
                    j + 1, c as int));
                assert(old(self).list@.subrange(0, start as int) + kids.subrange(0, j + 1) =~= (
                old(self).list@.subrange(0, start as int) + kids.subrange(0, j as int)).push(
                    kids[j as int]));
            }
            j = j + 1;
        }
        proof {
            assert(kids.subrange(0, c as int) =~= kids);
            assert forall|i: int| 0 <= i < self.list@.len() implies (#[trigger] self.list@[i])
                == spliced_source(old(self).list@, kids, i) by {}
        }
        let mut i: usize = 0;
        while i < self.list.len()
            invariant
                min <= max,
                self.list@.len() == n,
                n == old(self).list@.len(),
                c == children@.len(),
                self.config_wf(),
                forall|k: int|
                    0 <= k < children@.len() ==> (#[trigger] children@[k].eval)
                        == self.function@[self.phase - 1].spec_score(children@[k].dna@),
                forall|k: int|
                    0 <= k < old(self).list@.len() ==> (#[trigger] old(self).list@[k].eval)
                        == self.function@[self.phase - 1].spec_score(old(self).list@[k].dna@),
                i <= n,
                forall|k: int|
                    i <= k < n ==> (#[trigger] self.list@[k]) == spliced_source(
                        old(self).list@, children@, k),
                forall|k: int|
                    0 <= k < i ==> (#[trigger] self.list@[k]).dna@.len() == spliced_source(
                        old(self).list@, children@, k).dna@.len(),
                forall|k: int, m: int|
                    0 <= k < i && 0 <= m < self.list@[k].dna@.len() ==> (#[trigger] self.list@[
                    k].dna@[m]) == spliced_source(old(self).list@, children@, k).dna@[m] || (
                    min <= self.list@[k].dna@[m] <= max),
                forall|k: int|
                    0 <= k < i ==> (#[trigger] self.list@[k].eval) == self.function@[self.phase
                        - 1].spec_score(self.list@[k].dna@),
                gene_mutate == 0 ==> forall|k: int|
                    0 <= k < i ==> genome_eq(
                        #[trigger] self.list@[k],
                        spliced_source(old(self).list@, children@, k),
                    ),
                self.function@ == old(self).function@,
                self.phase == old(self).phase,
                self.times@ == old(self).times@,
                self.eval_max_history@ == old(self).eval_max_history@,
                self.eval_min_history@ == old(self).eval_min_history@,
                self.eval_ave_history@ == old(self).eval_ave_history@,
            decreases n - i,
        {
            let ghost source = spliced_source(old(self).list@, children@, i as int);
            let ghost pre = self.list@;
            let phase = self.phase;
            let mut member = self.list[i].clone();
            member.mutate(gene_mutate, min, max, &self.function, phase);
            self.list[i] = member;
            proof {
                assert(self.list@ =~= pre.update(i as int, self.list@[i as int]));
            }
            i = i + 1;
        }
    }
}

/// The member the next generation starts from at an index: the old member
/// for the surviving head, the child for the replaced tail.
pub open spec fn spliced_source(olds: Seq<Genome>, children: Seq<Genome>, i: int) -> Genome {
    if i < olds.len() - children.len() {
        olds[i]
    } else {
        children[i - (olds.len() - children.len())]
    }
}

/// Sorts a genome vector in place by cached fitness, moving the members
/// one by one into their ordered position.
fn sort_vec(v: &mut Vec<Genome>)
    ensures
        final(v)@ == sort_genomes(old(v)@),
{
    let ghost orig = v@;
    let mut out: Vec<Genome> = Vec::new();
    let ghost mut idx: int = 0;
    while v.len() > 0
        invariant
            0 <= idx <= orig.len(),
            v@ == orig.subrange(idx, orig.len() as int),
            out@ == sort_genomes(orig.subrange(0, idx)),
            sorted_by_eval(out@),
            out@.len() == idx,
        decreases v@.len(),
    {
        proof {
            assert(v@.len() == orig.subrange(idx, orig.len() as int).len());
            assert(idx < orig.len());
        }
        let g = v.remove(0);
        proof {
            assert(g == orig[idx]);
            assert(orig.subrange(idx, orig.len() as int).remove(0) =~= orig.subrange(
                idx + 1, orig.len() as int));
        }
        let mut k: usize = 0;
        while k < out.len() && out[k].eval <= g.eval
            invariant
                k <= out@.len(),
                forall|m: int| 0 <= m < k ==> (#[trigger] out@[m]).eval <= g.eval,
            decreases out@.len() - k,
        {
            k = k + 1;
        }
        proof {
            lemma_insert_ordered_at(out@, g, k as int);
            lemma_insert_ordered_props(out@, g);
            assert(orig.subrange(0, idx + 1).drop_last() =~= orig.subrange(0, idx));
            assert(orig.subrange(0, idx + 1).last() == orig[idx]);
        }
        out.insert(k, g);
        proof {
            idx = idx + 1;
        }
    }
    proof {
        assert(idx == orig.len());
        assert(orig.subrange(0, orig.len() as int) =~= orig);
    }
    *v = out;
}

} // verus!
