use optimigation::genome::Genome;
use optimigation::population::{max_of, min_of, GenomeList};
use optimigation::system::best_index;
use optimigation::scorer::{get_ave, sum, MeanDistance, Scorer, RATE_SCALE};
use optimigation::GAError;

fn scorers(target: u64) -> Vec<MeanDistance> {
    vec![MeanDistance { target }]
}

// Fitness under MeanDistance, used to build honest hand-made genomes.
fn score_of(dna: &Vec<u64>, target: u64) -> u64 {
    MeanDistance { target }.score(dna)
}

fn genome(dna: Vec<u64>, target: u64) -> Genome {
    let eval = score_of(&dna, target);
    Genome { dna, eval }
}

#[test]
fn sum_and_ave_exact() {
    assert_eq!(sum(&vec![2, 4, 6]), 12);
    assert_eq!(sum(&vec![]), 0);
    assert_eq!(get_ave(&vec![2, 4, 6]), 4);
    assert_eq!(get_ave(&vec![2, 5]), 3); // truncated mean
    assert_eq!(get_ave(&vec![]), 0);
}

#[test]
fn mean_distance_exact() {
    assert_eq!(score_of(&vec![2, 4], 5), 2);
    assert_eq!(score_of(&vec![10, 10], 10), 0);
    assert_eq!(score_of(&vec![0, 0], 7), 7);
}

#[test]
fn fresh_genome_genes_in_range() {
    let fs = scorers(0);
    let g = Genome::new(40, 3, 7, &fs).unwrap();
    assert_eq!(g.dna.len(), 40);
    for &gene in g.dna.iter() {
        assert!((3..=7).contains(&gene));
    }
    assert_eq!(g.eval, score_of(&g.dna, 0));
}

#[test]
fn fresh_genome_degenerate_range() {
    // A one-point range leaves the uniform draw no choice at all.
    let fs = scorers(0);
    let g = Genome::new(6, 7, 7, &fs).unwrap();
    assert_eq!(g.dna, vec![7, 7, 7, 7, 7, 7]);
    assert_eq!(g.eval, 7);
}

#[test]
fn genome_new_without_scorer_fails() {
    let fs: Vec<MeanDistance> = Vec::new();
    let r = Genome::new(5, 0, 10, &fs);
    assert_eq!(r.unwrap_err(), GAError::MissingFitnessFunction);
}

#[test]
fn population_new_without_scorer_fails_fast() {
    let fs: Vec<MeanDistance> = Vec::new();
    let r = GenomeList::new(10, 5, 0, 10, fs);
    assert_eq!(r.unwrap_err(), GAError::MissingFitnessFunction);
}

#[test]
fn population_new_seeds_and_records_statistics() {
    let world = GenomeList::new(30, 4, 2, 9, scorers(5)).unwrap();
    assert_eq!(world.list.len(), 30);
    assert_eq!(world.phase, 1);
    assert_eq!(world.times, vec![1]);
    for g in world.list.iter() {
        assert_eq!(g.dna.len(), 4);
        for &gene in g.dna.iter() {
            assert!((2..=9).contains(&gene));
        }
        assert_eq!(g.eval, score_of(&g.dna, 5));
    }
    let evals: Vec<u64> = world.list.iter().map(|g| g.eval).collect();
    assert_eq!(world.eval_max_history, vec![*evals.iter().max().unwrap()]);
    assert_eq!(world.eval_min_history, vec![*evals.iter().min().unwrap()]);
    let total: u64 = evals.iter().sum();
    assert_eq!(world.eval_ave_history, vec![total / evals.len() as u64]);
}

#[test]
fn order_sorts_and_is_idempotent() {
    let mut world = GenomeList::new(25, 3, 0, 100, scorers(50)).unwrap();
    world.order();
    let once: Vec<(Vec<u64>, u64)> =
        world.list.iter().map(|g| (g.dna.clone(), g.eval)).collect();
    for w in once.windows(2) {
        assert!(w[0].1 <= w[1].1);
    }
    world.order();
    let twice: Vec<(Vec<u64>, u64)> =
        world.list.iter().map(|g| (g.dna.clone(), g.eval)).collect();
    assert_eq!(once, twice);
}

#[test]
fn order_is_stable_for_equal_fitness() {
    let target = 0;
    let mut world = GenomeList::new(1, 2, 0, 10, scorers(target)).unwrap();
    // Same fitness, different genes: their relative order must survive.
    world.list = vec![
        genome(vec![4, 4], target),
        genome(vec![2, 6], target),
        genome(vec![0, 0], target),
    ];
    world.order();
    assert_eq!(world.list[0].dna, vec![0, 0]);
    assert_eq!(world.list[1].dna, vec![4, 4]);
    assert_eq!(world.list[2].dna, vec![2, 6]);
}

#[test]
fn couple_pairs_with_current_order() {
    let mut world = GenomeList::new(12, 3, 0, 50, scorers(25)).unwrap();
    world.order();
    let pairs = world.couple(5).unwrap();
    assert_eq!(pairs.len(), 5);
    for (i, (random_parent, elite)) in pairs.iter().enumerate() {
        assert_eq!(elite.dna, world.list[i].dna);
        assert_eq!(elite.eval, world.list[i].eval);
        assert!(world
            .list
            .iter()
            .any(|g| g.dna == random_parent.dna && g.eval == random_parent.eval));
    }
}

#[test]
fn couple_rejects_too_many_pairs() {
    let world = GenomeList::new(8, 3, 0, 50, scorers(25)).unwrap();
    let r = world.couple(9);
    assert_eq!(r.unwrap_err(), GAError::PairCountExceedsPopulation);
    assert!(world.couple(8).is_ok());
}

#[test]
fn step_n_alternates_blocks() {
    let target = 0;
    let fs = scorers(target);
    let p1 = genome(vec![10, 11, 12, 13, 14, 15, 16], target);
    let p2 = genome(vec![20, 21, 22, 23, 24, 25, 26], target);
    let child = p1.step_n(&p2, 2, &fs, 1);
    assert_eq!(child.dna, vec![10, 11, 22, 23, 14, 15, 26]);
    assert_eq!(child.eval, score_of(&child.dna, target));
}

#[test]
fn step_n_wide_block_copies_first_parent() {
    let target = 0;
    let fs = scorers(target);
    let p1 = genome(vec![1, 2, 3], target);
    let p2 = genome(vec![7, 8, 9], target);
    let child = p1.step_n(&p2, 5, &fs, 1);
    assert_eq!(child.dna, vec![1, 2, 3]);
}

#[test]
fn randomly_takes_each_gene_from_one_parent() {
    let target = 0;
    let fs = scorers(target);
    let p1 = genome(vec![1, 3, 5, 7, 9, 11, 13, 15], target);
    let p2 = genome(vec![2, 4, 6, 8, 10, 12, 14, 16], target);
    let child = p1.randomly(&p2, &fs, 1);
    assert_eq!(child.dna.len(), 8);
    for i in 0..8 {
        let g = child.dna[i];
        assert!(g == p1.dna[i] || g == p2.dna[i]);
    }
    assert_eq!(child.eval, score_of(&child.dna, target));
}

#[test]
fn average_is_componentwise_mean() {
    let target = 0;
    let fs = scorers(target);
    let p1 = genome(vec![1, 3, 100], target);
    let p2 = genome(vec![2, 5, 0], target);
    let child = p1.average(&p2, &fs, 1);
    assert_eq!(child.dna, vec![1, 4, 50]);
    assert_eq!(child.eval, score_of(&child.dna, target));
}

#[test]
fn next_generation_preserves_population_size() {
    for children_count in [0usize, 3, 10] {
        let mut world = GenomeList::new(10, 3, 0, 50, scorers(25)).unwrap();
        world.order();
        let mut children = Vec::new();
        for _ in 0..children_count {
            children.push(genome(vec![25, 25, 25], 25));
        }
        world.create_next_generation(children, RATE_SCALE / 10, 0, 50);
        assert_eq!(world.list.len(), 10);
    }
}

#[test]
fn next_generation_replaces_the_worst_tail() {
    let target = 0;
    let mut world = GenomeList::new(1, 2, 0, 100, scorers(target)).unwrap();
    world.list = vec![
        genome(vec![0, 0], target),
        genome(vec![10, 10], target),
        genome(vec![90, 90], target),
    ];
    let children = vec![genome(vec![5, 5], target)];
    // Mutation rate zero: the splice is the only change.
    world.create_next_generation(children, 0, 0, 100);
    assert_eq!(world.list.len(), 3);
    assert_eq!(world.list[0].dna, vec![0, 0]);
    assert_eq!(world.list[1].dna, vec![10, 10]);
    assert_eq!(world.list[2].dna, vec![5, 5]);
}

#[test]
fn mutation_keeps_genes_inside_the_range() {
    let target = 0;
    let fs = scorers(target);
    let mut g = genome(vec![50, 50, 50, 50, 50], target);
    // Certain mutation: every gene is redrawn inside [1, 3].
    g.mutate(RATE_SCALE, 1, 3, &fs, 1);
    for &gene in g.dna.iter() {
        assert!((1..=3).contains(&gene));
    }
    assert_eq!(g.eval, score_of(&g.dna, target));
}

#[test]
fn zero_mutation_rate_changes_nothing() {
    let target = 7;
    let fs = scorers(target);
    let mut g = genome(vec![4, 9, 2], target);
    let dna_before = g.dna.clone();
    let eval_before = g.eval;
    g.mutate(0, 0, 100, &fs, 1);
    assert_eq!(g.dna, dna_before);
    assert_eq!(g.eval, eval_before);
}

#[test]
fn ga_loop_rejects_bad_crossover_type() {
    let mut world = GenomeList::new(10, 3, 0, 50, scorers(25)).unwrap();
    let r = world.ga_loop(4, -2, RATE_SCALE / 10, 0, 50, 1, 100);
    assert_eq!(r.unwrap_err(), GAError::InvalidCrossoverType);
}

#[test]
fn ga_loop_rejects_too_many_pairs() {
    let mut world = GenomeList::new(10, 3, 0, 50, scorers(25)).unwrap();
    let r = world.ga_loop(11, 0, RATE_SCALE / 10, 0, 50, 1, 100);
    assert_eq!(r.unwrap_err(), GAError::PairCountExceedsPopulation);
}

#[test]
fn ga_loop_end_to_end() {
    // Gene unit: thousandths. Range [0, 10.000], target mean 10.000,
    // mutation rate 0.1, uniform crossover, tolerance 0.2.
    let mut world = GenomeList::new(50, 5, 0, 10_000, scorers(10_000)).unwrap();
    let initial_best = world.eval_min_history[0];
    let run = world
        .ga_loop(25, 0, RATE_SCALE / 10, 0, 10_000, 200, 400)
        .unwrap();
    assert_eq!(world.list.len(), 50);
    assert!(run.generations <= 400);
    if run.converged {
        assert!(run.best.eval < 200);
    } else {
        assert_eq!(run.generations, 400);
    }
    // Never worse than the best of the seeded generation.
    assert!(run.best.eval <= initial_best);
    assert_eq!(run.best.eval, score_of(&run.best.dna, 10_000));
}

#[test]
fn ga_loop_average_and_block_crossover_run() {
    for cross_type in [-1i8, 2] {
        let mut world = GenomeList::new(20, 4, 0, 1_000, scorers(500)).unwrap();
        let initial_best = world.eval_min_history[0];
        let run = world
            .ga_loop(8, cross_type, RATE_SCALE / 20, 0, 1_000, 5, 60)
            .unwrap();
        assert!(run.best.eval <= initial_best);
        assert_eq!(world.list.len(), 20);
    }
}

#[test]
fn add_registers_another_phase() {
    let mut world = GenomeList::new(5, 3, 0, 50, scorers(25)).unwrap();
    world.add(MeanDistance { target: 0 });
    assert_eq!(world.function.len(), 2);
    assert_eq!(world.function[1].target, 0);
}

#[test]
fn extremes_of_vectors() {
    assert_eq!(max_of(&vec![3, 9, 1, 9, 4]), 9);
    assert_eq!(min_of(&vec![3, 9, 1, 0, 4]), 0);
    assert_eq!(max_of(&vec![5]), 5);
    assert_eq!(min_of(&vec![5]), 5);
}

#[test]
fn best_index_finds_a_fittest_member() {
    let target = 0;
    let v = vec![
        genome(vec![9, 9], target),
        genome(vec![1, 1], target),
        genome(vec![5, 5], target),
    ];
    let i = best_index(&v);
    assert_eq!(i, 1);
    assert_eq!(v[i].eval, 1);
}
