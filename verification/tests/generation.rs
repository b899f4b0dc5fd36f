use tetrs_engine::generation::{
    bag_weights, recency_weights, sample_bag_index, sample_index_for, sample_uniform, tetromino_at, BagGen,
    RandomGen, RecencyProbGen, TetrominoGenerator, TetrominoSampler,
};
use tetrs_engine::pieces::Tetromino;

struct Fixed(usize);

impl TetrominoSampler for Fixed {
    fn sample_index(&mut self, _generator: &TetrominoGenerator) -> usize {
        self.0
    }
}

#[test]
fn bag_hands_out_each_kind_multiplicity_times() {
    let mut g = TetrominoGenerator::bag(2);
    let mut counts = [0u32; 7];
    let mut sampler = Fixed(3);
    for _ in 0..14 {
        let t = g.next_with(&mut sampler);
        counts[t.index()] += 1;
    }
    assert_eq!(counts, [2; 7]);
    assert_eq!(g, TetrominoGenerator::Bag { pieces_left: [2; 7], multiplicity: 2 });
}

#[test]
fn bag_falls_back_to_lowest_admitted() {
    let mut g = TetrominoGenerator::Bag { pieces_left: [0, 0, 1, 0, 0, 0, 1], multiplicity: 1 };
    assert!(!g.admits(0));
    assert!(g.admits(2));
    assert_eq!(g.first_admitted(), 2);
    assert_eq!(g.next_with(&mut Fixed(0)), Tetromino::S);
    assert_eq!(g, TetrominoGenerator::Bag { pieces_left: [0, 0, 0, 0, 0, 0, 1], multiplicity: 1 });
    assert_eq!(g.next_with(&mut Fixed(6)), Tetromino::J);
    assert_eq!(g, TetrominoGenerator::Bag { pieces_left: [1; 7], multiplicity: 1 });
}

#[test]
fn recency_register_resets_drawn_and_ages_others() {
    let mut g = TetrominoGenerator::Recency { last_generated: [0, 1, 2, 3, 4, 5, 6] };
    assert_eq!(g.register(4), Tetromino::T);
    assert_eq!(g, TetrominoGenerator::Recency { last_generated: [1, 2, 3, 4, 0, 6, 7] });
}

#[test]
fn total_relative_rebalances_to_zero_minimum() {
    let mut g = TetrominoGenerator::TotalRelative { relative_counts: [1, 1, 1, 1, 1, 1, 0] };
    assert_eq!(g.register(6), Tetromino::J);
    assert_eq!(g, TetrominoGenerator::TotalRelative { relative_counts: [0; 7] });
    assert_eq!(g.register(0), Tetromino::O);
    assert_eq!(g, TetrominoGenerator::TotalRelative { relative_counts: [1, 0, 0, 0, 0, 0, 0] });
}

#[test]
fn fresh_generators() {
    assert_eq!(TetrominoGenerator::uniform(), TetrominoGenerator::Uniform);
    assert_eq!(TetrominoGenerator::total_relative(), TetrominoGenerator::TotalRelative { relative_counts: [0; 7] });
    match TetrominoGenerator::recency() {
        TetrominoGenerator::Recency { last_generated } => {
            let mut v = last_generated.to_vec();
            v.sort();
            assert_eq!(v, vec![0, 1, 2, 3, 4, 5, 6]);
        }
        other => panic!("unexpected generator {:?}", other),
    }
    let cloned = TetrominoGenerator::Bag { pieces_left: [0, 1, 0, 0, 0, 0, 0], multiplicity: 3 }.clone();
    assert_eq!(cloned, TetrominoGenerator::Bag { pieces_left: [3; 7], multiplicity: 3 });
}

#[test]
fn random_draws_stay_in_range() {
    let mut rng = rand::thread_rng();
    for _ in 0..200 {
        assert!(sample_uniform(&mut rng) < 7);
        let left = [0, 5, 0, 0, 2, 0, 0];
        let i = sample_bag_index(&mut rng, &left);
        assert!(i == 1 || i == 4);
    }
}

#[test]
fn random_gen_draws_tetrominos() {
    let mut g = RandomGen::new();
    for _ in 0..50 {
        assert!(g.next().is_some());
    }
}

#[test]
fn bag_gen_hands_out_full_bags() {
    let mut g = BagGen::new(1);
    for _ in 0..3 {
        let mut seen: Vec<usize> = (0..7).map(|_| g.next().unwrap().index()).collect();
        seen.sort();
        assert_eq!(seen, vec![0, 1, 2, 3, 4, 5, 6]);
    }
}

#[test]
fn recency_prob_gen_never_repeats_immediately() {
    let mut g = RecencyProbGen::new();
    let mut last = g.next().unwrap();
    for _ in 0..100 {
        let t = g.next().unwrap();
        assert_ne!(t, last);
        last = t;
    }
}

#[test]
fn recency_starts_from_a_shuffled_ranking() {
    let shuffled = (0..100).any(|_| match TetrominoGenerator::recency() {
        TetrominoGenerator::Recency { last_generated } => last_generated != [0, 1, 2, 3, 4, 5, 6],
        _ => false,
    });
    assert!(shuffled);
}

#[test]
fn recency_never_draws_the_piece_generated_last() {
    let mut g = TetrominoGenerator::Recency { last_generated: [3, 0, 2, 1, 4, 5, 6] };
    // The I piece was generated last (weight zero): proposing it gives the lowest admitted kind.
    assert_eq!(g.next_from(1), Tetromino::O);
    assert_eq!(g, TetrominoGenerator::Recency { last_generated: [0, 1, 3, 2, 5, 6, 7] });
    assert_eq!(g.next_from(0), Tetromino::I);
    assert_eq!(g, TetrominoGenerator::Recency { last_generated: [1, 0, 4, 3, 6, 7, 8] });
    // An admitted proposal is used as it is.
    assert_eq!(g.next_from(6), Tetromino::J);
}

#[test]
fn next_from_uses_an_admitted_proposal() {
    let mut g = TetrominoGenerator::Bag { pieces_left: [1, 0, 1, 0, 0, 0, 0], multiplicity: 1 };
    assert_eq!(g.next_from(2), Tetromino::S);
    assert_eq!(g, TetrominoGenerator::Bag { pieces_left: [1, 0, 0, 0, 0, 0, 0], multiplicity: 1 });
    assert_eq!(g.next_from(5), Tetromino::O);
    assert_eq!(g, TetrominoGenerator::Bag { pieces_left: [1; 7], multiplicity: 1 });
}

#[test]
fn bag_gen_take_hands_out_the_kind_and_refills() {
    let mut b = BagGen::new(1);
    for i in 0..7 {
        assert_eq!(b.take(i), tetromino_at(i));
    }
    // Refilled: every kind can be taken again.
    assert_eq!(b.take(6), Tetromino::J);
    assert!(b.next().is_some());
}

#[test]
fn recency_prob_gen_record_resets_the_played_kind() {
    let mut g = RecencyProbGen::new();
    assert_eq!(g.record(2), Tetromino::S);
    for _ in 0..20 {
        let t = g.next().unwrap();
        assert_ne!(t, Tetromino::S);
        let i = t.index();
        assert_eq!(g.record(2), Tetromino::S);
        let _ = i;
    }
}

#[test]
fn sampling_by_generator() {
    let mut rng = rand::thread_rng();
    for _ in 0..20 {
        assert!(sample_index_for(&mut rng, &TetrominoGenerator::Uniform).unwrap() < 7);
        let bag = TetrominoGenerator::Bag { pieces_left: [0, 0, 1, 0, 0, 0, 0], multiplicity: 1 };
        assert_eq!(sample_index_for(&mut rng, &bag), Some(2));
    }
    let empty = TetrominoGenerator::Bag { pieces_left: [0; 7], multiplicity: 1 };
    assert_eq!(sample_index_for(&mut rng, &empty), None);
    assert_eq!(sample_index_for(&mut rng, &TetrominoGenerator::recency()), None);
    assert_eq!(sample_index_for(&mut rng, &TetrominoGenerator::total_relative()), None);
}

#[test]
fn every_block_of_a_bag_hands_out_each_kind_once() {
    let mut g = TetrominoGenerator::bag(1);
    let mut sampler = Fixed(5);
    for _ in 0..3 {
        let mut counts = [0u32; 7];
        for _ in 0..7 {
            counts[g.next_with(&mut sampler).index()] += 1;
        }
        assert_eq!(counts, [1; 7]);
    }
}

#[test]
fn draw_weights() {
    assert_eq!(bag_weights(&[0, 3, 1, 0, 2, 0, 5]), [0, 1, 1, 0, 1, 0, 1]);
    assert_eq!(bag_weights(&[2; 7]), [1; 7]);
    assert_eq!(recency_weights(&[0, 1, 2, 3, 4, 5, 6]), [0, 1, 4, 9, 16, 25, 36]);
}

#[test]
fn a_cloned_recency_generator_starts_from_a_fresh_ranking() {
    let g = TetrominoGenerator::Recency { last_generated: [9, 0, 9, 9, 9, 9, 9] };
    match g.clone() {
        TetrominoGenerator::Recency { last_generated } => {
            let mut sorted = last_generated;
            sorted.sort();
            assert_eq!(sorted, [0, 1, 2, 3, 4, 5, 6]);
        }
        _ => panic!("not a recency generator"),
    }
}

#[test]
fn a_bag_stays_within_its_multiplicity() {
    let mut g = TetrominoGenerator::bag(2);
    let mut sampler = Fixed(6);
    for _ in 0..40 {
        g.next_with(&mut sampler);
        match &g {
            TetrominoGenerator::Bag { pieces_left, multiplicity } => {
                assert!(pieces_left.iter().all(|&c| c <= *multiplicity));
                assert!(pieces_left.iter().any(|&c| c > 0));
            }
            _ => panic!("not a bag"),
        }
    }
}
