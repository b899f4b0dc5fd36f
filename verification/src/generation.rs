//! Tetromino generation: the state of each generation method, how a draw updates it, and the
//! random draws themselves.

use vstd::prelude::*;
use rand::Rng;
use rand::distributions::Distribution;
use rand::seq::SliceRandom;
use rand::rngs::ThreadRng;
use crate::pieces::{Tetromino, tetromino_of_index};

verus! {

#[verifier::external_type_specification]
#[verifier::external_body]
pub struct ExThreadRng(rand::rngs::ThreadRng);

/// A handle on the thread-local random number generator of `rand` (`rand::thread_rng`).
/// Nothing is promised of it.
#[verifier::external_body]
fn fresh_rng() -> ThreadRng {
    rand::thread_rng()
}

/// Shuffles the values in place with `rand`'s `SliceRandom::shuffle`, which swaps elements
/// (Fisher-Yates): the result is a permutation of the input. Which one is left to chance.
#[verifier::external_body]
fn shuffle_values(values: &mut [u32; 7], rng: &mut ThreadRng)
    ensures
        final(values)@.to_multiset() == old(values)@.to_multiset(),
{
    values.shuffle(rng);
}

/// A uniformly random index in `0..n`, drawn with `rand`'s `Rng::gen_range` (which panics
/// only on an empty range). Only the range of the result is promised.
#[verifier::external_body]
fn sample_uniform_index(rng: &mut ThreadRng, n: usize) -> (r: usize)
    requires
        n > 0,
    ensures
        r < n,
{
    rng.gen_range(0..n)
}

/// The sum of the seven weights.
pub open spec fn weight_sum(w: Seq<u32>) -> int {
    w[0] + w[1] + w[2] + w[3] + w[4] + w[5] + w[6]
}

/// An index drawn with probability proportional to its weight, through `rand`'s
/// `WeightedIndex::new` and `Distribution::sample`. `WeightedIndex` only returns indices whose
/// weight is positive (the cumulative weight below the drawn point is strictly exceeded at the
/// returned index); which such index comes back is left to chance.
#[verifier::external_body]
fn sample_weighted_index(rng: &mut ThreadRng, weights: &[u32; 7]) -> (r: usize)
    requires
        weight_sum(weights@) <= u32::MAX,
        weight_sum(weights@) > 0,
    ensures
        r < 7,
        weights@[r as int] > 0,
{
    rand::distributions::WeightedIndex::new(weights).unwrap().sample(rng)
}

/// The method (and internal state) of tetromino generation.
#[derive(PartialEq, Eq, Debug, Hash, PartialOrd, Ord)]
pub enum TetrominoGenerator {
    /// Every tetromino equally likely.
    Uniform,
    /// Draws from a bag holding `multiplicity` copies of every tetromino, refilled once empty.
    Bag {
        /// How many copies of each tetromino are left in the bag.
        pieces_left: [u32; 7],
        /// How many copies of each tetromino a full bag holds (never zero).
        multiplicity: u32,
    },
    /// Favours tetrominos that have not been generated for a long time.
    Recency {
        /// How many draws ago each tetromino was last generated.
        last_generated: [u32; 7],
    },
    /// Favours tetrominos that have been generated less often than the others.
    TotalRelative {
        /// How often each tetromino has been generated, relative to the least generated one.
        relative_counts: [u32; 7],
    },
}

/// Whether all seven values are zero.
pub open spec fn all_zero(s: Seq<u32>) -> bool {
    forall|i: int| 0 <= i < 7 ==> s[i] == 0
}

/// The least of the first seven values.
pub open spec fn min7(s: Seq<u32>) -> u32 {
    let m01 = if s[0] <= s[1] { s[0] } else { s[1] };
    let m23 = if s[2] <= s[3] { s[2] } else { s[3] };
    let m45 = if s[4] <= s[5] { s[4] } else { s[5] };
    let m0123 = if m01 <= m23 { m01 } else { m23 };
    let m456 = if m45 <= s[6] { m45 } else { s[6] };
    if m0123 <= m456 { m0123 } else { m456 }
}

/// Seven copies of a value.
pub open spec fn seven(v: u32) -> Seq<u32> {
    seq![v, v, v, v, v, v, v]
}

/// Adds one, staying at `u32::MAX` once reached.
pub open spec fn sat_inc(v: u32) -> u32 {
    if v < u32::MAX { (v + 1) as u32 } else { v }
}

impl TetrominoGenerator {
    /// The generator's internal state is consistent.
    pub open spec fn wf(&self) -> bool {
        match self {
            TetrominoGenerator::Bag { pieces_left, multiplicity } => {
                &&& *multiplicity >= 1
                &&& !all_zero(pieces_left@)
            },
            TetrominoGenerator::Recency { last_generated } => !all_zero(last_generated@),
            _ => true,
        }
    }

    /// Whether a bag holds each kind at most `multiplicity` times (true of every other method):
    /// a bag made by [`Self::bag`] does, and every draw keeps it so.
    pub open spec fn within_multiplicity(&self) -> bool {
        match self {
            TetrominoGenerator::Bag { pieces_left, multiplicity } => forall|i: int|
                0 <= i < 7 ==> #[trigger] pieces_left@[i] <= *multiplicity,
            _ => true,
        }
    }

    /// Whether the tetromino with index `idx` can be generated next: any of the seven, but
    /// for a bag only one still in it, and by recency not the one generated last (whose
    /// weight is zero).
    pub open spec fn admits_spec(&self, idx: int) -> bool {
        &&& 0 <= idx < 7
        &&& match self {
            TetrominoGenerator::Bag { pieces_left, .. } => pieces_left@[idx] > 0,
            TetrominoGenerator::Recency { last_generated } => last_generated@[idx] > 0,
            _ => true,
        }
    }

    /// The lowest index from `i` on that the generator admits (`0` if there is none).
    pub open spec fn first_admitted_from(&self, i: int) -> int
        decreases 7 - i,
    {
        if i >= 7 {
            0
        } else if self.admits_spec(i) {
            i
        } else {
            self.first_admitted_from(i + 1)
        }
    }

    /// The lowest index that the generator admits.
    pub open spec fn first_admitted_spec(&self) -> int {
        self.first_admitted_from(0)
    }

    /// The index actually generated when `proposed` is proposed: the proposal if the
    /// generator admits it, else the lowest admitted index.
    pub open spec fn drawn_index(&self, proposed: int) -> int {
        if self.admits_spec(proposed) { proposed } else { self.first_admitted_spec() }
    }

    /// Whether `next` is the generator state after the tetromino with index `idx` was generated.
    pub open spec fn after_draw(&self, idx: int, next: TetrominoGenerator) -> bool {
        match self {
            TetrominoGenerator::Uniform => next == TetrominoGenerator::Uniform,
            TetrominoGenerator::Bag { pieces_left, multiplicity } => {
                let left = pieces_left@.update(idx, (pieces_left@[idx] - 1) as u32);
                next matches TetrominoGenerator::Bag { pieces_left: p, multiplicity: m }
                    && m == *multiplicity
                    && p@ == if all_zero(left) { seven(*multiplicity) } else { left }
            },
            TetrominoGenerator::Recency { last_generated } => {
                next matches TetrominoGenerator::Recency { last_generated: l }
                    && l@ == last_generated@.map_values(|v: u32| sat_inc(v)).update(idx, 0u32)
            },
            TetrominoGenerator::TotalRelative { relative_counts } => {
                let c = relative_counts@.update(idx, sat_inc(relative_counts@[idx]));
                next matches TetrominoGenerator::TotalRelative { relative_counts: rc }
                    && rc@ == c.map_values(|v: u32| (v - min7(c)) as u32)
            },
        }
    }

    /// Generates every tetromino with equal probability.
    pub fn uniform() -> (r: Self)
        ensures
            r == TetrominoGenerator::Uniform,
            r.wf(),
    {
        TetrominoGenerator::Uniform
    }

    /// A full bag with `multiplicity` copies of every tetromino.
    pub fn bag(multiplicity: u32) -> (r: Self)
        requires
            multiplicity >= 1,
        ensures
            r matches TetrominoGenerator::Bag { pieces_left, multiplicity: m }
                && m == multiplicity && pieces_left@ == seven(multiplicity),
            r.wf(),
            r.within_multiplicity(),
    {
        let m = multiplicity;
        let r = TetrominoGenerator::Bag { pieces_left: [m, m, m, m, m, m, m], multiplicity };
        assert([m, m, m, m, m, m, m]@ =~= seven(multiplicity));
        r
    }

    /// Recency-based generation, starting from a random ranking `0..7` of the tetrominos.
    pub fn recency() -> (r: Self)
        ensures
            r matches TetrominoGenerator::Recency { last_generated }
                && last_generated@.to_multiset() == seq![0u32, 1, 2, 3, 4, 5, 6].to_multiset(),
            r.wf(),
    {
        let mut last_generated: [u32; 7] = [0, 1, 2, 3, 4, 5, 6];
        let mut rng = fresh_rng();
        let ghost init = seq![0u32, 1, 2, 3, 4, 5, 6];
        assert(last_generated@ =~= init);
        shuffle_values(&mut last_generated, &mut rng);
        proof {
            let s = last_generated@;
            init.to_multiset_ensures();
            s.to_multiset_ensures();
            assert(init[1] == 1u32);
            assert(init.contains(1u32));
            assert(init.to_multiset().count(1u32) > 0);
            assert(s.to_multiset().count(1u32) > 0);
            assert(s.contains(1u32));
            let k = choose|k: int| 0 <= k < s.len() && s[k] == 1u32;
            assert(s[k] != 0);
        }
        TetrominoGenerator::Recency { last_generated }
    }

    /// Generation weighted by how often each tetromino has appeared, starting from equal counts.
    pub fn total_relative() -> (r: Self)
        ensures
            r matches TetrominoGenerator::TotalRelative { relative_counts }
                && relative_counts@ == seven(0),
            r.wf(),
    {
        let r = TetrominoGenerator::TotalRelative { relative_counts: [0, 0, 0, 0, 0, 0, 0] };
        assert([0u32, 0, 0, 0, 0, 0, 0]@ =~= seven(0));
        r
    }

    /// Whether the tetromino with index `idx` can be generated next.
    pub fn admits(&self, idx: usize) -> (r: bool)
        ensures
            r == self.admits_spec(idx as int),
    {
        if idx >= 7 {
            return false;
        }
        match self {
            TetrominoGenerator::Bag { pieces_left, .. } => pieces_left[idx] > 0,
            TetrominoGenerator::Recency { last_generated } => last_generated[idx] > 0,
            _ => true,
        }
    }

    /// The lowest index that the generator admits.
    pub fn first_admitted(&self) -> (r: usize)
        requires
            self.wf(),
        ensures
            r == self.first_admitted_spec(),
            self.admits_spec(r as int),
            forall|j: int| 0 <= j < r ==> !self.admits_spec(j),
    {
        let mut i: usize = 0;
        while i < 7
            invariant
                i <= 7,
                self.wf(),
                forall|j: int| 0 <= j < i ==> !self.admits_spec(j),
                self.first_admitted_from(0) == self.first_admitted_from(i as int),
            decreases 7 - i,
        {
            if self.admits(i) {
                return i;
            }
            assert(self.first_admitted_from(i as int) == self.first_admitted_from(i + 1));
            i += 1;
        }
        proof {
            match self {
                TetrominoGenerator::Bag { pieces_left, .. } => {
                    assert forall|j: int| 0 <= j < 7 implies pieces_left@[j] == 0 by {
                        assert(!self.admits_spec(j));
                    }
                },
                TetrominoGenerator::Recency { last_generated } => {
                    assert forall|j: int| 0 <= j < 7 implies last_generated@[j] == 0 by {
                        assert(!self.admits_spec(j));
                    }
                },
                _ => {
                    assert(!self.admits_spec(0));
                },
            }
        }
        0
    }

    /// Records that the tetromino with index `idx` was generated and returns it.
    pub fn register(&mut self, idx: usize) -> (r: Tetromino)
        requires
            old(self).wf(),
            old(self).admits_spec(idx as int),
        ensures
            r == tetromino_of_index(idx as int),
            old(self).after_draw(idx as int, *final(self)),
            final(self).wf(),
    {
        match self {
            TetrominoGenerator::Uniform => {},
            TetrominoGenerator::Bag { pieces_left, multiplicity } => {
                let ghost old_left = pieces_left@;
                pieces_left[idx] = pieces_left[idx] - 1;
                let ghost left = pieces_left@;
                assert(left =~= old_left.update(idx as int, (old_left[idx as int] - 1) as u32));
                let mut empty = true;
                let mut i: usize = 0;
                while i < 7
                    invariant
                        i <= 7,
                        pieces_left@ == left,
                        empty == (forall|j: int| 0 <= j < i ==> left[j] == 0),
                    decreases 7 - i,
                {
                    if pieces_left[i] != 0 {
                        empty = false;
                    }
                    i += 1;
                }
                if empty {
                    let m = *multiplicity;
                    *pieces_left = [m, m, m, m, m, m, m];
                    assert(seven(*multiplicity) =~= pieces_left@);
                }
            },
            TetrominoGenerator::Recency { last_generated } => {
                let ghost old_v = last_generated@;
                let mut i: usize = 0;
                while i < 7
                    invariant
                        i <= 7,
                        last_generated@.len() == 7,
                        forall|j: int| 0 <= j < i ==> last_generated@[j] == sat_inc(old_v[j]),
                        forall|j: int| i <= j < 7 ==> last_generated@[j] == old_v[j],
                    decreases 7 - i,
                {
                    let v = last_generated[i];
                    last_generated[i] = if v < u32::MAX { v + 1 } else { v };
                    i += 1;
                }
                last_generated[idx] = 0;
                assert(last_generated@[if idx == 0 { 1int } else { 0int }] > 0);
                assert(last_generated@ =~= old_v.map_values(|v: u32| sat_inc(v)).update(
                    idx as int,
                    0u32,
                ));
            },
            TetrominoGenerator::TotalRelative { relative_counts } => {
                let ghost old_v = relative_counts@;
                let v = relative_counts[idx];
                relative_counts[idx] = if v < u32::MAX { v + 1 } else { v };
                let ghost c = relative_counts@;
                assert(c =~= old_v.update(idx as int, sat_inc(old_v[idx as int])));
                let m = min_of_seven(relative_counts);
                if m > 0 {
                    let mut i: usize = 0;
                    while i < 7
                        invariant
                            i <= 7,
                            relative_counts@.len() == 7,
                            m == min7(c),
                            forall|j: int| 0 <= j < 7 ==> m <= c[j],
                            forall|j: int| 0 <= j < i ==> relative_counts@[j] == c[j] - m,
                            forall|j: int| i <= j < 7 ==> relative_counts@[j] == c[j],
                        decreases 7 - i,
                    {
                        relative_counts[i] = relative_counts[i] - m;
                        i += 1;
                    }
                }
                assert(relative_counts@ =~= c.map_values(|v: u32| (v - m) as u32));
            },
        }
        tetromino_at(idx)
    }

    /// Generates the next tetromino from the proposed index: the proposal is used if the
    /// generator admits it (otherwise the lowest admitted index is used), and the draw is
    /// recorded.
    pub fn next_from(&mut self, proposed: usize) -> (r: Tetromino)
        requires
            old(self).wf(),
        ensures
            final(self).wf(),
            old(self).admits_spec(old(self).drawn_index(proposed as int)),
            r == tetromino_of_index(old(self).drawn_index(proposed as int)),
            old(self).after_draw(old(self).drawn_index(proposed as int), *final(self)),
            old(self).within_multiplicity() ==> final(self).within_multiplicity(),
    {
        let idx = if self.admits(proposed) { proposed } else { self.first_admitted() };
        let ghost before = *self;
        let r = self.register(idx);
        assert(before.admits_spec(idx as int));
        proof {
            if before.within_multiplicity() {
                lemma_draw_keeps_within(before, idx as int, *self);
            }
        }
        r
    }

    /// Draws the next tetromino: the sampler proposes an index, from which
    /// [`Self::next_from`] generates the tetromino.
    pub fn next_with<S: TetrominoSampler>(&mut self, sampler: &mut S) -> (r: Tetromino)
        requires
            old(self).wf(),
        ensures
            final(self).wf(),
            exists|proposed: usize| {
                let idx = #[trigger] old(self).drawn_index(proposed as int);
                &&& old(self).admits_spec(idx)
                &&& r == tetromino_of_index(idx)
                &&& old(self).after_draw(idx, *final(self))
            },
            old(self).within_multiplicity() ==> final(self).within_multiplicity(),
    {
        let proposed = sampler.sample_index(self);
        self.next_from(proposed)
    }
}

impl Clone for TetrominoGenerator {
    /// A fresh generator of the same method: the bag is refilled, the counts are reset and the
    /// recency ranking is drawn anew.
    fn clone(&self) -> (r: Self)
        ensures
            r.wf(),
            self is Uniform ==> r is Uniform,
            self is Bag && self->multiplicity >= 1 ==> (r matches TetrominoGenerator::Bag { pieces_left, multiplicity }
                && multiplicity == self->multiplicity && pieces_left@ == seven(multiplicity)),
            self is Recency ==> (r matches TetrominoGenerator::Recency { last_generated }
                && last_generated@.to_multiset() == seq![0u32, 1, 2, 3, 4, 5, 6].to_multiset()),
            self is TotalRelative ==> (r matches TetrominoGenerator::TotalRelative { relative_counts }
                && relative_counts@ == seven(0)),
    {
        match self {
            TetrominoGenerator::Uniform => TetrominoGenerator::uniform(),
            TetrominoGenerator::Bag { multiplicity, .. } => {
                if *multiplicity >= 1 {
                    TetrominoGenerator::bag(*multiplicity)
                } else {
                    TetrominoGenerator::bag(1)
                }
            },
            TetrominoGenerator::Recency { .. } => TetrominoGenerator::recency(),
            TetrominoGenerator::TotalRelative { .. } => TetrominoGenerator::total_relative(),
        }
    }
}

/// A draw keeps a bag within its multiplicity.
pub proof fn lemma_draw_keeps_within(g: TetrominoGenerator, idx: int, next: TetrominoGenerator)
    requires
        g.within_multiplicity(),
        g.admits_spec(idx),
        g.after_draw(idx, next),
    ensures
        next.within_multiplicity(),
{
    if let TetrominoGenerator::Bag { pieces_left, multiplicity } = g {
        let left = pieces_left@.update(idx, (pieces_left@[idx] - 1) as u32);
        assert forall|i: int| 0 <= i < 7 implies #[trigger] left[i] <= multiplicity by {
            assert(pieces_left@[i] <= multiplicity);
        }
    }
}

/// The tetromino with the given conventional index.
pub fn tetromino_at(idx: usize) -> (r: Tetromino)
    requires
        idx < 7,
    ensures
        r == tetromino_of_index(idx as int),
{
    match idx {
        0 => Tetromino::O,
        1 => Tetromino::I,
        2 => Tetromino::S,
        3 => Tetromino::Z,
        4 => Tetromino::T,
        5 => Tetromino::L,
        _ => Tetromino::J,
    }
}

/// The least of the seven values.
fn min_of_seven(v: &[u32; 7]) -> (r: u32)
    ensures
        r == min7(v@),
        forall|j: int| 0 <= j < 7 ==> r <= v@[j],
{
    let m01 = if v[0] <= v[1] { v[0] } else { v[1] };
    let m23 = if v[2] <= v[3] { v[2] } else { v[3] };
    let m45 = if v[4] <= v[5] { v[4] } else { v[5] };
    let m0123 = if m01 <= m23 { m01 } else { m23 };
    let m456 = if m45 <= v[6] { m45 } else { v[6] };
    if m0123 <= m456 { m0123 } else { m456 }
}

/// A source of random draws for a [`TetrominoGenerator`]: proposes the index (`0..7`) of the
/// next tetromino, given the generator's current state.
pub trait TetrominoSampler {
    /// Proposes the index of the next tetromino for the generator's current state.
    fn sample_index(&mut self, generator: &TetrominoGenerator) -> usize;
}

/// A uniformly random index of a tetromino, in `0..7`.
pub fn sample_uniform(rng: &mut ThreadRng) -> (r: usize)
    ensures
        r < 7,
{
    sample_uniform_index(rng, 7)
}

/// The weights of a draw from a bag: one for each kind still in it, zero for the others, so
/// that every kind left is equally likely (whatever the number of copies left).
pub open spec fn bag_weights_spec(pieces_left: Seq<u32>) -> Seq<u32> {
    Seq::new(7, |i: int| if pieces_left[i] > 0 { 1u32 } else { 0u32 })
}

/// The weights of a draw from a bag, as [`bag_weights_spec`] gives them.
pub fn bag_weights(pieces_left: &[u32; 7]) -> (w: [u32; 7])
    ensures
        w@ == bag_weights_spec(pieces_left@),
{
    let mut weights: [u32; 7] = [0, 0, 0, 0, 0, 0, 0];
    let mut i: usize = 0;
    while i < 7
        invariant
            i <= 7,
            forall|j: int| 0 <= j < i ==> weights@[j] == (if pieces_left@[j] > 0 { 1u32 } else { 0u32 }),
            forall|j: int| i <= j < 7 ==> weights@[j] == 0,
        decreases 7 - i,
    {
        weights[i] = if pieces_left[i] > 0 { 1 } else { 0 };
        i += 1;
    }
    assert(weights@ =~= bag_weights_spec(pieces_left@));
    weights
}

/// A random index of a tetromino that is still left in a bag, drawn with the weights of
/// [`bag_weights`]: each kind left is equally likely.
pub fn sample_bag_index(rng: &mut ThreadRng, pieces_left: &[u32; 7]) -> (r: usize)
    requires
        !all_zero(pieces_left@),
    ensures
        r < 7,
        pieces_left@[r as int] > 0,
{
    let weights = bag_weights(pieces_left);
    proof {
        let k = choose|k: int| 0 <= k < 7 && pieces_left@[k] != 0;
        assert(weights@[k] == 1);
        assert(forall|j: int| 0 <= j < 7 ==> weights@[j] <= 1);
    }
    sample_weighted_index(rng, &weights)
}

/// Whether some kind is left in the bag.
fn any_left(pieces_left: &[u32; 7]) -> (r: bool)
    ensures
        r == !all_zero(pieces_left@),
{
    let mut i: usize = 0;
    while i < 7
        invariant
            i <= 7,
            forall|j: int| 0 <= j < i ==> pieces_left@[j] == 0,
        decreases 7 - i,
    {
        if pieces_left[i] > 0 {
            return true;
        }
        i += 1;
    }
    false
}

/// A random proposal for the next tetromino of the generator, where it is drawn with integer
/// weights: uniformly for the uniform generator, uniformly among the kinds left for a bag.
/// `None` for an emptied bag, and for the recency and total-relative generators, whose
/// weights are floating-point numbers that the caller draws with.
pub fn sample_index_for(rng: &mut ThreadRng, generator: &TetrominoGenerator) -> (r: Option<usize>)
    ensures
        generator is Uniform ==> (r matches Some(i) && i < 7),
        generator matches TetrominoGenerator::Bag { pieces_left, .. } ==> if all_zero(pieces_left@) {
            r is None
        } else {
            r matches Some(i) && i < 7 && pieces_left@[i as int] > 0
        },
        generator is Recency || generator is TotalRelative ==> r is None,
{
    match generator {
        TetrominoGenerator::Uniform => Some(sample_uniform(rng)),
        TetrominoGenerator::Bag { pieces_left, .. } => {
            if any_left(pieces_left) {
                Some(sample_bag_index(rng, pieces_left))
            } else {
                None
            }
        },
        _ => None,
    }
}

/// Uniformly random tetromino generation.
#[derive(Debug)]
pub struct RandomGen {
    rng: ThreadRng,
}

impl RandomGen {
    /// A generator drawing from the thread-local random number generator.
    pub fn new() -> (r: Self) {
        RandomGen { rng: fresh_rng() }
    }

    /// The next tetromino: any of the seven, each equally likely.
    pub fn next(&mut self) -> (r: Option<Tetromino>)
        ensures
            r is Some,
    {
        let idx = sample_uniform(&mut self.rng);
        Some(tetromino_at(idx))
    }
}

/// Bag-system tetromino generation: `bag_multiplicity` copies of every tetromino are put in a
/// bag and handed out in random order; once the bag is empty it is refilled.
#[derive(Debug)]
pub struct BagGen {
    rng: ThreadRng,
    leftover: [u32; 7],
    bag_multiplicity: u32,
}

impl BagGen {
    /// The bag is never empty, holds at most `bag_multiplicity` copies of each tetromino, and
    /// its count never exceeds a `u32` (`7 * bag_multiplicity - 1` at most, between draws).
    pub closed spec fn wf(self) -> bool {
        &&& self.bag_multiplicity >= 1
        &&& 7 * self.bag_multiplicity - 1 <= u32::MAX
        &&& !all_zero(self.leftover@)
        &&& forall|i: int| 0 <= i < 7 ==> #[trigger] self.leftover@[i] <= self.bag_multiplicity
    }

    /// How many copies of each tetromino are left in the bag.
    pub closed spec fn leftover_spec(self) -> Seq<u32> {
        self.leftover@
    }

    /// How many copies of each tetromino a full bag holds.
    pub closed spec fn multiplicity_spec(self) -> u32 {
        self.bag_multiplicity
    }

    /// A full bag of `n` copies of every tetromino. (With more than `u32::MAX / 7` copies the
    /// bag's count would overflow.)
    pub fn new(n: u32) -> (r: Self)
        requires
            n >= 1,
            7 * n - 1 <= u32::MAX,
        ensures
            r.wf(),
            r.leftover_spec() == seven(n),
            r.multiplicity_spec() == n,
    {
        let r = BagGen { rng: fresh_rng(), leftover: [n, n, n, n, n, n, n], bag_multiplicity: n };
        assert([n, n, n, n, n, n, n]@ =~= seven(n));
        r
    }

    /// The bag after the tetromino with index `idx` was taken out of `left`: one copy fewer,
    /// refilled with `m` copies of each once empty.
    pub open spec fn taken(left: Seq<u32>, m: u32, idx: int) -> Seq<u32> {
        let rest = left.update(idx, (left[idx] - 1) as u32);
        if all_zero(rest) { seven(m) } else { rest }
    }

    /// Takes the tetromino with index `idx` out of the bag, refilling the bag once empty, and
    /// returns it.
    pub fn take(&mut self, idx: usize) -> (r: Tetromino)
        requires
            old(self).wf(),
            idx < 7,
            old(self).leftover_spec()[idx as int] > 0,
        ensures
            final(self).wf(),
            final(self).multiplicity_spec() == old(self).multiplicity_spec(),
            r == tetromino_of_index(idx as int),
            final(self).leftover_spec() == Self::taken(
                old(self).leftover_spec(),
                old(self).multiplicity_spec(),
                idx as int,
            ),
    {
        let ghost old_left = self.leftover@;
        let m = self.bag_multiplicity;
        let mut left = self.leftover;
        left[idx] = left[idx] - 1;
        assert(left@ =~= old_left.update(idx as int, (old_left[idx as int] - 1) as u32));
        let sum: u32 = left[0] + left[1] + left[2] + left[3] + left[4] + left[5] + left[6];
        if sum == 0 {
            assert(all_zero(left@));
            let full: [u32; 7] = [m, m, m, m, m, m, m];
            assert(full@ =~= seven(m));
            self.leftover = full;
        } else {
            assert(!all_zero(left@));
            self.leftover = left;
        }
        tetromino_at(idx)
    }

    /// The next tetromino: one that is still in the bag, each such kind being equally likely.
    /// It is taken out of the bag, which is refilled once empty.
    pub fn next(&mut self) -> (r: Option<Tetromino>)
        requires
            old(self).wf(),
        ensures
            final(self).wf(),
            final(self).multiplicity_spec() == old(self).multiplicity_spec(),
            exists|idx: int| {
                &&& 0 <= idx < 7
                &&& old(self).leftover_spec()[idx] > 0
                &&& r == Some(tetromino_of_index(idx))
                &&& final(self).leftover_spec() == #[trigger] Self::taken(
                    old(self).leftover_spec(),
                    old(self).multiplicity_spec(),
                    idx,
                )
            },
    {
        let idx = sample_bag_index(&mut self.rng, &self.leftover);
        let t = self.take(idx);
        assert(self.leftover_spec() == Self::taken(old(self).leftover_spec(), old(self).multiplicity_spec(), idx as int));
        Some(t)
    }
}

/// The sum of the squares of the seven values.
pub open spec fn square_sum(s: Seq<u32>) -> int {
    s[0] * s[0] + s[1] * s[1] + s[2] * s[2] + s[3] * s[3] + s[4] * s[4] + s[5] * s[5] + s[6] * s[6]
}

/// Recency-based tetromino generation: a tetromino last played `x` draws ago is drawn with
/// probability proportional to `x * x`.
#[derive(Debug)]
pub struct RecencyProbGen {
    rng: ThreadRng,
    last_played: [u32; 7],
}

impl RecencyProbGen {
    /// How many draws ago each tetromino was last played.
    pub closed spec fn last_played_spec(self) -> Seq<u32> {
        self.last_played@
    }

    /// A generator under which every tetromino was last played one draw ago.
    pub fn new() -> (r: Self)
        ensures
            r.last_played_spec() == seven(1),
    {
        let r = RecencyProbGen { rng: fresh_rng(), last_played: [1, 1, 1, 1, 1, 1, 1] };
        assert([1u32, 1, 1, 1, 1, 1, 1]@ =~= seven(1));
        r
    }

    /// The counts after the tetromino with index `idx` was played: all grow by one and the
    /// played one's is reset to zero.
    pub open spec fn recorded(last: Seq<u32>, idx: int) -> Seq<u32> {
        last.map_values(|v: u32| (v + 1) as u32).update(idx, 0u32)
    }

    /// Records that the tetromino with index `idx` was played and returns it. (Every count
    /// must be below `u32::MAX`, or it would overflow.)
    pub fn record(&mut self, idx: usize) -> (r: Tetromino)
        requires
            idx < 7,
            forall|j: int| 0 <= j < 7 ==> old(self).last_played_spec()[j] < u32::MAX,
        ensures
            r == tetromino_of_index(idx as int),
            final(self).last_played_spec() == Self::recorded(old(self).last_played_spec(), idx as int),
    {
        let l = self.last_played;
        assert(l@ == old(self).last_played_spec());
        let mut i: usize = 0;
        while i < 7
            invariant
                i <= 7,
                self.last_played@.len() == 7,
                forall|j: int| 0 <= j < 7 ==> l@[j] < u32::MAX,
                forall|j: int| 0 <= j < i ==> self.last_played@[j] == l@[j] + 1,
                forall|j: int| i <= j < 7 ==> self.last_played@[j] == l@[j],
            decreases 7 - i,
        {
            assert(l@[i as int] < u32::MAX);
            self.last_played[i] = self.last_played[i] + 1;
            i += 1;
        }
        self.last_played[idx] = 0;
        assert(self.last_played@ =~= Self::recorded(l@, idx as int));
        tetromino_at(idx)
    }

    /// The next tetromino, drawn with the weights of [`recency_weights`], the squares of how long
    /// ago each was last played:
    /// only a tetromino with a positive count can come. All counts then grow by one and the
    /// drawn one's is reset to zero. (The squared counts must sum to at most `u32::MAX`, or
    /// the weights would overflow.)
    pub fn next(&mut self) -> (r: Option<Tetromino>)
        requires
            square_sum(old(self).last_played_spec()) <= u32::MAX,
            square_sum(old(self).last_played_spec()) > 0,
        ensures
            exists|idx: int| {
                &&& 0 <= idx < 7
                &&& old(self).last_played_spec()[idx] > 0
                &&& r == Some(tetromino_of_index(idx))
                &&& final(self).last_played_spec() == #[trigger] Self::recorded(old(self).last_played_spec(), idx)
            },
    {
        let l = self.last_played;
        proof {
            lemma_squares_fit(l@);
        }
        let weights = recency_weights(&l);
        assert(weight_sum(weights@) == square_sum(l@));
        let idx = sample_weighted_index(&mut self.rng, &weights);
        proof {
            if l@[idx as int] == 0 {
                assert(weights@[idx as int] == 0);
            }
        }
        let t = self.record(idx);
        assert(self.last_played_spec() == Self::recorded(old(self).last_played_spec(), idx as int));
        Some(t)
    }
}

/// The weights of a recency draw: the square of how many draws ago each kind was played.
pub open spec fn recency_weights_spec(last: Seq<u32>) -> Seq<u32> {
    Seq::new(7, |i: int| (last[i] * last[i]) as u32)
}

/// The weights of a recency draw, as [`recency_weights_spec`] gives them. (The squares must
/// sum to at most `u32::MAX`, or the weights would overflow.)
pub fn recency_weights(last: &[u32; 7]) -> (w: [u32; 7])
    requires
        square_sum(last@) <= u32::MAX,
    ensures
        w@ == recency_weights_spec(last@),
        forall|i: int| 0 <= i < 7 ==> w@[i] == last@[i] * last@[i],
{
    let l = last;
    proof {
        lemma_squares_fit(l@);
    }
    let w: [u32; 7] = [
        l[0] * l[0],
        l[1] * l[1],
        l[2] * l[2],
        l[3] * l[3],
        l[4] * l[4],
        l[5] * l[5],
        l[6] * l[6],
    ];
    assert(w@ =~= recency_weights_spec(l@));
    w
}

/// When the squares sum to at most `u32::MAX`, each square fits and each value is below
/// `u32::MAX`.
proof fn lemma_squares_fit(s: Seq<u32>)
    requires
        s.len() == 7,
        square_sum(s) <= u32::MAX,
    ensures
        forall|j: int| 0 <= j < 7 ==> s[j] * s[j] <= u32::MAX && s[j] < u32::MAX,
{
    assert forall|j: int| 0 <= j < 7 implies s[j] * s[j] <= u32::MAX && s[j] < u32::MAX by {
        assert forall|k: int| 0 <= k < 7 implies s[k] * s[k] >= 0 by {
            let v = s[k];
            assert(v * v >= 0) by (nonlinear_arith);
        }
        let v = s[j];
        assert(v * v <= u32::MAX);
        assert(v < u32::MAX) by (nonlinear_arith)
            requires
                v * v <= u32::MAX,
                v >= 0,
        ;
    }
}

} // verus!
