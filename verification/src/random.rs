//! The seeded random source.
//!
//! All randomness of a game comes from one ChaCha8 stream. ChaCha8 is a
//! stream cipher: the seed fixes the whole stream of words, on every machine
//! and in every run, and a draw reads the stream from a position onward and
//! nothing else. The library therefore holds the stream as two plain
//! numbers, the seed and the position of the next word. Equal sources give
//! equal draws; there is no other entropy in a game.

use vstd::prelude::*;
use rand::seq::SliceRandom;
use rand::Rng;
use rand_chacha::rand_core::SeedableRng;
use rand_chacha::ChaCha8Rng;

verus! {

/// The `u32` that the ChaCha8 stream of `seed` gives at `word_pos`, and the
/// position after the draw.
pub uninterp spec fn chacha8_u32(seed: u64, word_pos: u128) -> (u32, u128);

/// The `bool` that the ChaCha8 stream of `seed` gives at `word_pos`, and the
/// position after the draw.
pub uninterp spec fn chacha8_bool(seed: u64, word_pos: u128) -> (bool, u128);

/// The number below `bound` that the ChaCha8 stream of `seed` gives at
/// `word_pos`, and the position after the draw.
pub uninterp spec fn chacha8_below(seed: u64, word_pos: u128, bound: u64) -> (u64, u128);

/// The order into which the ChaCha8 stream of `seed` at `word_pos` shuffles
/// `len` items (the item that comes to place `i` is the one that stood at
/// place `order[i]`), and the position after the shuffle.
pub uninterp spec fn chacha8_shuffle(seed: u64, word_pos: u128, len: nat) -> (Seq<int>, u128);

/// Whether `order` names each of the places `0..len` exactly once.
pub open spec fn is_permutation(order: Seq<int>, len: nat) -> bool {
    &&& order.len() == len
    &&& forall|i: int| 0 <= i < len ==> 0 <= #[trigger] order[i] < len
    &&& forall|i: int, j: int| 0 <= i < j < len ==> #[trigger] order[i] != #[trigger] order[j]
}

/// The members of `items` in the given order.
pub open spec fn rearranged<T>(items: Seq<T>, order: Seq<int>) -> Seq<T> {
    Seq::new(order.len(), |i: int| items[order[i]])
}

/// `items` as the ChaCha8 stream of `seed` at `word_pos` shuffles them. The
/// order that the stream gives is a permutation; written so, the result holds
/// the items that went in whatever is known of that order.
pub open spec fn shuffled<T>(items: Seq<T>, seed: u64, word_pos: u128) -> Seq<T> {
    let order = chacha8_shuffle(seed, word_pos, items.len()).0;
    if is_permutation(order, items.len()) {
        rearranged(items, order)
    } else {
        items
    }
}

/// A place in the random stream of a seed.
#[derive(Clone, Copy, Debug)]
pub struct RandomSource {
    pub seed: u64,
    pub word_pos: u128,
}

/// `Rng::random::<u32>` on a `ChaCha8Rng` made by `seed_from_u64(seed)` and
/// moved by `set_word_pos(word_pos)`; the second part of the result is
/// `get_word_pos()` after the draw. The stream is a function of the seed, so
/// seed and position determine both.
#[verifier::external_body]
fn draw_u32(seed: u64, word_pos: u128) -> (out: (u32, u128))
    ensures
        out == chacha8_u32(seed, word_pos),
{
    let mut rng = ChaCha8Rng::seed_from_u64(seed);
    rng.set_word_pos(word_pos);
    let value: u32 = rng.random();
    (value, rng.get_word_pos())
}

/// `Rng::random::<bool>` on a `ChaCha8Rng` made by `seed_from_u64(seed)` and
/// moved by `set_word_pos(word_pos)`; the second part of the result is
/// `get_word_pos()` after the draw.
#[verifier::external_body]
fn draw_bool(seed: u64, word_pos: u128) -> (out: (bool, u128))
    ensures
        out == chacha8_bool(seed, word_pos),
{
    let mut rng = ChaCha8Rng::seed_from_u64(seed);
    rng.set_word_pos(word_pos);
    let value: bool = rng.random();
    (value, rng.get_word_pos())
}

/// `Rng::random_range(0..bound)` on a `ChaCha8Rng` made by
/// `seed_from_u64(seed)` and moved by `set_word_pos(word_pos)`; the second
/// part of the result is `get_word_pos()` after the draw. The call panics on
/// an empty range, which `bound > 0` excludes; the value lies in the range.
#[verifier::external_body]
fn draw_below(seed: u64, word_pos: u128, bound: u64) -> (out: (u64, u128))
    requires
        bound > 0,
    ensures
        out == chacha8_below(seed, word_pos, bound),
        out.0 < bound,
{
    let mut rng = ChaCha8Rng::seed_from_u64(seed);
    rng.set_word_pos(word_pos);
    let value: u64 = rng.random_range(0..bound);
    (value, rng.get_word_pos())
}

/// `SliceRandom::shuffle` on the items, with a `ChaCha8Rng` made by
/// `seed_from_u64(seed)` and moved by `set_word_pos(word_pos)`; the result is
/// `get_word_pos()` after the shuffle. The shuffle only swaps items, at
/// places drawn from the stream without looking at the items: they come out
/// in an order that is a permutation fixed by seed, position and length.
#[verifier::external_body]
fn shuffle_items<T>(items: &mut Vec<T>, seed: u64, word_pos: u128) -> (next: u128)
    ensures
        next == chacha8_shuffle(seed, word_pos, old(items)@.len()).1,
        is_permutation(chacha8_shuffle(seed, word_pos, old(items)@.len()).0, old(items)@.len()),
        final(items)@ == rearranged(
            old(items)@,
            chacha8_shuffle(seed, word_pos, old(items)@.len()).0,
        ),
{
    let mut rng = ChaCha8Rng::seed_from_u64(seed);
    rng.set_word_pos(word_pos);
    items.shuffle(&mut rng);
    rng.get_word_pos()
}

impl RandomSource {
    /// The start of the stream of `seed`.
    pub fn new(seed: u64) -> (out: Self)
        ensures
            out.seed == seed,
            out.word_pos == 0,
    {
        RandomSource { seed, word_pos: 0 }
    }

    /// Draws a `u32`.
    pub fn next_u32(&mut self) -> (value: u32)
        ensures
            value == chacha8_u32(old(self).seed, old(self).word_pos).0,
            final(self).word_pos == chacha8_u32(old(self).seed, old(self).word_pos).1,
            final(self).seed == old(self).seed,
    {
        let (value, next) = draw_u32(self.seed, self.word_pos);
        self.word_pos = next;
        value
    }

    /// Draws a `bool`, each value with the same chance.
    pub fn next_bool(&mut self) -> (value: bool)
        ensures
            value == chacha8_bool(old(self).seed, old(self).word_pos).0,
            final(self).word_pos == chacha8_bool(old(self).seed, old(self).word_pos).1,
            final(self).seed == old(self).seed,
    {
        let (value, next) = draw_bool(self.seed, self.word_pos);
        self.word_pos = next;
        value
    }

    /// Draws a number below `bound`.
    pub fn next_below(&mut self, bound: u64) -> (value: u64)
        requires
            bound > 0,
        ensures
            value < bound,
            value == chacha8_below(old(self).seed, old(self).word_pos, bound).0,
            final(self).word_pos == chacha8_below(old(self).seed, old(self).word_pos, bound).1,
            final(self).seed == old(self).seed,
    {
        let (value, next) = draw_below(self.seed, self.word_pos, bound);
        self.word_pos = next;
        value
    }

    /// Shuffles `items`: they come out as a permutation of what went in.
    pub fn shuffle<T>(&mut self, items: &mut Vec<T>)
        ensures
            is_permutation(
                chacha8_shuffle(old(self).seed, old(self).word_pos, old(items)@.len()).0,
                old(items)@.len(),
            ),
            final(items)@ == shuffled(old(items)@, old(self).seed, old(self).word_pos),
            final(self).word_pos == chacha8_shuffle(
                old(self).seed,
                old(self).word_pos,
                old(items)@.len(),
            ).1,
            final(self).seed == old(self).seed,
    {
        let next = shuffle_items(items, self.seed, self.word_pos);
        self.word_pos = next;
    }
}

} // verus!
