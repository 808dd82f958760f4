//! The seeded pseudo-random generator (ChaCha20 from `rand_chacha`).
use vstd::prelude::*;
use rand::seq::SliceRandom;
use rand::{RngExt, SeedableRng};
use rand_chacha::ChaCha20Rng;

verus! {

/// ChaCha20Rng is carried through the library as an opaque value.
#[verifier::external_type_specification]
#[verifier::external_body]
pub struct ExChaCha20Rng(rand_chacha::ChaCha20Rng);

/// One use of the generator: a shuffle of a slice of the given length, or a draw from
/// `low..high`.
#[derive(Debug, Clone, Copy, PartialEq, Eq, Structural)]
pub enum Draw {
    Shuffle(u64),
    Range(i32, i32),
}

/// The order in which a shuffle of `len` items puts them (position `i` receives the item
/// at index `result[i]`), for a ChaCha20 generator seeded with `seed` that has already
/// served `history`.
pub uninterp spec fn shuffle_order(seed: u64, history: Seq<Draw>, len: u64) -> Seq<int>;

/// The number drawn from `low..high` by a ChaCha20 generator seeded with `seed` that has
/// already served `history`.
pub uninterp spec fn range_draw(seed: u64, history: Seq<Draw>, low: i32, high: i32) -> i32;

/// A seeded pseudo-random generator. Its view is the seed and the uses made of it so far,
/// which together decide every later result.
pub struct PRNG {
    inner: ChaCha20Rng,
    seed: Ghost<u64>,
    history: Ghost<Seq<Draw>>,
}

impl View for PRNG {
    type V = (u64, Seq<Draw>);

    closed spec fn view(&self) -> (u64, Seq<Draw>) {
        (self.seed@, self.history@)
    }
}

impl PRNG {
    /// Seeds a ChaCha20 generator with `seed` (`SeedableRng::seed_from_u64`); it has served
    /// nothing yet.
    #[verifier::external_body]
    pub fn new(seed: u64) -> (r: PRNG)
        ensures
            r@ == (seed, Seq::<Draw>::empty()),
    {
        PRNG { inner: ChaCha20Rng::seed_from_u64(seed), seed: Ghost(seed), history: Ghost(Seq::empty()) }
    }

    /// Shuffles `slice` in place (`SliceRandom::shuffle` of `rand`): the result is a
    /// permutation of the input, in the order `shuffle_order` names, which depends only on
    /// the seed, the generator's earlier uses and the length.
    #[verifier::external_body]
    pub fn shuffle<T>(&mut self, slice: &mut [T])
        ensures
            final(slice)@.to_multiset() == old(slice)@.to_multiset(),
            final(slice)@.len() == old(slice)@.len(),
            forall|i: int|
                0 <= i < old(slice)@.len() ==> #[trigger] final(slice)@[i] == old(slice)@[shuffle_order(
                    old(self)@.0,
                    old(self)@.1,
                    old(slice)@.len() as u64,
                )[i]],
            final(self)@ == (old(self)@.0, old(self)@.1.push(Draw::Shuffle(old(slice)@.len() as u64))),
    {
        slice.shuffle(&mut self.inner);
    }

    /// A number drawn from `low..high` (`RngExt::random_range` of `rand`, which panics on an
    /// empty range): the number `range_draw` names, which depends only on the seed, the
    /// generator's earlier uses and the range.
    #[verifier::external_body]
    pub fn random_range(&mut self, low: i32, high: i32) -> (r: i32)
        requires
            low < high,
        ensures
            low <= r < high,
            r == range_draw(old(self)@.0, old(self)@.1, low, high),
            final(self)@ == (old(self)@.0, old(self)@.1.push(Draw::Range(low, high))),
    {
        self.inner.random_range(low..high)
    }
}

} // verus!
