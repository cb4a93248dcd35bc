//! The noise generator: `pcg32i` of the PCG family, a 32-bit linear congruential generator whose
//! state goes through the RXS-M-XS output permutation.

use vstd::prelude::*;

verus! {

/// The factor of the linear congruential step.
pub const PCG_MULTIPLIER: u32 = 747_796_405;

/// The factor of the output permutation.
pub const PCG_OUTPUT_MULTIPLIER: u32 = 277_803_737;

/// A generator: its current state and the increment that selects its sequence.
#[derive(Clone, Copy, Debug, PartialEq, Eq, Structural)]
pub struct Pcg32iState {
    pub state: u32,
    pub inc: u32,
}

/// The product of two words modulo `2^32`.
pub open spec fn word_product(a: u32, b: u32) -> u32 {
    ((a * b) % 0x1_0000_0000) as u32
}

/// The state that follows `state` in the sequence selected by `inc`.
pub open spec fn lcg_successor(state: u32, inc: u32) -> u32 {
    ((state * PCG_MULTIPLIER + inc) % 0x1_0000_0000) as u32
}

impl Pcg32iState {
    /// The generator one step later.
    pub open spec fn stepped(self) -> Self {
        Pcg32iState { state: lcg_successor(self.state, self.inc), inc: self.inc }
    }

    /// The generator `n` steps later.
    pub open spec fn advanced(self, n: nat) -> Self
        decreases n,
    {
        if n == 0 {
            self
        } else {
            self.advanced((n - 1) as nat).stepped()
        }
    }

    /// The word that the generator puts out in its current state.
    pub open spec fn word(self) -> u32 {
        let shifted = self.state >> (((self.state >> 28u32) + 4) as u32);
        let mixed = word_product(shifted ^ self.state, PCG_OUTPUT_MULTIPLIER);
        (mixed >> 22u32) ^ mixed
    }

    /// The generator that `new` makes: the sequence number gives the increment, which is always
    /// odd, and the state has been mixed in between two steps that start at zero.
    pub open spec fn seeded(state: u32, sequence: u32) -> Self {
        let inc = (sequence << 1u32) | 1;
        let mixed = ((inc + state) % 0x1_0000_0000) as u32;
        Pcg32iState { state: lcg_successor(mixed, inc), inc }
    }

    /// Seeds a generator.
    pub fn new(state: u32, sequence: u32) -> (prng: Self)
        ensures
            prng == Self::seeded(state, sequence),
    {
        let mut prng = Pcg32iState { state: 0, inc: (sequence << 1u32) | 1 };
        prng.step();
        prng.state = prng.state.wrapping_add(state);
        prng.step();
        prng
    }

    fn step(&mut self)
        ensures
            *final(self) == old(self).stepped(),
    {
        let product: u32 = self.state.wrapping_mul(PCG_MULTIPLIER);
        self.state = product.wrapping_add(self.inc);
    }

    /// Puts out a word, uniformly distributed over all words, and moves on to the next state.
    pub fn next_u32(&mut self) -> (word: u32)
        ensures
            word == old(self).word(),
            *final(self) == old(self).stepped(),
    {
        let state: u32 = self.state;
        self.step();
        assert(state >> 28u32 < 16) by (bit_vector);
        let shift: u32 = (state >> 28u32) + 4;
        let mixed: u32 = ((state >> shift) ^ state).wrapping_mul(PCG_OUTPUT_MULTIPLIER);
        (mixed >> 22u32) ^ mixed
    }
}

/// The generator that every run starts from. These seeds being fixed makes bouncing deterministic.
pub fn initial_prng_seed() -> (prng: Pcg32iState)
    ensures
        prng == initial_seed(),
{
    Pcg32iState::new(69, 420)
}

/// What `initial_prng_seed` returns.
pub open spec fn initial_seed() -> Pcg32iState {
    Pcg32iState::seeded(69, 420)
}

} // verus!
