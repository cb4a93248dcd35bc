//! What makes the noise white: the words of the generator are spread evenly, and no state is lost.

use crate::pcg::Pcg32iState;
use vstd::arithmetic::div_mod::{
    lemma_fundamental_div_mod, lemma_mod_multiples_vanish, lemma_mul_mod_noop_left, lemma_small_mod,
};
use vstd::prelude::*;

verus! {

/// Multiplying a word with `factor` is undone by multiplying it with `inverse`.
proof fn lemma_product_undone(x: u32, factor: int, inverse: int, turns: int)
    requires
        factor * inverse == 1 + turns * 0x1_0000_0000,
    ensures
        (((x * factor) % 0x1_0000_0000) * inverse) % 0x1_0000_0000 == x,
{
    let m = 0x1_0000_0000int;
    lemma_mul_mod_noop_left(x * factor, inverse, m);
    assert((x * factor) * inverse == x + m * (x * turns)) by (nonlinear_arith)
        requires
            factor * inverse == 1 + turns * m,
    ;
    lemma_mod_multiples_vanish(x * turns, x as int, m);
    lemma_small_mod(x as nat, m as nat);
}

/// Undoes folding a word onto itself by a shift that the upper four bits select.
pub open spec fn unfolded(word: u32) -> u32 {
    let shift = ((word >> 28u32) + 4) as u32;
    let a = word ^ (word >> shift);
    let b = word ^ (a >> shift);
    let c = word ^ (b >> shift);
    let d = word ^ (c >> shift);
    let e = word ^ (d >> shift);
    let f = word ^ (e >> shift);
    word ^ (f >> shift)
}

/// The state in which a generator puts out this word.
pub open spec fn state_behind(word: u32) -> u32 {
    let mixed = (word >> 22u32) ^ word;
    unfolded(((mixed * 2_897_767_785) % 0x1_0000_0000) as u32)
}

proof fn lemma_unfolding_a_fold(state: u32)
    ensures
        unfolded((state >> (((state >> 28u32) + 4) as u32)) ^ state) == state,
{
    let r = ((state >> 28u32) + 4) as u32;
    let t = (state >> r) ^ state;
    assert(state >> 28u32 < 16) by (bit_vector);
    assert(t >> 28u32 == state >> 28u32) by (bit_vector)
        requires
            t == (state >> r) ^ state,
            r == (state >> 28u32) + 4,
    ;
    let a = t ^ (t >> r);
    let b = t ^ (a >> r);
    let c = t ^ (b >> r);
    let d = t ^ (c >> r);
    let e = t ^ (d >> r);
    let f = t ^ (e >> r);
    assert(t ^ (f >> r) == state) by (bit_vector)
        requires
            t == (state >> r) ^ state,
            4 <= r < 20,
            a == t ^ (t >> r),
            b == t ^ (a >> r),
            c == t ^ (b >> r),
            d == t ^ (c >> r),
            e == t ^ (d >> r),
            f == t ^ (e >> r),
    ;
}

proof fn lemma_folding_the_unfolded(word: u32)
    ensures
        ({
            let state = unfolded(word);
            (state >> (((state >> 28u32) + 4) as u32)) ^ state == word
        }),
{
    let r = ((word >> 28u32) + 4) as u32;
    assert(word >> 28u32 < 16) by (bit_vector);
    let a = word ^ (word >> r);
    let b = word ^ (a >> r);
    let c = word ^ (b >> r);
    let d = word ^ (c >> r);
    let e = word ^ (d >> r);
    let f = word ^ (e >> r);
    let s = word ^ (f >> r);
    assert(s >> 28u32 == word >> 28u32) by (bit_vector)
        requires
            s == word ^ (f >> r),
            4 <= r < 20,
    ;
    assert((s >> r) ^ s == word) by (bit_vector)
        requires
            4 <= r < 20,
            a == word ^ (word >> r),
            b == word ^ (a >> r),
            c == word ^ (b >> r),
            d == word ^ (c >> r),
            e == word ^ (d >> r),
            f == word ^ (e >> r),
            s == word ^ (f >> r),
    ;
}

pub(crate) proof fn lemma_word_undone(prng: Pcg32iState)
    ensures
        state_behind(prng.word()) == prng.state,
{
    let state = prng.state;
    let folded = (state >> (((state >> 28u32) + 4) as u32)) ^ state;
    let mixed = crate::pcg::word_product(folded, crate::pcg::PCG_OUTPUT_MULTIPLIER);
    assert({
        let word = (mixed >> 22u32) ^ mixed;
        (word >> 22u32) ^ word == mixed
    }) by (bit_vector);
    lemma_product_undone(folded, 277_803_737, 2_897_767_785, 187_431_164);
    lemma_unfolding_a_fold(state);
}

/// The state of a generator can be told from the word that it puts out.
pub proof fn law_words_tell_the_state(prng: &mut Pcg32iState, word: u32)
    requires
        call_ensures(Pcg32iState::next_u32, (prng,), word),
    ensures
        state_behind(word) == old(prng).state,
{
    lemma_word_undone(*old(prng));
}

/// A word, folded onto itself, is the state, folded onto itself by a shift that its upper four bits
/// select, times an odd factor, modulo `2^32`.
pub proof fn law_words_are_products(prng: &mut Pcg32iState, word: u32)
    requires
        call_ensures(Pcg32iState::next_u32, (prng,), word),
    ensures
        (word >> 22u32) ^ word == (((old(prng).state >> (((old(prng).state >> 28u32) + 4) as u32))
            ^ old(prng).state) * 277_803_737) % 0x1_0000_0000,
{
    let state = old(prng).state;
    let folded = (state >> (((state >> 28u32) + 4) as u32)) ^ state;
    let mixed = crate::pcg::word_product(folded, crate::pcg::PCG_OUTPUT_MULTIPLIER);
    assert({
        let word = (mixed >> 22u32) ^ mixed;
        (word >> 22u32) ^ word == mixed
    }) by (bit_vector);
}

/// Two generators in different states put out different words.
pub proof fn law_different_states_put_out_different_words(
    a: &mut Pcg32iState,
    b: &mut Pcg32iState,
    word_a: u32,
    word_b: u32,
)
    requires
        call_ensures(Pcg32iState::next_u32, (a,), word_a),
        call_ensures(Pcg32iState::next_u32, (b,), word_b),
        old(a).state != old(b).state,
    ensures
        word_a != word_b,
{
    law_words_tell_the_state(a, word_a);
    law_words_tell_the_state(b, word_b);
}

/// The word that a generator puts out in the state behind a word is that word.
pub(crate) proof fn lemma_word_behind(word: u32)
    ensures
        forall|prng: Pcg32iState|
            prng.state == state_behind(word) ==> #[trigger] prng.word() == word,
{
    let mixed = (word >> 22u32) ^ word;
    let folded = ((mixed * 2_897_767_785) % 0x1_0000_0000) as u32;
    lemma_folding_the_unfolded(folded);
    lemma_product_undone(mixed, 2_897_767_785, 277_803_737, 187_431_164);
    assert({
        let mixed = (word >> 22u32) ^ word;
        (mixed >> 22u32) ^ mixed == word
    }) by (bit_vector);
}

/// Every word is put out in some state: the noise is spread evenly over all words.
pub proof fn law_every_word_is_put_out(prng: &mut Pcg32iState, word: u32, put_out: u32)
    requires
        old(prng).state == state_behind(word),
        call_ensures(Pcg32iState::next_u32, (prng,), put_out),
    ensures
        put_out == word,
{
    lemma_word_behind(word);
}

/// A generator goes through its states in a linear congruential sequence, which its increment
/// selects: whatever word is put out, the next state is the product of the state with this factor,
/// plus the increment, modulo `2^32`.
pub proof fn law_states_are_linear(prng: &mut Pcg32iState, word: u32)
    requires
        call_ensures(Pcg32iState::next_u32, (prng,), word),
    ensures
        final(prng).inc == old(prng).inc,
        final(prng).state == (old(prng).state * 747_796_405 + old(prng).inc) % 0x1_0000_0000,
{
}

/// What two generators of the same sequence are apart grows by the same factor with each step,
/// modulo `2^32`.
pub proof fn law_distances_grow_alike(
    a: &mut Pcg32iState,
    b: &mut Pcg32iState,
    word_a: u32,
    word_b: u32,
)
    requires
        call_ensures(Pcg32iState::next_u32, (a,), word_a),
        call_ensures(Pcg32iState::next_u32, (b,), word_b),
        old(a).inc == old(b).inc,
    ensures
        (final(a).state - final(b).state - 747_796_405 * (old(a).state - old(b).state))
            % 0x1_0000_0000 == 0,
{
    law_states_are_linear(a, word_a);
    law_states_are_linear(b, word_b);
    let m = 0x1_0000_0000int;
    let (before_a, before_b) = (old(a).state as int, old(b).state as int);
    let x = before_a * 747_796_405 + old(a).inc;
    let y = before_b * 747_796_405 + old(b).inc;
    lemma_fundamental_div_mod(x, m);
    lemma_fundamental_div_mod(y, m);
    assert(x % m - y % m - 747_796_405 * (before_a - before_b) == 0 + m * (y / m - x / m))
        by (nonlinear_arith)
        requires
            x == m * (x / m) + x % m,
            y == m * (y / m) + y % m,
            x - y == 747_796_405 * (before_a - before_b),
    ;
    lemma_mod_multiples_vanish(y / m - x / m, 0, m);
}

/// No state is lost: two generators of the same sequence in different states stay in different
/// states.
pub proof fn law_different_states_stay_different(
    a: &mut Pcg32iState,
    b: &mut Pcg32iState,
    word_a: u32,
    word_b: u32,
)
    requires
        call_ensures(Pcg32iState::next_u32, (a,), word_a),
        call_ensures(Pcg32iState::next_u32, (b,), word_b),
        old(a).inc == old(b).inc,
        old(a).state != old(b).state,
    ensures
        final(a).state != final(b).state,
{
    law_states_are_linear(a, word_a);
    law_states_are_linear(b, word_b);
    lemma_linear_step_undone(old(a).state, old(a).inc);
    lemma_linear_step_undone(old(b).state, old(b).inc);
}

proof fn lemma_linear_step_undone(state: u32, inc: u32)
    ensures
        (((state * 747_796_405 + inc) % 0x1_0000_0000 - inc) * 3_425_435_293) % 0x1_0000_0000
            == state,
{
    let m = 0x1_0000_0000int;
    let x = state * 747_796_405 + inc;
    lemma_fundamental_div_mod(x, m);
    let turns = x / m;
    assert((x % m - inc) * 3_425_435_293 == state + m * (state * 596_402_259 - turns
        * 3_425_435_293)) by (nonlinear_arith)
        requires
            x == m * turns + x % m,
            x == state * 747_796_405 + inc,
            m == 0x1_0000_0000,
    ;
    lemma_mod_multiples_vanish(state * 596_402_259 - turns * 3_425_435_293, state as int, m);
    lemma_small_mod(state as nat, m as nat);
}

/// Seeding selects an odd increment, and mixes the seed in between two steps that start at zero.
pub proof fn law_seeds_select_a_sequence(state: u32, sequence: u32, prng: Pcg32iState)
    requires
        call_ensures(Pcg32iState::new, (state, sequence), prng),
    ensures
        prng.inc == (2 * sequence + 1) % 0x1_0000_0000,
        prng.state == ((prng.inc + state) * 747_796_405 + prng.inc) % 0x1_0000_0000,
{
    let inc = (sequence << 1u32) | 1;
    assert(inc == (2 * sequence + 1) % 0x1_0000_0000) by (bit_vector)
        requires
            inc == (sequence << 1u32) | 1,
    ;
    let m = 0x1_0000_0000int;
    let sum = inc + state;
    lemma_fundamental_div_mod(sum, m);
    let rest = sum % m;
    assert(sum * 747_796_405 + inc == (rest * 747_796_405 + inc) + m * ((sum / m) * 747_796_405))
        by (nonlinear_arith)
        requires
            sum == m * (sum / m) + rest,
    ;
    lemma_mod_multiples_vanish((sum / m) * 747_796_405, rest * 747_796_405 + inc, m);
}

/// Different seeds of a sequence give different generators.
pub proof fn law_different_seeds_give_different_generators(
    state_a: u32,
    state_b: u32,
    sequence: u32,
    a: Pcg32iState,
    b: Pcg32iState,
)
    requires
        call_ensures(Pcg32iState::new, (state_a, sequence), a),
        call_ensures(Pcg32iState::new, (state_b, sequence), b),
        state_a != state_b,
    ensures
        a.inc == b.inc,
        a.state != b.state,
{
    let inc = (sequence << 1u32) | 1;
    let mixed_a = ((inc + state_a) % 0x1_0000_0000) as u32;
    let mixed_b = ((inc + state_b) % 0x1_0000_0000) as u32;
    assert(mixed_a != mixed_b);
    lemma_linear_step_undone(mixed_a, inc);
    lemma_linear_step_undone(mixed_b, inc);
}

/// Every run starts from the same generator, that of these seeds.
pub proof fn law_every_run_starts_from_the_same_seeds(prng: Pcg32iState)
    requires
        call_ensures(crate::pcg::initial_prng_seed, (), prng),
    ensures
        prng.inc == 2 * 420 + 1,
        prng.state == ((prng.inc + 69) * 747_796_405 + prng.inc) % 0x1_0000_0000,
{
    assert((420u32 << 1u32) | 1 == 841) by (bit_vector);
}

/// Advancing a generator by one step more is what putting out a word does to it.
pub proof fn law_advancing_is_stepping(
    start: Pcg32iState,
    n: nat,
    prng: &mut Pcg32iState,
    word: u32,
)
    requires
        *old(prng) == start.advanced(n),
        call_ensures(Pcg32iState::next_u32, (prng,), word),
    ensures
        start.advanced(0) == start,
        start.advanced(n + 1) == *final(prng),
{
}

} // verus!
