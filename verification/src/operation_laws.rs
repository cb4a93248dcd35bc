//! What each operation does, told from what is handed to it and what it leaves.

use crate::config::{BufferConfig, BusConfig, Mode, SmoothedParam};
use crate::crisp::Crisp;
use crate::dsp::{Biquad, Controls, Dsp};
use crate::flow::{Retunings, Tuning};
use vstd::prelude::*;

verus! {

/// Only stereo is accepted, on both sides.
pub proof fn law_only_stereo_is_accepted<D: Dsp>(
    crisp: &Crisp<D>,
    config: &BusConfig,
    accepted: bool,
)
    requires
        call_ensures(Crisp::<D>::accepts_bus_config, (crisp, config), accepted),
    ensures
        accepted <==> config.num_input_channels == 2 && config.num_output_channels == 2,
{
}

/// A step of a parameter is one step: it is moved once, and its value is what that gave.
pub proof fn law_a_step_moves_once<S, C: Controls<S>>(
    controls: C,
    param: SmoothedParam,
    value: S,
    after: C,
)
    requires
        call_ensures(crate::dsp::advance::<S, C>, (controls, param), (value, after)),
    ensures
        exists|moved: &mut C| #[trigger]
            call_ensures(C::next_value, (moved, param), value) && *moved == controls
                && *final(moved) == after,
{
    let step = (value, after);
    assert(step.0 == value && step.1 == after);
}

/// A filter remembers what the filter step says, and keeps its coefficients.
pub proof fn law_a_filter_makes_one_step<D: Dsp>(
    filter: &mut Biquad<D>,
    sample: D::Sample,
    output: D::Sample,
)
    requires
        call_ensures(Biquad::<D>::process, (filter, sample), output),
    ensures
        final(filter).coefficients == old(filter).coefficients,
        call_ensures(
            D::filter_step,
            (old(filter).coefficients, old(filter).memory, sample),
            (final(filter).memory, output),
        ),
{
}

/// A filter that is reset forgets what went through it, and nothing else.
pub proof fn law_a_filter_forgets_its_memory_alone<D: Dsp>(filter: &mut Biquad<D>)
    requires
        call_ensures(Biquad::<D>::reset, (filter,), ()),
    ensures
        final(filter).coefficients == old(filter).coefficients,
        call_ensures(D::cleared_memory, (), final(filter).memory),
{
}

/// A copy of a filter is that filter.
pub proof fn law_a_copy_is_the_same_filter<D: Dsp>(filter: &Biquad<D>, copy: Biquad<D>)
    requires
        call_ensures(Biquad::<D>::clone, (filter,), copy),
    ensures
        copy == *filter,
{
}

/// A filter that is made is not designed yet, and nothing went through it.
pub proof fn law_a_filter_is_made_empty<D: Dsp>(filter: Biquad<D>)
    requires
        call_ensures(Biquad::<D>::default, (), filter),
    ensures
        call_ensures(D::default_coefficients, (), filter.coefficients),
        call_ensures(D::cleared_memory, (), filter.memory),
{
}

/// An effect that is made has a sample rate of one, the noise at its seeds, and six filters that are
/// not designed yet and that nothing went through.
pub proof fn law_an_effect_is_made_empty<D: Dsp>(crisp: Crisp<D>, channel: int)
    requires
        call_ensures(Crisp::<D>::default, (), crisp),
        0 <= channel < 2,
    ensures
        call_ensures(D::constant, (1i8,), crisp.sample_rate),
        crisp.prng.inc == 2 * 420 + 1,
        crisp.prng.state == ((crisp.prng.inc + 69) * 747_796_405 + crisp.prng.inc) % 0x1_0000_0000,
        call_ensures(D::default_coefficients, (), crisp.rm_input_lpf@[channel].coefficients),
        call_ensures(D::cleared_memory, (), crisp.rm_input_lpf@[channel].memory),
        call_ensures(D::default_coefficients, (), crisp.noise_hpf@[channel].coefficients),
        call_ensures(D::cleared_memory, (), crisp.noise_hpf@[channel].memory),
        call_ensures(D::default_coefficients, (), crisp.noise_lpf@[channel].coefficients),
        call_ensures(D::cleared_memory, (), crisp.noise_lpf@[channel].memory),
{
    assert((420u32 << 1u32) | 1 == 841) by (bit_vector);
}

/// Starting over takes the noise back to its seeds and makes every filter forget what went through
/// it. The sample rate and all coefficients stay.
pub proof fn law_starting_over<D: Dsp>(crisp: &mut Crisp<D>, channel: int)
    requires
        call_ensures(Crisp::<D>::reset, (crisp,), ()),
        0 <= channel < 2,
    ensures
        final(crisp).sample_rate == old(crisp).sample_rate,
        final(crisp).prng.inc == 2 * 420 + 1,
        final(crisp).prng.state == ((final(crisp).prng.inc + 69) * 747_796_405 + final(crisp).prng.inc) % 0x1_0000_0000,
        final(crisp).rm_input_lpf@[channel].coefficients == old(crisp).rm_input_lpf@[channel].coefficients,
        call_ensures(D::cleared_memory, (), final(crisp).rm_input_lpf@[channel].memory),
        final(crisp).noise_hpf@[channel].coefficients == old(crisp).noise_hpf@[channel].coefficients,
        call_ensures(D::cleared_memory, (), final(crisp).noise_hpf@[channel].memory),
        final(crisp).noise_lpf@[channel].coefficients == old(crisp).noise_lpf@[channel].coefficients,
        call_ensures(D::cleared_memory, (), final(crisp).noise_lpf@[channel].memory),
{
    assert((420u32 << 1u32) | 1 == 841) by (bit_vector);
}

/// What a noise sample is made from.
pub struct Noise<S> {
    /// The word that was put out.
    pub word: u32,
    /// The number between zero and one that the word stands for.
    pub unit: S,
    pub two: S,
    pub wide: S,
    pub one: S,
    /// The number between minus one and one.
    pub white: S,
    pub high_passed: S,
}

/// The noise of a channel is twice the number that the next word of the generator stands for, minus
/// one, sent through the high-pass filter and then through the low-pass filter of that channel.
/// Nothing else is touched.
pub proof fn law_noise_is_drawn<D: Dsp>(
    before: Crisp<D>,
    after: Crisp<D>,
    channel: usize,
    noise: D::Sample,
) -> (made: Noise<D::Sample>)
    requires
        exists|call: &mut Crisp<D>| #[trigger]
            call_ensures(Crisp::<D>::gen_noise, (call, channel), noise) && *call == before
                && *final(call) == after,
        channel < 2,
    ensures
        crate::generator_laws::state_behind(made.word) == before.prng.state,
        call_ensures(D::uniform, (made.word,), made.unit),
        call_ensures(D::constant, (2i8,), made.two),
        call_ensures(D::times, (made.unit, made.two), made.wide),
        call_ensures(D::constant, (1i8,), made.one),
        call_ensures(D::minus, (made.wide, made.one), made.white),
        call_ensures(
            D::filter_step,
            (
                before.noise_hpf@[channel as int].coefficients,
                before.noise_hpf@[channel as int].memory,
                made.white,
            ),
            (after.noise_hpf@[channel as int].memory, made.high_passed),
        ),
        call_ensures(
            D::filter_step,
            (
                before.noise_lpf@[channel as int].coefficients,
                before.noise_lpf@[channel as int].memory,
                made.high_passed,
            ),
            (after.noise_lpf@[channel as int].memory, noise),
        ),
        after.prng.inc == before.prng.inc,
        after.prng.state == (before.prng.state * 747_796_405 + before.prng.inc)
            % 0x1_0000_0000,
        after.sample_rate == before.sample_rate,
        after.rm_input_lpf@ == before.rm_input_lpf@,
        after.noise_hpf@[1 - channel] == before.noise_hpf@[1 - channel],
        after.noise_lpf@[1 - channel] == before.noise_lpf@[1 - channel],
        after.noise_hpf@[channel as int].coefficients == before.noise_hpf@[channel as int].coefficients,
        after.noise_lpf@[channel as int].coefficients == before.noise_lpf@[channel as int].coefficients,
{
    let c = channel as int;
    let (white, high_passed) = choose|white: D::Sample, high_passed: D::Sample|
        {
            &&& crate::flow::whitens::<D>(before.prng.word(), white)
            &&& #[trigger] before.noise_hpf@[c].filters(white, high_passed, after.noise_hpf@[c])
            &&& before.noise_lpf@[c].filters(high_passed, noise, after.noise_lpf@[c])
        };
    let word = before.prng.word();
    let (unit, two, wide, one) = choose|
        unit: D::Sample,
        two: D::Sample,
        wide: D::Sample,
        one: D::Sample,
    |
        {
            &&& call_ensures(D::uniform, (word,), unit)
            &&& call_ensures(D::constant, (2i8,), two)
            &&& #[trigger] call_ensures(D::times, (unit, two), wide)
            &&& call_ensures(D::constant, (1i8,), one)
            &&& #[trigger] call_ensures(D::minus, (wide, one), white)
        };
    crate::generator_laws::lemma_word_undone(before.prng);
    Noise { word, unit, two, wide, one, white, high_passed }
}

/// What a sample is ring modulated from.
pub struct RingModulation<S> {
    pub mode: Mode,
    pub zero: S,
    /// The sample behind the input filter.
    pub filtered: S,
    /// The part of it that is modulated.
    pub part: S,
}

/// A sample goes through the input filter of its channel. All of it, or its positive or negative part
/// as the mode says, is multiplied with the noise. Nothing else is touched.
pub proof fn law_a_sample_is_ring_modulated<D: Dsp, C: Controls<D::Sample>>(
    before: Crisp<D>,
    after: Crisp<D>,
    sample: D::Sample,
    channel: usize,
    noise: D::Sample,
    controls: &C,
    result: D::Sample,
) -> (made: RingModulation<D::Sample>)
    requires
        exists|call: &mut Crisp<D>| #[trigger]
            call_ensures(Crisp::<D>::do_ring_mod::<C>, (call, sample, channel, noise, controls), result) && *call == before
                && *final(call) == after,
        channel < 2,
    ensures
        call_ensures(C::mode, (controls,), made.mode),
        call_ensures(
            D::filter_step,
            (
                before.rm_input_lpf@[channel as int].coefficients,
                before.rm_input_lpf@[channel as int].memory,
                sample,
            ),
            (after.rm_input_lpf@[channel as int].memory, made.filtered),
        ),
        made.mode == Mode::Crispy ==> made.part == made.filtered,
        made.mode == Mode::EvenCrispier ==> call_ensures(D::constant, (0i8,), made.zero)
            && call_ensures(D::max, (made.filtered, made.zero), made.part),
        made.mode == Mode::EvenCrispierNegated ==> call_ensures(D::constant, (0i8,), made.zero)
            && call_ensures(D::min, (made.filtered, made.zero), made.part),
        call_ensures(D::times, (made.part, noise), result),
        after.sample_rate == before.sample_rate,
        after.prng == before.prng,
        after.noise_hpf@ == before.noise_hpf@,
        after.noise_lpf@ == before.noise_lpf@,
        after.rm_input_lpf@[1 - channel] == before.rm_input_lpf@[1 - channel],
        after.rm_input_lpf@[channel as int].coefficients == before.rm_input_lpf@[channel as int].coefficients,
{
    let c = channel as int;
    let mode = choose|mode: Mode| #[trigger]
        call_ensures(C::mode, (controls,), mode) && before.ring_modulates(
            sample,
            c,
            noise,
            mode,
            result,
            after,
        );
    lemma_ring_modulation(before, sample, c, noise, mode, result, after)
}

pub(crate) proof fn lemma_ring_modulation<D: Dsp>(
    before: Crisp<D>,
    sample: D::Sample,
    channel: int,
    noise: D::Sample,
    mode: Mode,
    result: D::Sample,
    after: Crisp<D>,
) -> (made: RingModulation<D::Sample>)
    requires
        before.ring_modulates(sample, channel, noise, mode, result, after),
    ensures
        made.mode == mode,
        call_ensures(
            D::filter_step,
            (
                before.rm_input_lpf@[channel].coefficients,
                before.rm_input_lpf@[channel].memory,
                sample,
            ),
            (after.rm_input_lpf@[channel].memory, made.filtered),
        ),
        made.mode == Mode::Crispy ==> made.part == made.filtered,
        made.mode == Mode::EvenCrispier ==> call_ensures(D::constant, (0i8,), made.zero)
            && call_ensures(D::max, (made.filtered, made.zero), made.part),
        made.mode == Mode::EvenCrispierNegated ==> call_ensures(D::constant, (0i8,), made.zero)
            && call_ensures(D::min, (made.filtered, made.zero), made.part),
        call_ensures(D::times, (made.part, noise), result),
        after.rm_input_lpf@[channel].coefficients == before.rm_input_lpf@[channel].coefficients,
{
    let (filtered, part) = choose|filtered: D::Sample, part: D::Sample|
        {
            &&& #[trigger] before.rm_input_lpf@[channel].filters(
                sample,
                filtered,
                after.rm_input_lpf@[channel],
            )
            &&& crate::flow::selects::<D>(mode, filtered, part)
            &&& #[trigger] call_ensures(D::times, (part, noise), result)
        };
    let zero = match mode {
        Mode::Crispy => filtered,
        Mode::EvenCrispier => choose|zero: D::Sample|
            call_ensures(D::constant, (0i8,), zero) && #[trigger] call_ensures(
                D::max,
                (filtered, zero),
                part,
            ),
        Mode::EvenCrispierNegated => choose|zero: D::Sample|
            call_ensures(D::constant, (0i8,), zero) && #[trigger] call_ensures(
                D::min,
                (filtered, zero),
                part,
            ),
    };
    RingModulation { mode, zero, filtered, part }
}

/// How the two parameters of a filter bank were moved.
pub struct BankStep<S, C> {
    /// Whether they were moved.
    pub moved: bool,
    pub frequency: S,
    /// The controls once the frequency was moved.
    pub between: C,
    pub q: S,
    /// The controls once the resonance was moved.
    pub after: C,
}

pub(crate) proof fn lemma_tuning_steps<S, C: Controls<S>>(
    tuning: Tuning<S>,
    before: C,
    frequency: SmoothedParam,
    q: SmoothedParam,
    after: C,
) -> (step: BankStep<S, C>)
    requires
        tuning.given_by(before, frequency, q, after),
    ensures
        step.moved,
        step.frequency == tuning.frequency,
        step.q == tuning.q,
        step.after == after,
        call_ensures(
            crate::dsp::advance::<S, C>,
            (before, frequency),
            (step.frequency, step.between),
        ),
        call_ensures(crate::dsp::advance::<S, C>, (step.between, q), (step.q, step.after)),
{
    let between = choose|between: C| #[trigger]
        crate::flow::moves(before, frequency, tuning.frequency, between) && crate::flow::moves(
            between,
            q,
            tuning.q,
            after,
        );
    BankStep { moved: true, frequency: tuning.frequency, between, q: tuning.q, after }
}

/// Updating the input filters moves their frequency and then their resonance by one
/// step. Both filters get coefficients that are designed from exactly the sample rate and these two
/// values. Nothing else is touched.
pub proof fn law_rm_input_lpf_update<D: Dsp, C: Controls<D::Sample>>(
    before: Crisp<D>,
    after: Crisp<D>,
    controls: C,
    controls_after: C,
    channel: int,
) -> (step: BankStep<D::Sample, C>)
    requires
        exists|call: &mut Crisp<D>| #[trigger]
            call_ensures(Crisp::<D>::update_rm_input_lpf::<C>, (call, controls), controls_after) && *call == before
                && *final(call) == after,
        0 <= channel < 2,
    ensures
        call_ensures(
            crate::dsp::advance::<D::Sample, C>,
            (controls, SmoothedParam::RmInputLpfFreq),
            (step.frequency, step.between),
        ),
        call_ensures(
            crate::dsp::advance::<D::Sample, C>,
            (step.between, SmoothedParam::RmInputLpfQ),
            (step.q, controls_after),
        ),
        call_ensures(
            D::lowpass,
            (before.sample_rate, step.frequency, step.q),
            after.rm_input_lpf@[channel].coefficients,
        ),
        after.rm_input_lpf@[0].coefficients == after.rm_input_lpf@[1].coefficients,
        after.rm_input_lpf@[channel].memory == before.rm_input_lpf@[channel].memory,
        after.noise_hpf@ == before.noise_hpf@,
        after.noise_lpf@ == before.noise_lpf@,
        after.sample_rate == before.sample_rate,
        after.prng == before.prng,
{
    let (freq, q) = (SmoothedParam::RmInputLpfFreq, SmoothedParam::RmInputLpfQ);
    let tuning = choose|tuning: Tuning<D::Sample>| #[trigger]
        tuning.given_by(controls, freq, q, controls_after) && before.retuned(
            Retunings::rm_input_lpf_only(tuning),
            after,
        );
    assert(after.noise_hpf@ == before.noise_hpf@);
    lemma_tuning_steps(tuning, controls, freq, q, controls_after)
}

/// Where the design tells any two settings apart, updates of the input filters with
/// another sample rate, another frequency or another resonance leave other coefficients.
pub proof fn law_rm_input_lpf_updates_differ<D: Dsp, C: Controls<D::Sample>>(
    before_a: Crisp<D>,
    before_b: Crisp<D>,
    after_a: Crisp<D>,
    after_b: Crisp<D>,
    controls_a: C,
    controls_b: C,
    controls_after_a: C,
    controls_after_b: C,
    channel: int,
)
    requires
        exists|call: &mut Crisp<D>| #[trigger]
            call_ensures(Crisp::<D>::update_rm_input_lpf::<C>, (call, controls_a), controls_after_a)
                && *call == before_a && *final(call) == after_a,
        exists|call: &mut Crisp<D>| #[trigger]
            call_ensures(Crisp::<D>::update_rm_input_lpf::<C>, (call, controls_b), controls_after_b)
                && *call == before_b && *final(call) == after_b,
        0 <= channel < 2,
        forall|
            rate: D::Sample,
            frequency: D::Sample,
            q: D::Sample,
            other_rate: D::Sample,
            other_frequency: D::Sample,
            other_q: D::Sample,
            r: D::Coefficients,
            s: D::Coefficients,
        | #[trigger]
            call_ensures(D::lowpass, (rate, frequency, q), r) && #[trigger] call_ensures(
                D::lowpass,
                (other_rate, other_frequency, other_q),
                s,
            ) && r == s ==> rate == other_rate && frequency == other_frequency && q == other_q,
        ({
            ||| before_a.sample_rate != before_b.sample_rate
            ||| forall|v: D::Sample, w: D::Sample, x: C, y: C|
                call_ensures(
                    crate::dsp::advance::<D::Sample, C>,
                    (controls_a, SmoothedParam::RmInputLpfFreq),
                    (v, x),
                ) && call_ensures(
                    crate::dsp::advance::<D::Sample, C>,
                    (controls_b, SmoothedParam::RmInputLpfFreq),
                    (w, y),
                ) ==> v != w
            ||| forall|v: D::Sample, w: D::Sample, x: C, y: C|
                call_ensures(
                    crate::dsp::advance::<D::Sample, C>,
                    (x, SmoothedParam::RmInputLpfQ),
                    (v, controls_after_a),
                ) && call_ensures(
                    crate::dsp::advance::<D::Sample, C>,
                    (y, SmoothedParam::RmInputLpfQ),
                    (w, controls_after_b),
                ) ==> v != w
        }),
    ensures
        after_a.rm_input_lpf@[channel].coefficients != after_b.rm_input_lpf@[channel].coefficients,
{
    let _ = law_rm_input_lpf_update(
        before_a,
        after_a,
        controls_a,
        controls_after_a,
        channel,
    );
    let _ = law_rm_input_lpf_update(
        before_b,
        after_b,
        controls_b,
        controls_after_b,
        channel,
    );
}

/// Updating the high-pass filters of the noise moves their frequency and then their resonance by one
/// step. Both filters get coefficients that are designed from exactly the sample rate and these two
/// values. Nothing else is touched.
pub proof fn law_noise_hpf_update<D: Dsp, C: Controls<D::Sample>>(
    before: Crisp<D>,
    after: Crisp<D>,
    controls: C,
    controls_after: C,
    channel: int,
) -> (step: BankStep<D::Sample, C>)
    requires
        exists|call: &mut Crisp<D>| #[trigger]
            call_ensures(Crisp::<D>::update_noise_hpf::<C>, (call, controls), controls_after) && *call == before
                && *final(call) == after,
        0 <= channel < 2,
    ensures
        call_ensures(
            crate::dsp::advance::<D::Sample, C>,
            (controls, SmoothedParam::NoiseHpfFreq),
            (step.frequency, step.between),
        ),
        call_ensures(
            crate::dsp::advance::<D::Sample, C>,
            (step.between, SmoothedParam::NoiseHpfQ),
            (step.q, controls_after),
        ),
        call_ensures(
            D::highpass,
            (before.sample_rate, step.frequency, step.q),
            after.noise_hpf@[channel].coefficients,
        ),
        after.noise_hpf@[0].coefficients == after.noise_hpf@[1].coefficients,
        after.noise_hpf@[channel].memory == before.noise_hpf@[channel].memory,
        after.rm_input_lpf@ == before.rm_input_lpf@,
        after.noise_lpf@ == before.noise_lpf@,
        after.sample_rate == before.sample_rate,
        after.prng == before.prng,
{
    let (freq, q) = (SmoothedParam::NoiseHpfFreq, SmoothedParam::NoiseHpfQ);
    let tuning = choose|tuning: Tuning<D::Sample>| #[trigger]
        tuning.given_by(controls, freq, q, controls_after) && before.retuned(
            Retunings::noise_hpf_only(tuning),
            after,
        );
    assert(after.rm_input_lpf@ == before.rm_input_lpf@);
    lemma_tuning_steps(tuning, controls, freq, q, controls_after)
}

/// Where the design tells any two settings apart, updates of the high-pass filters of the noise with
/// another sample rate, another frequency or another resonance leave other coefficients.
pub proof fn law_noise_hpf_updates_differ<D: Dsp, C: Controls<D::Sample>>(
    before_a: Crisp<D>,
    before_b: Crisp<D>,
    after_a: Crisp<D>,
    after_b: Crisp<D>,
    controls_a: C,
    controls_b: C,
    controls_after_a: C,
    controls_after_b: C,
    channel: int,
)
    requires
        exists|call: &mut Crisp<D>| #[trigger]
            call_ensures(Crisp::<D>::update_noise_hpf::<C>, (call, controls_a), controls_after_a)
                && *call == before_a && *final(call) == after_a,
        exists|call: &mut Crisp<D>| #[trigger]
            call_ensures(Crisp::<D>::update_noise_hpf::<C>, (call, controls_b), controls_after_b)
                && *call == before_b && *final(call) == after_b,
        0 <= channel < 2,
        forall|
            rate: D::Sample,
            frequency: D::Sample,
            q: D::Sample,
            other_rate: D::Sample,
            other_frequency: D::Sample,
            other_q: D::Sample,
            r: D::Coefficients,
            s: D::Coefficients,
        | #[trigger]
            call_ensures(D::highpass, (rate, frequency, q), r) && #[trigger] call_ensures(
                D::highpass,
                (other_rate, other_frequency, other_q),
                s,
            ) && r == s ==> rate == other_rate && frequency == other_frequency && q == other_q,
        ({
            ||| before_a.sample_rate != before_b.sample_rate
            ||| forall|v: D::Sample, w: D::Sample, x: C, y: C|
                call_ensures(
                    crate::dsp::advance::<D::Sample, C>,
                    (controls_a, SmoothedParam::NoiseHpfFreq),
                    (v, x),
                ) && call_ensures(
                    crate::dsp::advance::<D::Sample, C>,
                    (controls_b, SmoothedParam::NoiseHpfFreq),
                    (w, y),
                ) ==> v != w
            ||| forall|v: D::Sample, w: D::Sample, x: C, y: C|
                call_ensures(
                    crate::dsp::advance::<D::Sample, C>,
                    (x, SmoothedParam::NoiseHpfQ),
                    (v, controls_after_a),
                ) && call_ensures(
                    crate::dsp::advance::<D::Sample, C>,
                    (y, SmoothedParam::NoiseHpfQ),
                    (w, controls_after_b),
                ) ==> v != w
        }),
    ensures
        after_a.noise_hpf@[channel].coefficients != after_b.noise_hpf@[channel].coefficients,
{
    let _ = law_noise_hpf_update(
        before_a,
        after_a,
        controls_a,
        controls_after_a,
        channel,
    );
    let _ = law_noise_hpf_update(
        before_b,
        after_b,
        controls_b,
        controls_after_b,
        channel,
    );
}

/// Updating the low-pass filters of the noise moves their frequency and then their resonance by one
/// step. Both filters get coefficients that are designed from exactly the sample rate and these two
/// values. Nothing else is touched.
pub proof fn law_noise_lpf_update<D: Dsp, C: Controls<D::Sample>>(
    before: Crisp<D>,
    after: Crisp<D>,
    controls: C,
    controls_after: C,
    channel: int,
) -> (step: BankStep<D::Sample, C>)
    requires
        exists|call: &mut Crisp<D>| #[trigger]
            call_ensures(Crisp::<D>::update_noise_lpf::<C>, (call, controls), controls_after) && *call == before
                && *final(call) == after,
        0 <= channel < 2,
    ensures
        call_ensures(
            crate::dsp::advance::<D::Sample, C>,
            (controls, SmoothedParam::NoiseLpfFreq),
            (step.frequency, step.between),
        ),
        call_ensures(
            crate::dsp::advance::<D::Sample, C>,
            (step.between, SmoothedParam::NoiseLpfQ),
            (step.q, controls_after),
        ),
        call_ensures(
            D::lowpass,
            (before.sample_rate, step.frequency, step.q),
            after.noise_lpf@[channel].coefficients,
        ),
        after.noise_lpf@[0].coefficients == after.noise_lpf@[1].coefficients,
        after.noise_lpf@[channel].memory == before.noise_lpf@[channel].memory,
        after.rm_input_lpf@ == before.rm_input_lpf@,
        after.noise_hpf@ == before.noise_hpf@,
        after.sample_rate == before.sample_rate,
        after.prng == before.prng,
{
    let (freq, q) = (SmoothedParam::NoiseLpfFreq, SmoothedParam::NoiseLpfQ);
    let tuning = choose|tuning: Tuning<D::Sample>| #[trigger]
        tuning.given_by(controls, freq, q, controls_after) && before.retuned(
            Retunings::noise_lpf_only(tuning),
            after,
        );
    assert(after.rm_input_lpf@ == before.rm_input_lpf@);
    lemma_tuning_steps(tuning, controls, freq, q, controls_after)
}

/// Where the design tells any two settings apart, updates of the low-pass filters of the noise with
/// another sample rate, another frequency or another resonance leave other coefficients.
pub proof fn law_noise_lpf_updates_differ<D: Dsp, C: Controls<D::Sample>>(
    before_a: Crisp<D>,
    before_b: Crisp<D>,
    after_a: Crisp<D>,
    after_b: Crisp<D>,
    controls_a: C,
    controls_b: C,
    controls_after_a: C,
    controls_after_b: C,
    channel: int,
)
    requires
        exists|call: &mut Crisp<D>| #[trigger]
            call_ensures(Crisp::<D>::update_noise_lpf::<C>, (call, controls_a), controls_after_a)
                && *call == before_a && *final(call) == after_a,
        exists|call: &mut Crisp<D>| #[trigger]
            call_ensures(Crisp::<D>::update_noise_lpf::<C>, (call, controls_b), controls_after_b)
                && *call == before_b && *final(call) == after_b,
        0 <= channel < 2,
        forall|
            rate: D::Sample,
            frequency: D::Sample,
            q: D::Sample,
            other_rate: D::Sample,
            other_frequency: D::Sample,
            other_q: D::Sample,
            r: D::Coefficients,
            s: D::Coefficients,
        | #[trigger]
            call_ensures(D::lowpass, (rate, frequency, q), r) && #[trigger] call_ensures(
                D::lowpass,
                (other_rate, other_frequency, other_q),
                s,
            ) && r == s ==> rate == other_rate && frequency == other_frequency && q == other_q,
        ({
            ||| before_a.sample_rate != before_b.sample_rate
            ||| forall|v: D::Sample, w: D::Sample, x: C, y: C|
                call_ensures(
                    crate::dsp::advance::<D::Sample, C>,
                    (controls_a, SmoothedParam::NoiseLpfFreq),
                    (v, x),
                ) && call_ensures(
                    crate::dsp::advance::<D::Sample, C>,
                    (controls_b, SmoothedParam::NoiseLpfFreq),
                    (w, y),
                ) ==> v != w
            ||| forall|v: D::Sample, w: D::Sample, x: C, y: C|
                call_ensures(
                    crate::dsp::advance::<D::Sample, C>,
                    (x, SmoothedParam::NoiseLpfQ),
                    (v, controls_after_a),
                ) && call_ensures(
                    crate::dsp::advance::<D::Sample, C>,
                    (y, SmoothedParam::NoiseLpfQ),
                    (w, controls_after_b),
                ) ==> v != w
        }),
    ensures
        after_a.noise_lpf@[channel].coefficients != after_b.noise_lpf@[channel].coefficients,
{
    let _ = law_noise_lpf_update(
        before_a,
        after_a,
        controls_a,
        controls_after_a,
        channel,
    );
    let _ = law_noise_lpf_update(
        before_b,
        after_b,
        controls_b,
        controls_after_b,
        channel,
    );
}

/// Preparing the effect takes over the sample rate and designs all filters for it, each from the next
/// values of its two parameters: first the input filters, then the high-pass and then the low-pass
/// filters of the noise. It always succeeds. The noise and what the filters remember are left alone.
pub proof fn law_initializing_designs_all_filters<D: Dsp, C: Controls<D::Sample>>(
    before: Crisp<D>,
    after: Crisp<D>,
    config: &BufferConfig<D::Sample>,
    controls: C,
    outcome: (bool, C),
    channel: int,
) -> (steps: (BankStep<D::Sample, C>, BankStep<D::Sample, C>, BankStep<D::Sample, C>))
    requires
        exists|call: &mut Crisp<D>| #[trigger]
            call_ensures(Crisp::<D>::initialize::<C>, (call, config, controls), outcome) && *call == before
                && *final(call) == after,
        0 <= channel < 2,
    ensures
        outcome.0,
        after.sample_rate == config.sample_rate,
        after.prng == before.prng,
        call_ensures(
            crate::dsp::advance::<D::Sample, C>,
            (controls, SmoothedParam::RmInputLpfFreq),
            (steps.0.frequency, steps.0.between),
        ),
        call_ensures(
            crate::dsp::advance::<D::Sample, C>,
            (steps.0.between, SmoothedParam::RmInputLpfQ),
            (steps.0.q, steps.0.after),
        ),
        call_ensures(
            D::lowpass,
            (config.sample_rate, steps.0.frequency, steps.0.q),
            after.rm_input_lpf@[channel].coefficients,
        ),
        after.rm_input_lpf@[channel].memory == before.rm_input_lpf@[channel].memory,
        call_ensures(
            crate::dsp::advance::<D::Sample, C>,
            (steps.0.after, SmoothedParam::NoiseHpfFreq),
            (steps.1.frequency, steps.1.between),
        ),
        call_ensures(
            crate::dsp::advance::<D::Sample, C>,
            (steps.1.between, SmoothedParam::NoiseHpfQ),
            (steps.1.q, steps.1.after),
        ),
        call_ensures(
            D::highpass,
            (config.sample_rate, steps.1.frequency, steps.1.q),
            after.noise_hpf@[channel].coefficients,
        ),
        after.noise_hpf@[channel].memory == before.noise_hpf@[channel].memory,
        call_ensures(
            crate::dsp::advance::<D::Sample, C>,
            (steps.1.after, SmoothedParam::NoiseLpfFreq),
            (steps.2.frequency, steps.2.between),
        ),
        call_ensures(
            crate::dsp::advance::<D::Sample, C>,
            (steps.2.between, SmoothedParam::NoiseLpfQ),
            (steps.2.q, steps.2.after),
        ),
        call_ensures(
            D::lowpass,
            (config.sample_rate, steps.2.frequency, steps.2.q),
            after.noise_lpf@[channel].coefficients,
        ),
        after.noise_lpf@[channel].memory == before.noise_lpf@[channel].memory,
        steps.2.after == outcome.1,
{
    let start = Crisp { sample_rate: config.sample_rate, ..before };
    let retunings = choose|retunings: Retunings<D::Sample>| #[trigger]
        retunings.all_given_by(controls, outcome.1) && start.retuned(retunings, after);
    let (first, second) = choose|first: C, second: C|
        {
            &&& #[trigger] retunings.rm_input_lpf->0.given_by(
                controls,
                SmoothedParam::RmInputLpfFreq,
                SmoothedParam::RmInputLpfQ,
                first,
            )
            &&& retunings.noise_hpf->0.given_by(
                first,
                SmoothedParam::NoiseHpfFreq,
                SmoothedParam::NoiseHpfQ,
                second,
            )
            &&& #[trigger] retunings.noise_lpf->0.given_by(
                second,
                SmoothedParam::NoiseLpfFreq,
                SmoothedParam::NoiseLpfQ,
                outcome.1,
            )
        };
    let a = lemma_tuning_steps(
        retunings.rm_input_lpf->0,
        controls,
        SmoothedParam::RmInputLpfFreq,
        SmoothedParam::RmInputLpfQ,
        first,
    );
    let b = lemma_tuning_steps(
        retunings.noise_hpf->0,
        first,
        SmoothedParam::NoiseHpfFreq,
        SmoothedParam::NoiseHpfQ,
        second,
    );
    let c = lemma_tuning_steps(
        retunings.noise_lpf->0,
        second,
        SmoothedParam::NoiseLpfFreq,
        SmoothedParam::NoiseLpfQ,
        outcome.1,
    );
    (a, b, c)
}

pub(crate) proof fn lemma_polled_steps<S, C: Controls<S>>(
    tuning: Option<Tuning<S>>,
    before: C,
    frequency: SmoothedParam,
    q: SmoothedParam,
    after: C,
) -> (step: BankStep<S, C>)
    requires
        crate::flow::polled(before, frequency, q, tuning, after),
    ensures
        step.moved == tuning is Some,
        step.after == after,
        step.moved ==> {
            &&& call_ensures(C::is_smoothing, (&before, frequency), true) || call_ensures(
                C::is_smoothing,
                (&before, q),
                true,
            )
            &&& step.frequency == tuning->0.frequency
            &&& step.q == tuning->0.q
            &&& call_ensures(
                crate::dsp::advance::<S, C>,
                (before, frequency),
                (step.frequency, step.between),
            )
            &&& call_ensures(crate::dsp::advance::<S, C>, (step.between, q), (step.q, after))
        },
        !step.moved ==> {
            &&& call_ensures(C::is_smoothing, (&before, frequency), false)
            &&& call_ensures(C::is_smoothing, (&before, q), false)
            &&& after == before
        },
{
    match tuning {
        Some(values) => lemma_tuning_steps(values, before, frequency, q, after),
        None => BankStep {
            moved: false,
            frequency: arbitrary(),
            between: before,
            q: arbitrary(),
            after,
        },
    }
}

pub(crate) proof fn lemma_retunings_steps<S, C: Controls<S>>(
    retunings: Retunings<S>,
    before: C,
    after: C,
) -> (steps: (BankStep<S, C>, BankStep<S, C>, BankStep<S, C>))
    requires
        retunings.polled_from(before, after),
    ensures
        crate::flow::polled(
            before,
            SmoothedParam::RmInputLpfFreq,
            SmoothedParam::RmInputLpfQ,
            retunings.rm_input_lpf,
            steps.0.after,
        ),
        crate::flow::polled(
            steps.0.after,
            SmoothedParam::NoiseHpfFreq,
            SmoothedParam::NoiseHpfQ,
            retunings.noise_hpf,
            steps.1.after,
        ),
        crate::flow::polled(
            steps.1.after,
            SmoothedParam::NoiseLpfFreq,
            SmoothedParam::NoiseLpfQ,
            retunings.noise_lpf,
            after,
        ),
        steps.0.moved ==> {
            &&& call_ensures(C::is_smoothing, (&before, SmoothedParam::RmInputLpfFreq), true)
                || call_ensures(C::is_smoothing, (&before, SmoothedParam::RmInputLpfQ), true)
            &&& call_ensures(
                crate::dsp::advance::<S, C>,
                (before, SmoothedParam::RmInputLpfFreq),
                (steps.0.frequency, steps.0.between),
            )
            &&& call_ensures(
                crate::dsp::advance::<S, C>,
                (steps.0.between, SmoothedParam::RmInputLpfQ),
                (steps.0.q, steps.0.after),
            )
        },
        !steps.0.moved ==> {
            &&& call_ensures(C::is_smoothing, (&before, SmoothedParam::RmInputLpfFreq), false)
            &&& call_ensures(C::is_smoothing, (&before, SmoothedParam::RmInputLpfQ), false)
            &&& steps.0.after == before
        },
        steps.1.moved ==> {
            &&& call_ensures(C::is_smoothing, (&steps.0.after, SmoothedParam::NoiseHpfFreq), true)
                || call_ensures(C::is_smoothing, (&steps.0.after, SmoothedParam::NoiseHpfQ), true)
            &&& call_ensures(
                crate::dsp::advance::<S, C>,
                (steps.0.after, SmoothedParam::NoiseHpfFreq),
                (steps.1.frequency, steps.1.between),
            )
            &&& call_ensures(
                crate::dsp::advance::<S, C>,
                (steps.1.between, SmoothedParam::NoiseHpfQ),
                (steps.1.q, steps.1.after),
            )
        },
        !steps.1.moved ==> {
            &&& call_ensures(C::is_smoothing, (&steps.0.after, SmoothedParam::NoiseHpfFreq), false)
            &&& call_ensures(C::is_smoothing, (&steps.0.after, SmoothedParam::NoiseHpfQ), false)
            &&& steps.1.after == steps.0.after
        },
        steps.2.moved ==> {
            &&& call_ensures(C::is_smoothing, (&steps.1.after, SmoothedParam::NoiseLpfFreq), true)
                || call_ensures(C::is_smoothing, (&steps.1.after, SmoothedParam::NoiseLpfQ), true)
            &&& call_ensures(
                crate::dsp::advance::<S, C>,
                (steps.1.after, SmoothedParam::NoiseLpfFreq),
                (steps.2.frequency, steps.2.between),
            )
            &&& call_ensures(
                crate::dsp::advance::<S, C>,
                (steps.2.between, SmoothedParam::NoiseLpfQ),
                (steps.2.q, steps.2.after),
            )
        },
        !steps.2.moved ==> {
            &&& call_ensures(C::is_smoothing, (&steps.1.after, SmoothedParam::NoiseLpfFreq), false)
            &&& call_ensures(C::is_smoothing, (&steps.1.after, SmoothedParam::NoiseLpfQ), false)
            &&& steps.2.after == steps.1.after
        },
        steps.0.moved == retunings.rm_input_lpf is Some,
        steps.0.moved ==> retunings.rm_input_lpf == Some(
            Tuning { frequency: steps.0.frequency, q: steps.0.q },
        ),
        steps.1.moved == retunings.noise_hpf is Some,
        steps.1.moved ==> retunings.noise_hpf == Some(
            Tuning { frequency: steps.1.frequency, q: steps.1.q },
        ),
        steps.2.moved == retunings.noise_lpf is Some,
        steps.2.moved ==> retunings.noise_lpf == Some(
            Tuning { frequency: steps.2.frequency, q: steps.2.q },
        ),
        steps.2.after == after,
{
    let (freq_1, q_1) = (SmoothedParam::RmInputLpfFreq, SmoothedParam::RmInputLpfQ);
    let (freq_2, q_2) = (SmoothedParam::NoiseHpfFreq, SmoothedParam::NoiseHpfQ);
    let (freq_3, q_3) = (SmoothedParam::NoiseLpfFreq, SmoothedParam::NoiseLpfQ);
    let (first, second) = choose|first: C, second: C|
        {
            &&& #[trigger] crate::flow::polled(before, freq_1, q_1, retunings.rm_input_lpf, first)
            &&& crate::flow::polled(first, freq_2, q_2, retunings.noise_hpf, second)
            &&& #[trigger] crate::flow::polled(second, freq_3, q_3, retunings.noise_lpf, after)
        };
    let a = lemma_polled_steps(retunings.rm_input_lpf, before, freq_1, q_1, first);
    let b = lemma_polled_steps(retunings.noise_hpf, first, freq_2, q_2, second);
    let c = lemma_polled_steps(retunings.noise_lpf, second, freq_3, q_3, after);
    (a, b, c)
}

/// The filters are updated bank by bank. Where the controls say that the frequency of a bank is on
/// the move, or that its resonance is, both are moved by one step and both filters of the bank get
/// coefficients that are designed from the new values. A bank is left alone only where both are said
/// to be at rest. What the filters remember, the noise and the sample rate are left alone.
pub proof fn law_moving_filters_are_updated<D: Dsp, C: Controls<D::Sample>>(
    before: Crisp<D>,
    after: Crisp<D>,
    controls: C,
    controls_after: C,
    channel: int,
) -> (steps: (BankStep<D::Sample, C>, BankStep<D::Sample, C>, BankStep<D::Sample, C>))
    requires
        exists|call: &mut Crisp<D>| #[trigger]
            call_ensures(Crisp::<D>::maybe_update_filters::<C>, (call, controls), controls_after) && *call == before
                && *final(call) == after,
        0 <= channel < 2,
    ensures
        steps.0.moved ==> {
            &&& call_ensures(C::is_smoothing, (&controls, SmoothedParam::RmInputLpfFreq), true)
                || call_ensures(C::is_smoothing, (&controls, SmoothedParam::RmInputLpfQ), true)
            &&& call_ensures(
                crate::dsp::advance::<D::Sample, C>,
                (controls, SmoothedParam::RmInputLpfFreq),
                (steps.0.frequency, steps.0.between),
            )
            &&& call_ensures(
                crate::dsp::advance::<D::Sample, C>,
                (steps.0.between, SmoothedParam::RmInputLpfQ),
                (steps.0.q, steps.0.after),
            )
        },
        !steps.0.moved ==> {
            &&& call_ensures(C::is_smoothing, (&controls, SmoothedParam::RmInputLpfFreq), false)
            &&& call_ensures(C::is_smoothing, (&controls, SmoothedParam::RmInputLpfQ), false)
            &&& steps.0.after == controls
        },
        steps.1.moved ==> {
            &&& call_ensures(C::is_smoothing, (&steps.0.after, SmoothedParam::NoiseHpfFreq), true)
                || call_ensures(C::is_smoothing, (&steps.0.after, SmoothedParam::NoiseHpfQ), true)
            &&& call_ensures(
                crate::dsp::advance::<D::Sample, C>,
                (steps.0.after, SmoothedParam::NoiseHpfFreq),
                (steps.1.frequency, steps.1.between),
            )
            &&& call_ensures(
                crate::dsp::advance::<D::Sample, C>,
                (steps.1.between, SmoothedParam::NoiseHpfQ),
                (steps.1.q, steps.1.after),
            )
        },
        !steps.1.moved ==> {
            &&& call_ensures(C::is_smoothing, (&steps.0.after, SmoothedParam::NoiseHpfFreq), false)
            &&& call_ensures(C::is_smoothing, (&steps.0.after, SmoothedParam::NoiseHpfQ), false)
            &&& steps.1.after == steps.0.after
        },
        steps.2.moved ==> {
            &&& call_ensures(C::is_smoothing, (&steps.1.after, SmoothedParam::NoiseLpfFreq), true)
                || call_ensures(C::is_smoothing, (&steps.1.after, SmoothedParam::NoiseLpfQ), true)
            &&& call_ensures(
                crate::dsp::advance::<D::Sample, C>,
                (steps.1.after, SmoothedParam::NoiseLpfFreq),
                (steps.2.frequency, steps.2.between),
            )
            &&& call_ensures(
                crate::dsp::advance::<D::Sample, C>,
                (steps.2.between, SmoothedParam::NoiseLpfQ),
                (steps.2.q, steps.2.after),
            )
        },
        !steps.2.moved ==> {
            &&& call_ensures(C::is_smoothing, (&steps.1.after, SmoothedParam::NoiseLpfFreq), false)
            &&& call_ensures(C::is_smoothing, (&steps.1.after, SmoothedParam::NoiseLpfQ), false)
            &&& steps.2.after == steps.1.after
        },
        steps.0.moved ==> call_ensures(
            D::lowpass,
            (before.sample_rate, steps.0.frequency, steps.0.q),
            after.rm_input_lpf@[channel].coefficients,
        ) && after.rm_input_lpf@[channel].memory == before.rm_input_lpf@[channel].memory,
        !steps.0.moved ==> after.rm_input_lpf@ == before.rm_input_lpf@,
        (forall|c: C| !#[trigger] call_ensures(C::is_smoothing, (&c, SmoothedParam::RmInputLpfFreq), false))
            || (forall|c: C| !#[trigger] call_ensures(
            C::is_smoothing,
            (&c, SmoothedParam::RmInputLpfQ),
            false,
        )) ==> steps.0.moved,
        (forall|c: C| !#[trigger] call_ensures(C::is_smoothing, (&c, SmoothedParam::RmInputLpfFreq), true))
            && (forall|c: C| !#[trigger] call_ensures(
            C::is_smoothing,
            (&c, SmoothedParam::RmInputLpfQ),
            true,
        )) ==> !steps.0.moved,
        steps.1.moved ==> call_ensures(
            D::highpass,
            (before.sample_rate, steps.1.frequency, steps.1.q),
            after.noise_hpf@[channel].coefficients,
        ) && after.noise_hpf@[channel].memory == before.noise_hpf@[channel].memory,
        !steps.1.moved ==> after.noise_hpf@ == before.noise_hpf@,
        (forall|c: C| !#[trigger] call_ensures(C::is_smoothing, (&c, SmoothedParam::NoiseHpfFreq), false))
            || (forall|c: C| !#[trigger] call_ensures(
            C::is_smoothing,
            (&c, SmoothedParam::NoiseHpfQ),
            false,
        )) ==> steps.1.moved,
        (forall|c: C| !#[trigger] call_ensures(C::is_smoothing, (&c, SmoothedParam::NoiseHpfFreq), true))
            && (forall|c: C| !#[trigger] call_ensures(
            C::is_smoothing,
            (&c, SmoothedParam::NoiseHpfQ),
            true,
        )) ==> !steps.1.moved,
        steps.2.moved ==> call_ensures(
            D::lowpass,
            (before.sample_rate, steps.2.frequency, steps.2.q),
            after.noise_lpf@[channel].coefficients,
        ) && after.noise_lpf@[channel].memory == before.noise_lpf@[channel].memory,
        !steps.2.moved ==> after.noise_lpf@ == before.noise_lpf@,
        (forall|c: C| !#[trigger] call_ensures(C::is_smoothing, (&c, SmoothedParam::NoiseLpfFreq), false))
            || (forall|c: C| !#[trigger] call_ensures(
            C::is_smoothing,
            (&c, SmoothedParam::NoiseLpfQ),
            false,
        )) ==> steps.2.moved,
        (forall|c: C| !#[trigger] call_ensures(C::is_smoothing, (&c, SmoothedParam::NoiseLpfFreq), true))
            && (forall|c: C| !#[trigger] call_ensures(
            C::is_smoothing,
            (&c, SmoothedParam::NoiseLpfQ),
            true,
        )) ==> !steps.2.moved,
        steps.2.after == controls_after,
        after.sample_rate == before.sample_rate,
        after.prng == before.prng,
{
    let retunings = choose|retunings: Retunings<D::Sample>| #[trigger]
        retunings.polled_from(controls, controls_after) && before.retuned(retunings, after);
    lemma_retunings_steps(retunings, controls, controls_after)
}

} // verus!
