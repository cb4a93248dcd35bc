//! What becomes of a frame, and of a buffer, told from the samples that go in and come out.

use crate::config::{Mode, ProcessStatus, SmoothedParam, StereoMode};
use crate::crisp::Crisp;
use crate::dsp::{Controls, Dsp};
use crate::flow::{FrameControls, Run};
use crate::operation_laws::{Noise, RingModulation};
use vstd::prelude::*;

verus! {

/// What a wet sample is made from.
pub struct WetSample<S> {
    /// The noise sample, and what it is made from.
    pub noise: S,
    pub drawn: Noise<S>,
    /// The ring modulated sample, and what it is made from.
    pub result: S,
    pub modulated: RingModulation<S>,
    pub two: S,
    /// The gain of the modulated sound.
    pub amount: S,
}

/// The channel whose noise a channel is modulated with: the first one for all channels, or its own.
pub open spec fn noise_channel(stereo_mode: StereoMode, channel: int) -> int {
    match stereo_mode {
        StereoMode::Mono => 0,
        StereoMode::Stereo => channel,
    }
}

proof fn lemma_noise_parts<D: Dsp>(
    before: Crisp<D>,
    channel: int,
    noise: D::Sample,
    after: Crisp<D>,
) -> (made: Noise<D::Sample>)
    requires
        before.draws_noise(channel, noise, after),
        0 <= channel < 2,
    ensures
        made.word == before.prng.word(),
        crate::generator_laws::state_behind(made.word) == before.prng.state,
        call_ensures(D::uniform, (made.word,), made.unit),
        call_ensures(D::constant, (2i8,), made.two),
        call_ensures(D::times, (made.unit, made.two), made.wide),
        call_ensures(D::constant, (1i8,), made.one),
        call_ensures(D::minus, (made.wide, made.one), made.white),
        call_ensures(
            D::filter_step,
            (
                before.noise_hpf@[channel].coefficients,
                before.noise_hpf@[channel].memory,
                made.white,
            ),
            (after.noise_hpf@[channel].memory, made.high_passed),
        ),
        call_ensures(
            D::filter_step,
            (
                before.noise_lpf@[channel].coefficients,
                before.noise_lpf@[channel].memory,
                made.high_passed,
            ),
            (after.noise_lpf@[channel].memory, noise),
        ),
        after.noise_hpf@[channel].coefficients == before.noise_hpf@[channel].coefficients,
        after.noise_lpf@[channel].coefficients == before.noise_lpf@[channel].coefficients,
{
    let c = channel;
    let (white, high_passed) = choose|white: D::Sample, high_passed: D::Sample|
        {
            &&& crate::flow::whitens::<D>(before.prng.word(), white)
            &&& #[trigger] before.noise_hpf@[c].filters(white, high_passed, after.noise_hpf@[c])
            &&& before.noise_lpf@[c].filters(high_passed, noise, after.noise_lpf@[c])
        };
    let word = before.prng.word();
    let (unit, two, wide, one) = choose|
        unit: D::Sample,
        two: D::Sample,
        wide: D::Sample,
        one: D::Sample,
    |
        {
            &&& call_ensures(D::uniform, (word,), unit)
            &&& call_ensures(D::constant, (2i8,), two)
            &&& #[trigger] call_ensures(D::times, (unit, two), wide)
            &&& call_ensures(D::constant, (1i8,), one)
            &&& #[trigger] call_ensures(D::minus, (wide, one), white)
        };
    crate::generator_laws::lemma_word_undone(before.prng);
    Noise { word, unit, two, wide, one, white, high_passed }
}

/// A frame keeps the sample rate, and it leaves every filter with the coefficients that it goes
/// through the frame with: those that it had, or, where the parameters of its bank were moved, those
/// that are designed from the two new values.
pub proof fn law_a_frame_retunes_first<D: Dsp>(
    before: Crisp<D>,
    input: Seq<D::Sample>,
    heard: FrameControls<D::Sample>,
    wet: Seq<D::Sample>,
    after: Crisp<D>,
    channel: int,
)
    requires
        before.modulates_frame(input, heard, wet, after),
        0 <= channel < 2,
    ensures
        after.sample_rate == before.sample_rate,
        match heard.retunings.rm_input_lpf {
            Some(tuning) => call_ensures(
                D::lowpass,
                (before.sample_rate, tuning.frequency, tuning.q),
                after.rm_input_lpf@[channel].coefficients,
            ),
            None => after.rm_input_lpf@[channel].coefficients == before.rm_input_lpf@[channel].coefficients,
        },
        match heard.retunings.noise_hpf {
            Some(tuning) => call_ensures(
                D::highpass,
                (before.sample_rate, tuning.frequency, tuning.q),
                after.noise_hpf@[channel].coefficients,
            ),
            None => after.noise_hpf@[channel].coefficients == before.noise_hpf@[channel].coefficients,
        },
        match heard.retunings.noise_lpf {
            Some(tuning) => call_ensures(
                D::lowpass,
                (before.sample_rate, tuning.frequency, tuning.q),
                after.noise_lpf@[channel].coefficients,
            ),
            None => after.noise_lpf@[channel].coefficients == before.noise_lpf@[channel].coefficients,
        },
{
    let (amount, tuned) = choose|amount: D::Sample, tuned: Crisp<D>|
        {
            &&& crate::flow::scales_amount::<D>(heard.amount, amount)
            &&& before.retuned(heard.retunings, tuned)
            &&& #[trigger] tuned.modulates_channels(input, heard, amount, wet, after)
        };
    crate::laws::lemma_modulates_channels_keeps_settings(tuned, input, heard, amount, wet, after);
    assert(tuned.rm_input_lpf@[channel].coefficients == after.rm_input_lpf@[channel].coefficients);
    assert(tuned.noise_hpf@[channel].coefficients == after.noise_hpf@[channel].coefficients);
    assert(tuned.noise_lpf@[channel].coefficients == after.noise_lpf@[channel].coefficients);
}

/// What becomes of a sample of a frame, from its channel to its wet sample:
///
/// - The noise is made from the next word of the generator, and from the one after that for the
///   second of two channels with noise of their own. It goes through the noise filters of the first
///   channel if the channels share it, and of its own channel otherwise.
/// - The sample goes through the input filter of its channel. All of it, or its positive or negative
///   part, is multiplied with the noise.
/// - That is multiplied with the gain of the modulated sound, which is twice the amount.
pub proof fn law_a_sample_becomes_wet<D: Dsp>(
    before: Crisp<D>,
    input: Seq<D::Sample>,
    heard: FrameControls<D::Sample>,
    wet: Seq<D::Sample>,
    after: Crisp<D>,
    channel: int,
) -> (made: WetSample<D::Sample>)
    requires
        before.modulates_frame(input, heard, wet, after),
        0 <= channel < input.len(),
    ensures
        input.len() <= 2,
        wet.len() == input.len(),
        heard.modes.len() == input.len(),
        crate::generator_laws::state_behind(made.drawn.word) == before.prng.advanced(
            noise_channel(heard.stereo_mode, channel) as nat,
        ).state,
        call_ensures(D::uniform, (made.drawn.word,), made.drawn.unit),
        call_ensures(D::constant, (2i8,), made.drawn.two),
        call_ensures(D::times, (made.drawn.unit, made.drawn.two), made.drawn.wide),
        call_ensures(D::constant, (1i8,), made.drawn.one),
        call_ensures(D::minus, (made.drawn.wide, made.drawn.one), made.drawn.white),
        ({
            let k = noise_channel(heard.stereo_mode, channel);
            &&& call_ensures(
                D::filter_step,
                (
                    after.noise_hpf@[k].coefficients,
                    before.noise_hpf@[k].memory,
                    made.drawn.white,
                ),
                (after.noise_hpf@[k].memory, made.drawn.high_passed),
            )
            &&& call_ensures(
                D::filter_step,
                (
                    after.noise_lpf@[k].coefficients,
                    before.noise_lpf@[k].memory,
                    made.drawn.high_passed,
                ),
                (after.noise_lpf@[k].memory, made.noise),
            )
        }),
        call_ensures(
            D::filter_step,
            (
                after.rm_input_lpf@[channel].coefficients,
                before.rm_input_lpf@[channel].memory,
                input[channel],
            ),
            (after.rm_input_lpf@[channel].memory, made.modulated.filtered),
        ),
        made.modulated.mode == heard.modes[channel],
        made.modulated.mode == Mode::Crispy ==> made.modulated.part == made.modulated.filtered,
        made.modulated.mode == Mode::EvenCrispier ==> call_ensures(
            D::constant,
            (0i8,),
            made.modulated.zero,
        ) && call_ensures(
            D::max,
            (made.modulated.filtered, made.modulated.zero),
            made.modulated.part,
        ),
        made.modulated.mode == Mode::EvenCrispierNegated ==> call_ensures(
            D::constant,
            (0i8,),
            made.modulated.zero,
        ) && call_ensures(
            D::min,
            (made.modulated.filtered, made.modulated.zero),
            made.modulated.part,
        ),
        call_ensures(D::times, (made.modulated.part, made.noise), made.result),
        call_ensures(D::constant, (2i8,), made.two),
        call_ensures(D::times, (heard.amount, made.two), made.amount),
        call_ensures(D::times, (made.result, made.amount), wet[channel]),
{
    reveal_with_fuel(crate::pcg::Pcg32iState::advanced, 3);
    let (amount, tuned) = choose|amount: D::Sample, tuned: Crisp<D>|
        {
            &&& crate::flow::scales_amount::<D>(heard.amount, amount)
            &&& before.retuned(heard.retunings, tuned)
            &&& #[trigger] tuned.modulates_channels(input, heard, amount, wet, after)
        };
    let two = choose|multiplier: D::Sample|
        call_ensures(D::constant, (crate::config::AMOUNT_GAIN_MULTIPLIER,), multiplier)
            && #[trigger] call_ensures(D::times, (heard.amount, multiplier), amount);
    match heard.stereo_mode {
        StereoMode::Mono => {
            let (noise, states) = choose|noise: D::Sample, states: Seq<Crisp<D>>| #[trigger]
                tuned.modulates_mono(input, heard.modes, amount, noise, wet, states)
                    && states.last() == after;
            let drawn = lemma_noise_parts(tuned, 0, noise, states[0]);
            assert(states[0].modulates_sample(
                input[0],
                0,
                noise,
                heard.modes[0],
                amount,
                wet[0],
                states[1],
            ));
            if input.len() > 1 {
                assert(states[1].modulates_sample(
                    input[1],
                    1,
                    noise,
                    heard.modes[1],
                    amount,
                    wet[1],
                    states[2],
                ));
            }
            let (from, to) = (states[channel], states[channel + 1]);
            let mode = heard.modes[channel];
            let result = choose|result: D::Sample| #[trigger]
                from.ring_modulates(input[channel], channel, noise, mode, result, to)
                    && call_ensures(D::times, (result, amount), wet[channel]);
            let modulated = crate::operation_laws::lemma_ring_modulation(
                from,
                input[channel],
                channel,
                noise,
                mode,
                result,
                to,
            );
            WetSample { noise, drawn, result, modulated, two, amount }
        },
        StereoMode::Stereo => {
            let (noises, states, drawns) = choose|
                noises: Seq<D::Sample>,
                states: Seq<Crisp<D>>,
                drawn: Seq<Crisp<D>>,
            | #[trigger]
                tuned.modulates_stereo(input, heard.modes, amount, noises, wet, states, drawn)
                    && states.last() == after;
            assert(states[0].modulates_with_own_noise(
                input[0],
                0,
                noises[0],
                drawns[0],
                heard.modes[0],
                amount,
                wet[0],
                states[1],
            ));
            if input.len() > 1 {
                assert(states[1].modulates_with_own_noise(
                    input[1],
                    1,
                    noises[1],
                    drawns[1],
                    heard.modes[1],
                    amount,
                    wet[1],
                    states[2],
                ));
            }
            let noise = noises[channel];
            let drawn = lemma_noise_parts(states[channel], channel, noise, drawns[channel]);
            let (from, to) = (drawns[channel], states[channel + 1]);
            let mode = heard.modes[channel];
            let result = choose|result: D::Sample| #[trigger]
                from.ring_modulates(input[channel], channel, noise, mode, result, to)
                    && call_ensures(D::times, (result, amount), wet[channel]);
            let modulated = crate::operation_laws::lemma_ring_modulation(
                from,
                input[channel],
                channel,
                noise,
                mode,
                result,
                to,
            );
            WetSample { noise, drawn, result, modulated, two, amount }
        },
    }
}

/// The filters that no sample of a frame goes through remember what they did: the input filter of a
/// channel that the frame lacks, and the noise filters of such a channel or of the second channel if
/// the first one's noise is shared. The generator moves on by one word for shared noise, and by one
/// word for each channel otherwise.
pub proof fn law_a_frame_touches_nothing_else<D: Dsp>(
    before: Crisp<D>,
    input: Seq<D::Sample>,
    heard: FrameControls<D::Sample>,
    wet: Seq<D::Sample>,
    after: Crisp<D>,
    channel: int,
)
    requires
        before.modulates_frame(input, heard, wet, after),
        0 <= channel < 2,
    ensures
        channel >= input.len() ==> after.rm_input_lpf@[channel].memory
            == before.rm_input_lpf@[channel].memory,
        heard.stereo_mode == StereoMode::Mono && channel == 1 || heard.stereo_mode
            == StereoMode::Stereo && channel >= input.len() ==> {
            &&& after.noise_hpf@[channel].memory == before.noise_hpf@[channel].memory
            &&& after.noise_lpf@[channel].memory == before.noise_lpf@[channel].memory
        },
        heard.stereo_mode == StereoMode::Mono ==> after.prng == before.prng.advanced(1),
        heard.stereo_mode == StereoMode::Stereo ==> after.prng == before.prng.advanced(input.len()),
{
    let (amount, tuned) = choose|amount: D::Sample, tuned: Crisp<D>|
        {
            &&& crate::flow::scales_amount::<D>(heard.amount, amount)
            &&& before.retuned(heard.retunings, tuned)
            &&& #[trigger] tuned.modulates_channels(input, heard, amount, wet, after)
        };
    crate::laws::lemma_modulates_channels_keeps_settings(tuned, input, heard, amount, wet, after);
    match heard.stereo_mode {
        StereoMode::Mono => {
            let (noise, states) = choose|noise: D::Sample, states: Seq<Crisp<D>>| #[trigger]
                tuned.modulates_mono(input, heard.modes, amount, noise, wet, states)
                    && states.last() == after;
            if input.len() > 0 {
                assert(states[0].modulates_sample(
                    input[0],
                    0,
                    noise,
                    heard.modes[0],
                    amount,
                    wet[0],
                    states[1],
                ));
            }
            if input.len() > 1 {
                assert(states[1].modulates_sample(
                    input[1],
                    1,
                    noise,
                    heard.modes[1],
                    amount,
                    wet[1],
                    states[2],
                ));
            }
        },
        StereoMode::Stereo => {
            let (noises, states, drawn) = choose|
                noises: Seq<D::Sample>,
                states: Seq<Crisp<D>>,
                drawn: Seq<Crisp<D>>,
            | #[trigger]
                tuned.modulates_stereo(input, heard.modes, amount, noises, wet, states, drawn)
                    && states.last() == after;
            if input.len() > 0 {
                assert(states[0].modulates_with_own_noise(
                    input[0],
                    0,
                    noises[0],
                    drawn[0],
                    heard.modes[0],
                    amount,
                    wet[0],
                    states[1],
                ));
            }
            if input.len() > 1 {
                assert(states[1].modulates_with_own_noise(
                    input[1],
                    1,
                    noises[1],
                    drawn[1],
                    heard.modes[1],
                    amount,
                    wet[1],
                    states[2],
                ));
            }
        },
    }
}

/// Zero times anything is zero, anything times zero is zero, and adding zero changes nothing.
pub open spec fn zero_annihilates<D: Dsp>(is_zero: spec_fn(D::Sample) -> bool) -> bool {
    &&& forall|x: D::Sample, y: D::Sample, r: D::Sample| #[trigger]
        call_ensures(D::times, (x, y), r) && (is_zero(x) || is_zero(y)) ==> is_zero(r)
    &&& forall|x: D::Sample, y: D::Sample, r: D::Sample| #[trigger]
        call_ensures(D::plus, (x, y), r) && is_zero(y) ==> r == x
}

/// Without any amount there is nothing to hear of the modulated sound: the wet samples are zero.
pub proof fn law_no_amount_no_wet_sound<D: Dsp>(
    is_zero: spec_fn(D::Sample) -> bool,
    before: Crisp<D>,
    input: Seq<D::Sample>,
    heard: FrameControls<D::Sample>,
    wet: Seq<D::Sample>,
    after: Crisp<D>,
    channel: int,
)
    requires
        before.modulates_frame(input, heard, wet, after),
        0 <= channel < input.len(),
        zero_annihilates::<D>(is_zero),
        is_zero(heard.amount),
    ensures
        is_zero(wet[channel]),
{
    let _ = law_a_sample_becomes_wet(before, input, heard, wet, after, channel);
}

/// The amount scales the modulated sound over its whole range: two frames that differ in the amount
/// alone have wet samples that are the same sample, once times twice the one amount and once times
/// twice the other.
pub proof fn law_amounts_scale_the_same_sound<D: Dsp>(
    a: Crisp<D>,
    b: Crisp<D>,
    input: Seq<D::Sample>,
    heard_a: FrameControls<D::Sample>,
    heard_b: FrameControls<D::Sample>,
    wet_a: Seq<D::Sample>,
    wet_b: Seq<D::Sample>,
    after_a: Crisp<D>,
    after_b: Crisp<D>,
    channel: int,
) -> (parts: (D::Sample, D::Sample, D::Sample, D::Sample))
    requires
        crate::laws::deterministic::<D>(),
        a.same_state(b),
        heard_b == (FrameControls { amount: heard_b.amount, ..heard_a }),
        a.modulates_frame(input, heard_a, wet_a, after_a),
        b.modulates_frame(input, heard_b, wet_b, after_b),
        0 <= channel < input.len(),
    ensures
        ({
            let (sample, two, amount_a, amount_b) = parts;
            &&& call_ensures(D::constant, (2i8,), two)
            &&& call_ensures(D::times, (heard_a.amount, two), amount_a)
            &&& call_ensures(D::times, (heard_b.amount, two), amount_b)
            &&& call_ensures(D::times, (sample, amount_a), wet_a[channel])
            &&& call_ensures(D::times, (sample, amount_b), wet_b[channel])
        }),
{
    let k = noise_channel(heard_a.stereo_mode, channel);
    let made_a = law_a_sample_becomes_wet(a, input, heard_a, wet_a, after_a, channel);
    let made_b = law_a_sample_becomes_wet(b, input, heard_b, wet_b, after_b, channel);
    law_a_frame_retunes_first(a, input, heard_a, wet_a, after_a, channel);
    law_a_frame_retunes_first(b, input, heard_b, wet_b, after_b, channel);
    law_a_frame_retunes_first(a, input, heard_a, wet_a, after_a, k);
    law_a_frame_retunes_first(b, input, heard_b, wet_b, after_b, k);
    let drawing = a.prng.advanced(k as nat);
    assert(made_a.drawn.word == made_b.drawn.word) by {
        crate::generator_laws::lemma_word_behind(made_a.drawn.word);
        crate::generator_laws::lemma_word_behind(made_b.drawn.word);
        assert(drawing.word() == made_a.drawn.word);
        assert(drawing.word() == made_b.drawn.word);
    }
    assert(made_a.drawn.white == made_b.drawn.white);
    assert(made_a.noise == made_b.noise);
    assert(made_a.modulated.filtered == made_b.modulated.filtered);
    assert(made_a.modulated.part == made_b.modulated.part);
    assert(made_a.two == made_b.two);
    (made_a.result, made_a.two, made_a.amount, made_b.amount)
}

/// Processing a buffer reaches every sample of its first two channels and no other one, and always
/// succeeds. Every frame is modulated in the state that the one before it had left, and every sample
/// that comes out is the sum of the sample that went in and its wet sample, times the output gain of
/// its frame.
pub proof fn law_every_sample_is_processed<D: Dsp, C: Controls<D::Sample>>(
    crisp: Crisp<D>,
    crisp_after: Crisp<D>,
    buffer: Vec<Vec<D::Sample>>,
    buffer_after: Vec<Vec<D::Sample>>,
    controls: C,
    outcome: (ProcessStatus, C),
) -> (told: (Run<D>, Seq<Seq<D::Sample>>, Seq<Seq<D::Sample>>))
    requires
        exists|call: &mut Crisp<D>, samples: &mut Vec<Vec<D::Sample>>| #[trigger]
            call_ensures(Crisp::<D>::process::<C>, (call, samples, controls), outcome) && *call
                == crisp && *final(call) == crisp_after && *samples == buffer && *final(samples)
                == buffer_after,
        forall|c: int|
            0 <= c < buffer@.len() ==> (#[trigger] buffer@[c])@.len() == buffer@[0]@.len(),
    ensures
        outcome.0 == ProcessStatus::Normal,
        buffer_after@.len() == buffer@.len(),
        forall|c: int|
            0 <= c < buffer@.len() ==> (#[trigger] buffer_after@[c])@.len() == buffer@[c]@.len(),
        forall|c: int| 2 <= c < buffer@.len() ==> (#[trigger] buffer_after@[c])@ == buffer@[c]@,
        told.0.heard_from(controls, outcome.1),
        ({
            let (run, frames, mixes) = told;
            let length = (if buffer@.len() == 0 {
                0
            } else {
                buffer@[0]@.len() as int
            });
            let channels = (if buffer@.len() < 2 {
                buffer@.len() as int
            } else {
                2
            });
            &&& frames.len() == length
            &&& run.heard.len() == length
            &&& run.wet.len() == length
            &&& run.gains.len() == length
            &&& run.states.len() == length + 1
            &&& run.states[0] == crisp
            &&& run.states[length] == crisp_after
            &&& forall|i: int| 0 <= i < length ==> (#[trigger] frames[i]).len() == channels
            &&& forall|i: int, c: int|
                0 <= i < length && 0 <= c < channels ==> #[trigger] frames[i][c] == buffer@[c]@[i]
            &&& forall|i: int|
                0 <= i < length ==> run.states[i].modulates_frame(
                    #[trigger] frames[i],
                    run.heard[i],
                    run.wet[i],
                    run.states[i + 1],
                )
            &&& forall|i: int, c: int|
                #![trigger buffer_after@[c]@[i]]
                0 <= i < length && 0 <= c < channels ==> {
                    &&& call_ensures(D::plus, (buffer@[c]@[i], run.wet[i][c]), mixes[i][c])
                    &&& call_ensures(
                        D::times,
                        (mixes[i][c], run.gains[i]),
                        buffer_after@[c]@[i],
                    )
                }
        }),
{
    assert(crate::flow::rectangular(buffer@));
    let input = crate::flow::frames(buffer@);
    let output = crate::flow::frames(buffer_after@);
    let run = choose|run: Run<D>| #[trigger]
        run.heard_from(controls, outcome.1) && run.leads(crisp, input, output, crisp_after);
    let channels = crate::flow::channel_count(buffer@);
    assert forall|i: int| 0 <= i < input.len() implies run.states[i].modulates_frame(
        #[trigger] input[i],
        run.heard[i],
        run.wet[i],
        run.states[i + 1],
    ) by {
        assert(run.wet[i].len() == input[i].len());
    }
    let mixes = Seq::new(
        input.len(),
        |i: int|
            Seq::new(
                channels,
                |c: int|
                    choose|mix: D::Sample| #[trigger]
                        call_ensures(D::plus, (input[i][c], run.wet[i][c]), mix) && call_ensures(
                            D::times,
                            (mix, run.gains[i]),
                            output[i][c],
                        ),
            ),
    );
    assert forall|i: int, c: int|
        #![trigger buffer_after@[c]@[i]]
        0 <= i < input.len() && 0 <= c < channels implies {
        &&& call_ensures(D::plus, (buffer@[c]@[i], run.wet[i][c]), mixes[i][c])
        &&& call_ensures(D::times, (mixes[i][c], run.gains[i]), buffer_after@[c]@[i])
    } by {
        assert(crate::flow::mixes_frame::<D>(input[i], run.wet[i], run.gains[i], output[i]));
        assert(output[i][c] == buffer_after@[c]@[i]);
        assert(crate::flow::mixes_sample::<D>(
            input[i][c],
            run.wet[i][c],
            run.gains[i],
            output[i][c],
        ));
    }
    (run, input, mixes)
}

/// Without any amount the effect is off: as long as the controls give an amount of zero, every sample
/// comes out as it went in, times the output gain of its frame.
pub proof fn law_without_amount_the_sound_stays_dry<D: Dsp, C: Controls<D::Sample>>(
    is_zero: spec_fn(D::Sample) -> bool,
    crisp: Crisp<D>,
    crisp_after: Crisp<D>,
    buffer: Vec<Vec<D::Sample>>,
    buffer_after: Vec<Vec<D::Sample>>,
    controls: C,
    outcome: (ProcessStatus, C),
) -> (gains: Seq<D::Sample>)
    requires
        exists|call: &mut Crisp<D>, samples: &mut Vec<Vec<D::Sample>>| #[trigger]
            call_ensures(Crisp::<D>::process::<C>, (call, samples, controls), outcome) && *call
                == crisp && *final(call) == crisp_after && *samples == buffer && *final(samples)
                == buffer_after,
        forall|c: int|
            0 <= c < buffer@.len() ==> (#[trigger] buffer@[c])@.len() == buffer@[0]@.len(),
        zero_annihilates::<D>(is_zero),
        forall|c: C, v: D::Sample, d: C| #[trigger]
            call_ensures(
                crate::dsp::advance::<D::Sample, C>,
                (c, SmoothedParam::Amount),
                (v, d),
            ) ==> is_zero(v),
    ensures
        forall|i: int, c: int|
            #![trigger buffer_after@[c]@[i]]
            0 <= c < buffer@.len() && c < 2 && 0 <= i < buffer@[c]@.len() ==> call_ensures(
                D::times,
                (buffer@[c]@[i], gains[i]),
                buffer_after@[c]@[i],
            ),
{
    let (run, frames, _) = law_every_sample_is_processed(
        crisp,
        crisp_after,
        buffer,
        buffer_after,
        controls,
        outcome,
    );
    assert forall|i: int, c: int|
        #![trigger buffer_after@[c]@[i]]
        0 <= c < buffer@.len() && c < 2 && 0 <= i < buffer@[c]@.len() implies call_ensures(
        D::times,
        (buffer@[c]@[i], run.gains[i]),
        buffer_after@[c]@[i],
    ) by {
        let frame = frames[i];
        assert(buffer@[0]@.len() == buffer@[c]@.len());
        crate::hearing_laws::lemma_frame_of_run_is_heard(run, controls, outcome.1, i);
        let (from, to) = choose|from: C, to: C| #[trigger] run.heard[i].heard_from(from, to);
        let steps = crate::hearing_laws::law_a_frame_is_heard(run.heard[i], from, to);
        law_no_amount_no_wet_sound(
            is_zero,
            run.states[i],
            frame,
            run.heard[i],
            run.wet[i],
            run.states[i + 1],
            c,
        );
    }
    run.gains
}

} // verus!
