//! The flow of samples through the effect, as a relation between what goes in, what the controls
//! say, and what comes out.

use crate::config::{FilterKind, Mode, SmoothedParam, StereoMode};
use crate::crisp::Crisp;
use crate::dsp::{Biquad, Controls, Dsp};
use vstd::prelude::*;

verus! {

/// The values that a filter is designed from, next to the sample rate.
pub struct Tuning<S> {
    pub frequency: S,
    pub q: S,
}

/// The filters that get new coefficients, with the values they are designed from.
pub struct Retunings<S> {
    pub rm_input_lpf: Option<Tuning<S>>,
    pub noise_hpf: Option<Tuning<S>>,
    pub noise_lpf: Option<Tuning<S>>,
}

/// What the controls say while one frame is modulated.
pub struct FrameControls<S> {
    /// The smoothed amount.
    pub amount: S,
    /// The filters whose parameters are on the move.
    pub retunings: Retunings<S>,
    /// The handling of stereo input.
    pub stereo_mode: StereoMode,
    /// The type of modulation, for each channel.
    pub modes: Seq<Mode>,
}

/// Moving a parameter one step further gave `value` and took the controls from `before` to `after`.
pub open spec fn moves<S, C: Controls<S>>(
    before: C,
    param: SmoothedParam,
    value: S,
    after: C,
) -> bool {
    call_ensures(crate::dsp::advance::<S, C>, (before, param), (value, after))
}

impl<S> Tuning<S> {
    /// Moving the two parameters one step further gave these values and left the controls `after`.
    pub open spec fn given_by<C: Controls<S>>(
        self,
        before: C,
        frequency: SmoothedParam,
        q: SmoothedParam,
        after: C,
    ) -> bool {
        exists|between: C| #[trigger]
            moves(before, frequency, self.frequency, between)
                && moves(between, q, self.q, after)
    }
}

/// If one of the two parameters is on the move, both were moved one step further, which gave the
/// values of `tuning` and left the controls `after`. Otherwise `tuning` is `None`, and the controls
/// were left as they were.
pub open spec fn polled<S, C: Controls<S>>(
    before: C,
    frequency: SmoothedParam,
    q: SmoothedParam,
    tuning: Option<Tuning<S>>,
    after: C,
) -> bool {
    match tuning {
        Some(values) => {
            &&& {
                ||| call_ensures(C::is_smoothing, (&before, frequency), true)
                ||| {
                    &&& call_ensures(C::is_smoothing, (&before, frequency), false)
                    &&& call_ensures(C::is_smoothing, (&before, q), true)
                }
            }
            &&& values.given_by(before, frequency, q, after)
        },
        None => {
            &&& call_ensures(C::is_smoothing, (&before, frequency), false)
            &&& call_ensures(C::is_smoothing, (&before, q), false)
            &&& after == before
        },
    }
}

/// The controls gave these modes, one for each channel.
pub open spec fn modes_heard<S, C: Controls<S>>(
    controls: C,
    channels: nat,
    modes: Seq<Mode>,
) -> bool {
    &&& modes.len() == channels
    &&& forall|c: int|
        0 <= c < channels ==> call_ensures(C::mode, (&controls,), #[trigger] modes[c])
}

impl<S> Retunings<S> {
    /// No filter is retuned.
    pub open spec fn none() -> Self {
        Retunings { rm_input_lpf: None, noise_hpf: None, noise_lpf: None }
    }

    /// Only the input filters are retuned.
    pub open spec fn rm_input_lpf_only(tuning: Tuning<S>) -> Self {
        Retunings { rm_input_lpf: Some(tuning), ..Self::none() }
    }

    /// Only the high-pass filters of the noise are retuned.
    pub open spec fn noise_hpf_only(tuning: Tuning<S>) -> Self {
        Retunings { noise_hpf: Some(tuning), ..Self::none() }
    }

    /// Only the low-pass filters of the noise are retuned.
    pub open spec fn noise_lpf_only(tuning: Tuning<S>) -> Self {
        Retunings { noise_lpf: Some(tuning), ..Self::none() }
    }

    /// These are the filters whose parameters were on the move. The controls went from `before` to
    /// `after`.
    pub open spec fn polled_from<C: Controls<S>>(self, before: C, after: C) -> bool {
        exists|first: C, second: C|
            {
                &&& #[trigger] polled(
                    before,
                    SmoothedParam::RmInputLpfFreq,
                    SmoothedParam::RmInputLpfQ,
                    self.rm_input_lpf,
                    first,
                )
                &&& polled(
                    first,
                    SmoothedParam::NoiseHpfFreq,
                    SmoothedParam::NoiseHpfQ,
                    self.noise_hpf,
                    second,
                )
                &&& #[trigger] polled(
                    second,
                    SmoothedParam::NoiseLpfFreq,
                    SmoothedParam::NoiseLpfQ,
                    self.noise_lpf,
                    after,
                )
            }
    }

    /// All filters are retuned, to the values that the controls gave while they went from `before`
    /// to `after`.
    pub open spec fn all_given_by<C: Controls<S>>(self, before: C, after: C) -> bool {
        &&& self.rm_input_lpf is Some
        &&& self.noise_hpf is Some
        &&& self.noise_lpf is Some
        &&& exists|first: C, second: C|
            {
                &&& #[trigger] self.rm_input_lpf->0.given_by(
                    before,
                    SmoothedParam::RmInputLpfFreq,
                    SmoothedParam::RmInputLpfQ,
                    first,
                )
                &&& self.noise_hpf->0.given_by(
                    first,
                    SmoothedParam::NoiseHpfFreq,
                    SmoothedParam::NoiseHpfQ,
                    second,
                )
                &&& #[trigger] self.noise_lpf->0.given_by(
                    second,
                    SmoothedParam::NoiseLpfFreq,
                    SmoothedParam::NoiseLpfQ,
                    after,
                )
            }
    }
}

impl<S> FrameControls<S> {
    /// The controls said all of this, in this order, while they went from `before` to `after`.
    pub open spec fn heard_from<C: Controls<S>>(self, before: C, after: C) -> bool {
        &&& exists|between: C| #[trigger]
            moves(before, SmoothedParam::Amount, self.amount, between)
                && self.retunings.polled_from(between, after)
        &&& call_ensures(C::stereo_mode, (&after,), self.stereo_mode)
        &&& modes_heard(after, self.modes.len(), self.modes)
    }
}

/// The controls said all of this about a number of frames, one after the other. `states` are the
/// controls before each frame and at the end.
pub open spec fn frames_heard<S, C: Controls<S>>(
    heard: Seq<FrameControls<S>>,
    states: Seq<C>,
) -> bool {
    &&& states.len() == heard.len() + 1
    &&& forall|i: int|
        0 <= i < heard.len() ==> (#[trigger] heard[i]).heard_from(states[i], states[i + 1])
}

/// The controls gave these output gains, one after the other. `states` are the controls before each
/// of them and at the end.
pub open spec fn gains_heard<S, C: Controls<S>>(gains: Seq<S>, states: Seq<C>) -> bool {
    &&& states.len() == gains.len() + 1
    &&& forall|i: int|
        0 <= i < gains.len() ==> moves(
            states[i],
            SmoothedParam::OutputGain,
            #[trigger] gains[i],
            states[i + 1],
        )
}

/// The controls said all of this about a block of frames: first what its frames are modulated with,
/// and then their output gains.
pub open spec fn block_heard<S, C: Controls<S>>(
    heard: Seq<FrameControls<S>>,
    gains: Seq<S>,
    before: C,
    after: C,
) -> bool {
    exists|modulating: Seq<C>, mixing: Seq<C>|
        {
            &&& #[trigger] frames_heard(heard, modulating)
            &&& #[trigger] gains_heard(gains, mixing)
            &&& modulating.first() == before
            &&& mixing.first() == modulating.last()
            &&& mixing.last() == after
        }
}

/// The frame behind the last one of a block.
pub open spec fn block_end(length: nat, block: int) -> int {
    let end = (block + 1) * crate::config::BLOCK_SIZE;
    if end < length {
        end
    } else {
        length as int
    }
}

/// The controls said all of this about the frames of one block. `states` are the controls before each
/// block and at the end.
pub open spec fn block_of_frames_heard<S, C: Controls<S>>(
    heard: Seq<FrameControls<S>>,
    gains: Seq<S>,
    states: Seq<C>,
    block: int,
) -> bool {
    let from = block * crate::config::BLOCK_SIZE;
    let to = block_end(heard.len(), block);
    block_heard(
        heard.subrange(from, to),
        gains.subrange(from, to),
        states[block],
        states[block + 1],
    )
}

/// The controls said all of this about a number of frames, block by block. `states` are the controls
/// before each block and at the end.
pub open spec fn blocks_heard<S, C: Controls<S>>(
    heard: Seq<FrameControls<S>>,
    gains: Seq<S>,
    states: Seq<C>,
) -> bool {
    let size = crate::config::BLOCK_SIZE;
    &&& gains.len() == heard.len()
    &&& states.len() == (heard.len() + size - 1) / (size as int) + 1
    &&& forall|b: int|
        0 <= b < states.len() - 1 ==> #[trigger] block_of_frames_heard(heard, gains, states, b)
}

/// More blocks after a number of full ones.
pub proof fn lemma_blocks_follow<S, C: Controls<S>>(
    heard: Seq<FrameControls<S>>,
    gains: Seq<S>,
    states: Seq<C>,
    more_heard: Seq<FrameControls<S>>,
    more_gains: Seq<S>,
    more_states: Seq<C>,
)
    requires
        blocks_heard(heard, gains, states),
        heard.len() % (crate::config::BLOCK_SIZE as nat) == 0,
        blocks_heard(more_heard, more_gains, more_states),
        more_states.first() == states.last(),
    ensures
        blocks_heard(
            heard + more_heard,
            gains + more_gains,
            states.drop_last() + more_states,
        ),
{
    let size = crate::config::BLOCK_SIZE as int;
    let count = states.len() - 1;
    let all_heard = heard + more_heard;
    let all_gains = gains + more_gains;
    let all_states = states.drop_last() + more_states;
    assert(heard.len() == count * size);
    assert forall|b: int|
        0 <= b < all_states.len() - 1 implies #[trigger] block_of_frames_heard(
        all_heard,
        all_gains,
        all_states,
        b,
    ) by {
        let (from, to) = (b * size, block_end(all_heard.len(), b));
        if b < count {
            assert(block_of_frames_heard(heard, gains, states, b));
            assert(states[b] == all_states[b]);
            assert(states[b + 1] == all_states[b + 1]);
            assert(all_heard.subrange(from, to) =~= heard.subrange(from, to));
            assert(all_gains.subrange(from, to) =~= gains.subrange(from, to));
        } else {
            let (start, end) = (from - heard.len(), to - heard.len());
            assert(block_of_frames_heard(more_heard, more_gains, more_states, b - count));
            assert(more_states[b - count] == all_states[b]);
            assert(all_heard.subrange(from, to) =~= more_heard.subrange(start, end));
            assert(all_gains.subrange(from, to) =~= more_gains.subrange(start, end));
        }
    }
}

/// One more block after a number of full ones.
pub proof fn lemma_block_follows<S, C: Controls<S>>(
    heard: Seq<FrameControls<S>>,
    gains: Seq<S>,
    states: Seq<C>,
    block: Seq<FrameControls<S>>,
    block_gains: Seq<S>,
    after: C,
)
    requires
        blocks_heard(heard, gains, states),
        heard.len() % (crate::config::BLOCK_SIZE as nat) == 0,
        0 < block.len() <= crate::config::BLOCK_SIZE,
        block_gains.len() == block.len(),
        block_heard(block, block_gains, states.last(), after),
    ensures
        blocks_heard(heard + block, gains + block_gains, states.push(after)),
{
    let block_states = seq![states.last(), after];
    let end = block.len() as int;
    assert(block.subrange(0, end) =~= block);
    assert(block_gains.subrange(0, end) =~= block_gains);
    assert(block_of_frames_heard(block, block_gains, block_states, 0));
    assert(blocks_heard(block, block_gains, block_states));
    lemma_blocks_follow(heard, gains, states, block, block_gains, block_states);
    assert(states.drop_last() + block_states =~= states.push(after));
}

/// `coefficients` are those of a filter of this kind, tuning and sample rate.
pub open spec fn designs<D: Dsp>(
    kind: FilterKind,
    sample_rate: D::Sample,
    tuning: Tuning<D::Sample>,
    coefficients: D::Coefficients,
) -> bool {
    match kind {
        FilterKind::LowPass => call_ensures(
            D::lowpass,
            (sample_rate, tuning.frequency, tuning.q),
            coefficients,
        ),
        FilterKind::HighPass => call_ensures(
            D::highpass,
            (sample_rate, tuning.frequency, tuning.q),
            coefficients,
        ),
    }
}

/// The filters `after` are the filters `before` with these coefficients.
pub open spec fn takes_coefficients<D: Dsp>(
    before: Seq<Biquad<D>>,
    coefficients: D::Coefficients,
    after: Seq<Biquad<D>>,
) -> bool {
    &&& after.len() == before.len()
    &&& forall|c: int|
        0 <= c < before.len() ==> #[trigger] after[c] == (Biquad::<D> {
            coefficients,
            memory: before[c].memory,
        })
}

/// The filters `after` are the filters `before`, retuned where `tuning` says so.
pub open spec fn bank_retuned<D: Dsp>(
    kind: FilterKind,
    sample_rate: D::Sample,
    before: Seq<Biquad<D>>,
    tuning: Option<Tuning<D::Sample>>,
    after: Seq<Biquad<D>>,
) -> bool {
    match tuning {
        Some(values) => exists|coefficients: D::Coefficients|
            designs::<D>(kind, sample_rate, values, coefficients) && #[trigger] takes_coefficients(
                before,
                coefficients,
                after,
            ),
        None => after == before,
    }
}

/// The filters `after` are the filters `before` with nothing left of the samples that went through
/// them.
pub open spec fn bank_cleared<D: Dsp>(before: Seq<Biquad<D>>, after: Seq<Biquad<D>>) -> bool {
    &&& after.len() == before.len()
    &&& forall|c: int|
        0 <= c < before.len() ==> {
            &&& (#[trigger] after[c]).coefficients == before[c].coefficients
            &&& call_ensures(D::cleared_memory, (), after[c].memory)
        }
}

/// All filters of a bank are one filter that was not designed yet and that no sample went through.
pub open spec fn bank_fresh<D: Dsp>(bank: Seq<Biquad<D>>) -> bool {
    &&& bank[1] == bank[0]
    &&& call_ensures(D::default_coefficients, (), bank[0].coefficients)
    &&& call_ensures(D::cleared_memory, (), bank[0].memory)
}

/// `noise` is the white noise made from a word of the generator, between minus one and one.
pub open spec fn whitens<D: Dsp>(word: u32, noise: D::Sample) -> bool {
    exists|unit: D::Sample, two: D::Sample, wide: D::Sample, one: D::Sample|
        {
            &&& call_ensures(D::uniform, (word,), unit)
            &&& call_ensures(D::constant, (2i8,), two)
            &&& #[trigger] call_ensures(D::times, (unit, two), wide)
            &&& call_ensures(D::constant, (1i8,), one)
            &&& #[trigger] call_ensures(D::minus, (wide, one), noise)
        }
}

/// `part` is the part of the waveform that the mode modulates.
pub open spec fn selects<D: Dsp>(mode: Mode, sample: D::Sample, part: D::Sample) -> bool {
    match mode {
        Mode::Crispy => part == sample,
        Mode::EvenCrispier => exists|zero: D::Sample|
            call_ensures(D::constant, (0i8,), zero) && #[trigger] call_ensures(
                D::max,
                (sample, zero),
                part,
            ),
        Mode::EvenCrispierNegated => exists|zero: D::Sample|
            call_ensures(D::constant, (0i8,), zero) && #[trigger] call_ensures(
                D::min,
                (sample, zero),
                part,
            ),
    }
}

/// `amount` is the gain of the modulated sound for this value of the amount parameter.
pub open spec fn scales_amount<D: Dsp>(value: D::Sample, amount: D::Sample) -> bool {
    exists|multiplier: D::Sample|
        call_ensures(D::constant, (crate::config::AMOUNT_GAIN_MULTIPLIER,), multiplier)
            && #[trigger] call_ensures(D::times, (value, multiplier), amount)
}

/// `output` is the sum of the dry and the wet sample, at this gain.
pub open spec fn mixes_sample<D: Dsp>(
    dry: D::Sample,
    wet: D::Sample,
    gain: D::Sample,
    output: D::Sample,
) -> bool {
    exists|sum: D::Sample| #[trigger]
        call_ensures(D::plus, (dry, wet), sum) && call_ensures(D::times, (sum, gain), output)
}

/// `output` is the mix of a dry and a wet frame, at this gain.
pub open spec fn mixes_frame<D: Dsp>(
    dry: Seq<D::Sample>,
    wet: Seq<D::Sample>,
    gain: D::Sample,
    output: Seq<D::Sample>,
) -> bool {
    &&& wet.len() == dry.len()
    &&& output.len() == dry.len()
    &&& forall|c: int|
        0 <= c < dry.len() ==> mixes_sample::<D>(dry[c], wet[c], gain, #[trigger] output[c])
}

impl<D: Dsp> Crisp<D> {
    /// The effect as it is made.
    pub open spec fn fresh(self) -> bool {
        &&& call_ensures(D::constant, (1i8,), self.sample_rate)
        &&& self.prng == crate::pcg::initial_seed()
        &&& bank_fresh(self.rm_input_lpf@)
        &&& bank_fresh(self.noise_hpf@)
        &&& bank_fresh(self.noise_lpf@)
    }

    /// `after` is this effect with its noise started over and with nothing left of the samples that
    /// went through it.
    pub open spec fn cleared(self, after: Self) -> bool {
        &&& after.sample_rate == self.sample_rate
        &&& after.prng == crate::pcg::initial_seed()
        &&& bank_cleared(self.rm_input_lpf@, after.rm_input_lpf@)
        &&& bank_cleared(self.noise_hpf@, after.noise_hpf@)
        &&& bank_cleared(self.noise_lpf@, after.noise_lpf@)
    }

    /// `after` is this effect with filters retuned.
    pub open spec fn retuned(self, retunings: Retunings<D::Sample>, after: Self) -> bool {
        &&& after.sample_rate == self.sample_rate
        &&& after.prng == self.prng
        &&& bank_retuned(
            FilterKind::LowPass,
            self.sample_rate,
            self.rm_input_lpf@,
            retunings.rm_input_lpf,
            after.rm_input_lpf@,
        )
        &&& bank_retuned(
            FilterKind::HighPass,
            self.sample_rate,
            self.noise_hpf@,
            retunings.noise_hpf,
            after.noise_hpf@,
        )
        &&& bank_retuned(
            FilterKind::LowPass,
            self.sample_rate,
            self.noise_lpf@,
            retunings.noise_lpf,
            after.noise_lpf@,
        )
    }

    /// Drawing noise for a channel yields `noise` and leaves the effect `after`: one word is taken
    /// from the generator, and it goes through the high-pass and then through the low-pass filter
    /// of that channel.
    pub open spec fn draws_noise(self, channel: int, noise: D::Sample, after: Self) -> bool {
        &&& after.sample_rate == self.sample_rate
        &&& after.prng == self.prng.stepped()
        &&& after.rm_input_lpf@ == self.rm_input_lpf@
        &&& after.noise_hpf@ == self.noise_hpf@.update(channel, after.noise_hpf@[channel])
        &&& after.noise_lpf@ == self.noise_lpf@.update(channel, after.noise_lpf@[channel])
        &&& exists|white: D::Sample, high_passed: D::Sample|
            {
                &&& whitens::<D>(self.prng.word(), white)
                &&& #[trigger] self.noise_hpf@[channel].filters(
                    white,
                    high_passed,
                    after.noise_hpf@[channel],
                )
                &&& self.noise_lpf@[channel].filters(
                    high_passed,
                    noise,
                    after.noise_lpf@[channel],
                )
            }
    }

    /// Ring modulating a sample of a channel with `noise` yields `result` and leaves the effect
    /// `after`: the sample goes through the input filter of its channel, and the part of it that
    /// the mode selects is multiplied with the noise.
    pub open spec fn ring_modulates(
        self,
        sample: D::Sample,
        channel: int,
        noise: D::Sample,
        mode: Mode,
        result: D::Sample,
        after: Self,
    ) -> bool {
        &&& after.sample_rate == self.sample_rate
        &&& after.prng == self.prng
        &&& after.rm_input_lpf@ == self.rm_input_lpf@.update(channel, after.rm_input_lpf@[channel])
        &&& after.noise_hpf@ == self.noise_hpf@
        &&& after.noise_lpf@ == self.noise_lpf@
        &&& exists|filtered: D::Sample, part: D::Sample|
            {
                &&& #[trigger] self.rm_input_lpf@[channel].filters(
                    sample,
                    filtered,
                    after.rm_input_lpf@[channel],
                )
                &&& selects::<D>(mode, filtered, part)
                &&& #[trigger] call_ensures(D::times, (part, noise), result)
            }
    }

    /// A sample of a channel turns into the wet sample `wet` and leaves the effect `after`.
    pub open spec fn modulates_sample(
        self,
        sample: D::Sample,
        channel: int,
        noise: D::Sample,
        mode: Mode,
        amount: D::Sample,
        wet: D::Sample,
        after: Self,
    ) -> bool {
        exists|result: D::Sample| #[trigger]
            self.ring_modulates(sample, channel, noise, mode, result, after) && call_ensures(
                D::times,
                (result, amount),
                wet,
            )
    }

    /// A sample of a channel turns into the wet sample `wet` and leaves the effect `after`, with
    /// noise that is drawn for that channel. `drawn` is the effect once the noise was drawn.
    pub open spec fn modulates_with_own_noise(
        self,
        sample: D::Sample,
        channel: int,
        noise: D::Sample,
        drawn: Self,
        mode: Mode,
        amount: D::Sample,
        wet: D::Sample,
        after: Self,
    ) -> bool {
        &&& self.draws_noise(channel, noise, drawn)
        &&& drawn.modulates_sample(sample, channel, noise, mode, amount, wet, after)
    }

    /// A frame turns into the wet frame `wet`, with the same noise on all channels. `states` are
    /// the states of the effect before each channel and at the end.
    pub open spec fn modulates_mono(
        self,
        input: Seq<D::Sample>,
        modes: Seq<Mode>,
        amount: D::Sample,
        noise: D::Sample,
        wet: Seq<D::Sample>,
        states: Seq<Self>,
    ) -> bool {
        &&& states.len() == input.len() + 1
        &&& self.draws_noise(0, noise, states[0])
        &&& forall|c: int|
            0 <= c < input.len() ==> states[c].modulates_sample(
                input[c],
                c,
                noise,
                modes[c],
                amount,
                #[trigger] wet[c],
                states[c + 1],
            )
    }

    /// A frame turns into the wet frame `wet`, with noise of its own on each channel. `states` are
    /// the states of the effect before each channel and at the end, and `drawn` the states after
    /// the noise of each channel was drawn.
    pub open spec fn modulates_stereo(
        self,
        input: Seq<D::Sample>,
        modes: Seq<Mode>,
        amount: D::Sample,
        noises: Seq<D::Sample>,
        wet: Seq<D::Sample>,
        states: Seq<Self>,
        drawn: Seq<Self>,
    ) -> bool {
        &&& states.len() == input.len() + 1
        &&& drawn.len() == input.len()
        &&& noises.len() == input.len()
        &&& states[0] == self
        &&& forall|c: int|
            0 <= c < input.len() ==> states[c].modulates_with_own_noise(
                input[c],
                c,
                noises[c],
                drawn[c],
                modes[c],
                amount,
                #[trigger] wet[c],
                states[c + 1],
            )
    }

    /// A frame turns into the wet frame `wet` and leaves the effect `after`, once the filters have
    /// been retuned and the amount is known.
    pub open spec fn modulates_channels(
        self,
        input: Seq<D::Sample>,
        heard: FrameControls<D::Sample>,
        amount: D::Sample,
        wet: Seq<D::Sample>,
        after: Self,
    ) -> bool {
        match heard.stereo_mode {
            StereoMode::Mono => exists|noise: D::Sample, states: Seq<Self>| #[trigger]
                self.modulates_mono(input, heard.modes, amount, noise, wet, states)
                    && states.last() == after,
            StereoMode::Stereo => exists|
                noises: Seq<D::Sample>,
                states: Seq<Self>,
                drawn: Seq<Self>,
            | #[trigger]
                self.modulates_stereo(input, heard.modes, amount, noises, wet, states, drawn)
                    && states.last() == after,
        }
    }

    /// A frame turns into the wet frame `wet` and leaves the effect `after`.
    pub open spec fn modulates_frame(
        self,
        input: Seq<D::Sample>,
        heard: FrameControls<D::Sample>,
        wet: Seq<D::Sample>,
        after: Self,
    ) -> bool {
        &&& input.len() <= crate::config::NUM_CHANNELS
        &&& wet.len() == input.len()
        &&& heard.modes.len() == input.len()
        &&& exists|amount: D::Sample, tuned: Self|
            {
                &&& scales_amount::<D>(heard.amount, amount)
                &&& self.retuned(heard.retunings, tuned)
                &&& #[trigger] tuned.modulates_channels(input, heard, amount, wet, after)
            }
    }
}

/// The number of frames in a buffer, which holds the samples of each channel.
pub open spec fn frame_count<S>(buffer: Seq<Vec<S>>) -> nat {
    if buffer.len() == 0 {
        0
    } else {
        buffer[0]@.len()
    }
}

/// The number of channels of a buffer that the effect works on.
pub open spec fn channel_count<S>(buffer: Seq<Vec<S>>) -> nat {
    if buffer.len() < crate::config::NUM_CHANNELS {
        buffer.len()
    } else {
        crate::config::NUM_CHANNELS as nat
    }
}

/// All channels of a buffer have the same number of samples.
pub open spec fn rectangular<S>(buffer: Seq<Vec<S>>) -> bool {
    forall|c: int| 0 <= c < buffer.len() ==> (#[trigger] buffer[c])@.len() == frame_count(buffer)
}

/// The samples of the first channels of a buffer at one point in time.
pub open spec fn frame_at<S>(buffer: Seq<Vec<S>>, channels: nat, i: int) -> Seq<S> {
    Seq::new(channels, |c: int| buffer[c]@[i])
}

/// The frames of a buffer, as far as the effect works on them.
pub open spec fn frames<S>(buffer: Seq<Vec<S>>) -> Seq<Seq<S>> {
    Seq::new(frame_count(buffer), |i: int| frame_at(buffer, channel_count(buffer), i))
}

/// `after` has the shape of the buffer `before`, and the same samples on all channels that the
/// effect does not work on.
pub open spec fn same_beyond<S>(before: Seq<Vec<S>>, after: Seq<Vec<S>>) -> bool {
    &&& after.len() == before.len()
    &&& rectangular(after)
    &&& frame_count(after) == frame_count(before)
    &&& forall|c: int|
        channel_count(before) <= c < before.len() ==> (#[trigger] after[c])@ == before[c]@
}

/// What happened while a number of frames were processed.
pub struct Run<D: Dsp> {
    /// What the controls said while each frame was modulated.
    pub heard: Seq<FrameControls<D::Sample>>,
    /// The wet frames.
    pub wet: Seq<Seq<D::Sample>>,
    /// The output gain at each frame.
    pub gains: Seq<D::Sample>,
    /// The states of the effect before each frame and at the end.
    pub states: Seq<Crisp<D>>,
}

impl<D: Dsp> Run<D> {
    /// The controls said everything that this run says they did, while they went from `before` to
    /// `after`.
    pub open spec fn heard_from<C: Controls<D::Sample>>(self, before: C, after: C) -> bool {
        exists|states: Seq<C>| #[trigger]
            blocks_heard(self.heard, self.gains, states) && states.first() == before
                && states.last() == after
    }

    /// In this run the effect went from `before` to `after` and turned the frames `input` into the
    /// frames `output`: each frame was modulated in the state that the one before it had left, and
    /// was then mixed with the outcome.
    pub open spec fn leads(
        self,
        before: Crisp<D>,
        input: Seq<Seq<D::Sample>>,
        output: Seq<Seq<D::Sample>>,
        after: Crisp<D>,
    ) -> bool {
        &&& output.len() == input.len()
        &&& self.heard.len() == input.len()
        &&& self.wet.len() == input.len()
        &&& self.gains.len() == input.len()
        &&& self.states.len() == input.len() + 1
        &&& self.states[0] == before
        &&& self.states[input.len() as int] == after
        &&& forall|i: int|
            0 <= i < input.len() ==> self.states[i].modulates_frame(
                input[i],
                self.heard[i],
                #[trigger] self.wet[i],
                self.states[i + 1],
            )
        &&& forall|i: int|
            0 <= i < input.len() ==> mixes_frame::<D>(
                input[i],
                self.wet[i],
                self.gains[i],
                #[trigger] output[i],
            )
    }
}

} // verus!
