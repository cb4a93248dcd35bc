//! The effect itself: its state, its life cycle and its signal path.

use crate::config::{
    BufferConfig, BusConfig, Mode, ProcessStatus, SmoothedParam, StereoMode, AMOUNT_GAIN_MULTIPLIER,
    BLOCK_SIZE, NUM_CHANNELS,
};
use crate::dsp::{advance, Biquad, Controls, Dsp};
use crate::flow::{FrameControls, Retunings, Run, Tuning};
use crate::pcg::{initial_prng_seed, Pcg32iState};
use vstd::prelude::*;

verus! {

/// The effect layers the sound with another copy of the signal, ring modulated with white (or
/// filtered) noise. That other copy may have a low-pass filter applied to it, since the effect just
/// turns into literal noise at high frequencies.
pub struct Crisp<D: Dsp> {
    /// Needed for computing the filter coefficients.
    pub sample_rate: D::Sample,
    /// Where the noise comes from.
    pub prng: Pcg32iState,
    /// Resonant filters for low-passing the input before it is modulated, to allow this to work
    /// with inputs that already contain a lot of high frequency content.
    pub rm_input_lpf: [Biquad<D>; 2],
    /// Resonant filters for high- and then low-passing the noise, to make it even brighter.
    pub noise_hpf: [Biquad<D>; 2],
    pub noise_lpf: [Biquad<D>; 2],
}

impl<D: Dsp> Default for Crisp<D> {
    fn default() -> (crisp: Self)
        ensures
            crisp.fresh(),
    {
        let rm_input_lpf = Biquad::default();
        let noise_hpf = Biquad::default();
        let noise_lpf = Biquad::default();
        Crisp {
            sample_rate: D::constant(1),
            prng: initial_prng_seed(),
            rm_input_lpf: [rm_input_lpf, rm_input_lpf],
            noise_hpf: [noise_hpf, noise_hpf],
            noise_lpf: [noise_lpf, noise_lpf],
        }
    }
}

/// Gives all filters of a bank the same coefficients.
fn set_coefficients<D: Dsp>(bank: &mut [Biquad<D>; 2], coefficients: D::Coefficients)
    ensures
        crate::flow::takes_coefficients(old(bank)@, coefficients, final(bank)@),
{
    bank[0].coefficients = coefficients;
    bank[1].coefficients = coefficients;
}

/// Resets all filters of a bank.
fn reset_bank<D: Dsp>(bank: &mut [Biquad<D>; 2])
    ensures
        crate::flow::bank_cleared(old(bank)@, final(bank)@),
{
    bank[0].reset();
    bank[1].reset();
}

impl<D: Dsp> Crisp<D> {
    /// Whether the effect works with the channels that a host offers: as many outputs as inputs,
    /// and only stereo.
    pub fn accepts_bus_config(&self, config: &BusConfig) -> (accepted: bool)
        ensures
            accepted == (config.num_input_channels == NUM_CHANNELS && config.num_output_channels
                == NUM_CHANNELS),
    {
        config.num_input_channels == config.num_output_channels && config.num_input_channels
            == NUM_CHANNELS
    }

    /// Prepares the effect for the sample rate that a host will use. All filters are designed anew
    /// for it.
    pub fn initialize<C: Controls<D::Sample>>(
        &mut self,
        buffer_config: &BufferConfig<D::Sample>,
        controls: C,
    ) -> (outcome: (bool, C))
        ensures
            outcome.0,
            exists|retunings: Retunings<D::Sample>| #[trigger]
                retunings.all_given_by(controls, outcome.1) && (Crisp {
                    sample_rate: buffer_config.sample_rate,
                    ..*old(self)
                }).retuned(retunings, *final(self)),
    {
        self.sample_rate = buffer_config.sample_rate;
        let ghost (start, heard_start) = (*self, controls);
        let controls = self.update_rm_input_lpf(controls);
        let ghost (first, heard_first) = (*self, controls);
        let controls = self.update_noise_hpf(controls);
        let ghost (second, heard_second) = (*self, controls);
        let controls = self.update_noise_lpf(controls);
        proof {
            let rm_input_lpf = choose|tuning: Tuning<D::Sample>| #[trigger]
                tuning.given_by(
                    heard_start,
                    SmoothedParam::RmInputLpfFreq,
                    SmoothedParam::RmInputLpfQ,
                    heard_first,
                ) && start.retuned(Retunings::rm_input_lpf_only(tuning), first);
            let noise_hpf = choose|tuning: Tuning<D::Sample>| #[trigger]
                tuning.given_by(
                    heard_first,
                    SmoothedParam::NoiseHpfFreq,
                    SmoothedParam::NoiseHpfQ,
                    heard_second,
                ) && first.retuned(Retunings::noise_hpf_only(tuning), second);
            let noise_lpf = choose|tuning: Tuning<D::Sample>| #[trigger]
                tuning.given_by(
                    heard_second,
                    SmoothedParam::NoiseLpfFreq,
                    SmoothedParam::NoiseLpfQ,
                    controls,
                ) && second.retuned(Retunings::noise_lpf_only(tuning), *self);
            let retunings = Retunings {
                rm_input_lpf: Some(rm_input_lpf),
                noise_hpf: Some(noise_hpf),
                noise_lpf: Some(noise_lpf),
            };
            assert(retunings.all_given_by(heard_start, controls));
        }
        let ghost heard_end = controls;
        let outcome = (true, controls);
        assert(outcome.1 == heard_end);
        outcome
    }

    /// Starts over. By using the same seeds each time bouncing can be made deterministic.
    pub fn reset(&mut self)
        ensures
            old(self).cleared(*final(self)),
    {
        self.prng = initial_prng_seed();
        reset_bank(&mut self.rm_input_lpf);
        reset_bank(&mut self.noise_hpf);
        reset_bank(&mut self.noise_lpf);
    }

    /// Updates the filter coefficients if needed. Should be called once per sample.
    pub fn maybe_update_filters<C: Controls<D::Sample>>(&mut self, controls: C) -> (after: C)
        ensures
            exists|retunings: Retunings<D::Sample>| #[trigger]
                retunings.polled_from(controls, after) && old(self).retuned(
                    retunings,
                    *final(self),
                ),
    {
        let mut controls = controls;
        let ghost mut retunings = Retunings::none();
        let ghost (start, heard_start) = (*self, controls);
        if controls.is_smoothing(SmoothedParam::RmInputLpfFreq) || controls.is_smoothing(
            SmoothedParam::RmInputLpfQ,
        ) {
            controls = self.update_rm_input_lpf(controls);
            proof {
                let tuning = choose|tuning: Tuning<D::Sample>| #[trigger]
                    tuning.given_by(
                        heard_start,
                        SmoothedParam::RmInputLpfFreq,
                        SmoothedParam::RmInputLpfQ,
                        controls,
                    ) && start.retuned(Retunings::rm_input_lpf_only(tuning), *self);
                retunings = Retunings { rm_input_lpf: Some(tuning), ..retunings };
            }
        }
        let ghost (first, heard_first) = (*self, controls);
        if controls.is_smoothing(SmoothedParam::NoiseHpfFreq) || controls.is_smoothing(
            SmoothedParam::NoiseHpfQ,
        ) {
            controls = self.update_noise_hpf(controls);
            proof {
                let tuning = choose|tuning: Tuning<D::Sample>| #[trigger]
                    tuning.given_by(
                        heard_first,
                        SmoothedParam::NoiseHpfFreq,
                        SmoothedParam::NoiseHpfQ,
                        controls,
                    ) && first.retuned(Retunings::noise_hpf_only(tuning), *self);
                retunings = Retunings { noise_hpf: Some(tuning), ..retunings };
            }
        }
        let ghost (second, heard_second) = (*self, controls);
        if controls.is_smoothing(SmoothedParam::NoiseLpfFreq) || controls.is_smoothing(
            SmoothedParam::NoiseLpfQ,
        ) {
            controls = self.update_noise_lpf(controls);
            proof {
                let tuning = choose|tuning: Tuning<D::Sample>| #[trigger]
                    tuning.given_by(
                        heard_second,
                        SmoothedParam::NoiseLpfFreq,
                        SmoothedParam::NoiseLpfQ,
                        controls,
                    ) && second.retuned(Retunings::noise_lpf_only(tuning), *self);
                retunings = Retunings { noise_lpf: Some(tuning), ..retunings };
            }
        }
        proof {
            assert(crate::flow::polled(
                heard_start,
                SmoothedParam::RmInputLpfFreq,
                SmoothedParam::RmInputLpfQ,
                retunings.rm_input_lpf,
                heard_first,
            ));
            assert(crate::flow::polled(
                heard_first,
                SmoothedParam::NoiseHpfFreq,
                SmoothedParam::NoiseHpfQ,
                retunings.noise_hpf,
                heard_second,
            ));
            assert(crate::flow::polled(
                heard_second,
                SmoothedParam::NoiseLpfFreq,
                SmoothedParam::NoiseLpfQ,
                retunings.noise_lpf,
                controls,
            ));
            assert(retunings.polled_from(heard_start, controls));
        }
        controls
    }

    /// Designs the filters that the input goes through before it is modulated.
    pub fn update_rm_input_lpf<C: Controls<D::Sample>>(&mut self, controls: C) -> (after: C)
        ensures
            exists|tuning: Tuning<D::Sample>| #[trigger]
                tuning.given_by(
                    controls,
                    SmoothedParam::RmInputLpfFreq,
                    SmoothedParam::RmInputLpfQ,
                    after,
                ) && old(self).retuned(Retunings::rm_input_lpf_only(tuning), *final(self)),
            exists|frequency: D::Sample, between: C, q: D::Sample|
                {
                    &&& #[trigger] call_ensures(
                        crate::dsp::advance::<D::Sample, C>,
                        (controls, SmoothedParam::RmInputLpfFreq),
                        (frequency, between),
                    )
                    &&& #[trigger] call_ensures(
                        crate::dsp::advance::<D::Sample, C>,
                        (between, SmoothedParam::RmInputLpfQ),
                        (q, after),
                    )
                    &&& call_ensures(
                        D::lowpass,
                        (old(self).sample_rate, frequency, q),
                        final(self).rm_input_lpf@[0].coefficients,
                    )
                    &&& final(self).rm_input_lpf@[1].coefficients == final(self).rm_input_lpf@[0].coefficients
                },
    {
        let (frequency, between) = advance(controls, SmoothedParam::RmInputLpfFreq);
        let ghost heard_frequency = between;
        let (q, after) = advance(between, SmoothedParam::RmInputLpfQ);
        let coefficients = D::lowpass(self.sample_rate, frequency, q);
        set_coefficients(&mut self.rm_input_lpf, coefficients);
        proof {
            let tuning = Tuning { frequency, q };
            assert(crate::flow::moves(
                controls,
                SmoothedParam::RmInputLpfFreq,
                tuning.frequency,
                heard_frequency,
            ));
            assert(tuning.given_by(
                controls,
                SmoothedParam::RmInputLpfFreq,
                SmoothedParam::RmInputLpfQ,
                after,
            ));
        }
        after
    }

    /// Designs the high-pass filters that the noise goes through.
    pub fn update_noise_hpf<C: Controls<D::Sample>>(&mut self, controls: C) -> (after: C)
        ensures
            exists|tuning: Tuning<D::Sample>| #[trigger]
                tuning.given_by(
                    controls,
                    SmoothedParam::NoiseHpfFreq,
                    SmoothedParam::NoiseHpfQ,
                    after,
                ) && old(self).retuned(Retunings::noise_hpf_only(tuning), *final(self)),
            exists|frequency: D::Sample, between: C, q: D::Sample|
                {
                    &&& #[trigger] call_ensures(
                        crate::dsp::advance::<D::Sample, C>,
                        (controls, SmoothedParam::NoiseHpfFreq),
                        (frequency, between),
                    )
                    &&& #[trigger] call_ensures(
                        crate::dsp::advance::<D::Sample, C>,
                        (between, SmoothedParam::NoiseHpfQ),
                        (q, after),
                    )
                    &&& call_ensures(
                        D::highpass,
                        (old(self).sample_rate, frequency, q),
                        final(self).noise_hpf@[0].coefficients,
                    )
                    &&& final(self).noise_hpf@[1].coefficients == final(self).noise_hpf@[0].coefficients
                },
    {
        let (frequency, between) = advance(controls, SmoothedParam::NoiseHpfFreq);
        let ghost heard_frequency = between;
        let (q, after) = advance(between, SmoothedParam::NoiseHpfQ);
        let coefficients = D::highpass(self.sample_rate, frequency, q);
        set_coefficients(&mut self.noise_hpf, coefficients);
        proof {
            let tuning = Tuning { frequency, q };
            assert(crate::flow::moves(
                controls,
                SmoothedParam::NoiseHpfFreq,
                tuning.frequency,
                heard_frequency,
            ));
            assert(tuning.given_by(
                controls,
                SmoothedParam::NoiseHpfFreq,
                SmoothedParam::NoiseHpfQ,
                after,
            ));
        }
        after
    }

    /// Designs the low-pass filters that the noise goes through.
    pub fn update_noise_lpf<C: Controls<D::Sample>>(&mut self, controls: C) -> (after: C)
        ensures
            exists|tuning: Tuning<D::Sample>| #[trigger]
                tuning.given_by(
                    controls,
                    SmoothedParam::NoiseLpfFreq,
                    SmoothedParam::NoiseLpfQ,
                    after,
                ) && old(self).retuned(Retunings::noise_lpf_only(tuning), *final(self)),
            exists|frequency: D::Sample, between: C, q: D::Sample|
                {
                    &&& #[trigger] call_ensures(
                        crate::dsp::advance::<D::Sample, C>,
                        (controls, SmoothedParam::NoiseLpfFreq),
                        (frequency, between),
                    )
                    &&& #[trigger] call_ensures(
                        crate::dsp::advance::<D::Sample, C>,
                        (between, SmoothedParam::NoiseLpfQ),
                        (q, after),
                    )
                    &&& call_ensures(
                        D::lowpass,
                        (old(self).sample_rate, frequency, q),
                        final(self).noise_lpf@[0].coefficients,
                    )
                    &&& final(self).noise_lpf@[1].coefficients == final(self).noise_lpf@[0].coefficients
                },
    {
        let (frequency, between) = advance(controls, SmoothedParam::NoiseLpfFreq);
        let ghost heard_frequency = between;
        let (q, after) = advance(between, SmoothedParam::NoiseLpfQ);
        let coefficients = D::lowpass(self.sample_rate, frequency, q);
        set_coefficients(&mut self.noise_lpf, coefficients);
        proof {
            let tuning = Tuning { frequency, q };
            assert(crate::flow::moves(
                controls,
                SmoothedParam::NoiseLpfFreq,
                tuning.frequency,
                heard_frequency,
            ));
            assert(tuning.given_by(
                controls,
                SmoothedParam::NoiseLpfFreq,
                SmoothedParam::NoiseLpfQ,
                after,
            ));
        }
        after
    }

    /// Generates a new noise sample with the high- and the low-pass filter of a channel applied.
    pub fn gen_noise(&mut self, channel: usize) -> (noise: D::Sample)
        requires
            channel < NUM_CHANNELS,
        ensures
            old(self).draws_noise(channel as int, noise, *final(self)),
    {
        let word: u32 = self.prng.next_u32();
        let unit = D::uniform(word);
        let wide = D::times(unit, D::constant(2));
        let white = D::minus(wide, D::constant(1));
        let high_passed = self.noise_hpf[channel].process(white);
        let noise = self.noise_lpf[channel].process(high_passed);
        proof {
            let c = channel as int;
            assert(self.noise_hpf@ =~= old(self).noise_hpf@.update(c, self.noise_hpf@[c]));
        }
        noise
    }

    /// Performs the ring modulation depending on the mode. This applies a low-pass filter to the
    /// input before it is modulated.
    pub fn do_ring_mod<C: Controls<D::Sample>>(
        &mut self,
        sample: D::Sample,
        channel_idx: usize,
        noise: D::Sample,
        controls: &C,
    ) -> (result: D::Sample)
        requires
            channel_idx < NUM_CHANNELS,
        ensures
            exists|mode: Mode| #[trigger]
                call_ensures(C::mode, (controls,), mode) && old(self).ring_modulates(
                    sample,
                    channel_idx as int,
                    noise,
                    mode,
                    result,
                    *final(self),
                ),
    {
        let filtered = self.rm_input_lpf[channel_idx].process(sample);
        let mode = controls.mode();
        let part = match mode {
            Mode::Crispy => filtered,
            Mode::EvenCrispier => D::max(filtered, D::constant(0)),
            Mode::EvenCrispierNegated => D::min(filtered, D::constant(0)),
        };
        let result = D::times(part, noise);
        proof {
            let c = channel_idx as int;
            assert(self.rm_input_lpf@ =~= old(self).rm_input_lpf@.update(c, self.rm_input_lpf@[c]));
        }
        result
    }

    /// Modulates one frame with the same noise on all channels: the wet samples of its channels.
    fn modulate_mono<C: Controls<D::Sample>>(
        &mut self,
        buffer: &Vec<Vec<D::Sample>>,
        channels: usize,
        frame: usize,
        amount: D::Sample,
        controls: &C,
    ) -> (wet: [D::Sample; 2])
        requires
            channels == crate::flow::channel_count(buffer@),
            crate::flow::rectangular(buffer@),
            frame < crate::flow::frame_count(buffer@),
        ensures
            exists|modes: Seq<Mode>, noise: D::Sample, states: Seq<Self>|
                {
                    &&& #[trigger] old(self).modulates_mono(
                        crate::flow::frames(buffer@)[frame as int],
                        modes,
                        amount,
                        noise,
                        wet@.take(channels as int),
                        states,
                    )
                    &&& states.last() == *final(self)
                    &&& crate::flow::modes_heard(*controls, channels as nat, modes)
                },
    {
        let ghost input = crate::flow::frames(buffer@)[frame as int];
        let noise = self.gen_noise(0);
        let mut wet = [D::constant(0), D::constant(0)];
        let ghost mut modes: Seq<Mode> = seq![];
        let ghost mut states = seq![*self];
        let mut c: usize = 0;
        while c < channels
            invariant
                c <= channels <= 2,
                channels == crate::flow::channel_count(buffer@),
                crate::flow::rectangular(buffer@),
                frame < crate::flow::frame_count(buffer@),
                input == crate::flow::frames(buffer@)[frame as int],
                states.len() == c + 1,
                states[c as int] == *self,
                old(self).draws_noise(0, noise, states[0]),
                crate::flow::modes_heard(*controls, c as nat, modes),
                forall|k: int|
                    0 <= k < c ==> states[k].modulates_sample(
                        input[k],
                        k,
                        noise,
                        modes[k],
                        amount,
                        #[trigger] wet@[k],
                        states[k + 1],
                    ),
            decreases channels - c,
        {
            let ghost before = *self;
            let sample = buffer[c][frame];
            let result = self.do_ring_mod(sample, c, noise, controls);
            wet[c] = D::times(result, amount);
            proof {
                let k = c as int;
                let mode = choose|mode: Mode| #[trigger]
                    call_ensures(C::mode, (controls,), mode) && before.ring_modulates(
                        sample,
                        k,
                        noise,
                        mode,
                        result,
                        *self,
                    );
                modes = modes.push(mode);
                states = states.push(*self);
            }
            c += 1;
        }
        proof {
            let frame_wet = wet@.take(channels as int);
            assert(old(self).modulates_mono(input, modes, amount, noise, frame_wet, states));
        }
        wet
    }

    /// Modulates one frame with noise of its own on each channel: the wet samples of its channels.
    fn modulate_stereo<C: Controls<D::Sample>>(
        &mut self,
        buffer: &Vec<Vec<D::Sample>>,
        channels: usize,
        frame: usize,
        amount: D::Sample,
        controls: &C,
    ) -> (wet: [D::Sample; 2])
        requires
            channels == crate::flow::channel_count(buffer@),
            crate::flow::rectangular(buffer@),
            frame < crate::flow::frame_count(buffer@),
        ensures
            exists|
                modes: Seq<Mode>,
                noises: Seq<D::Sample>,
                states: Seq<Self>,
                drawn: Seq<Self>,
            |
                {
                    &&& #[trigger] old(self).modulates_stereo(
                        crate::flow::frames(buffer@)[frame as int],
                        modes,
                        amount,
                        noises,
                        wet@.take(channels as int),
                        states,
                        drawn,
                    )
                    &&& states.last() == *final(self)
                    &&& crate::flow::modes_heard(*controls, channels as nat, modes)
                },
    {
        let ghost input = crate::flow::frames(buffer@)[frame as int];
        let mut wet = [D::constant(0), D::constant(0)];
        let ghost mut modes: Seq<Mode> = seq![];
        let ghost mut noises: Seq<D::Sample> = seq![];
        let ghost mut states = seq![*self];
        let ghost mut drawn: Seq<Self> = seq![];
        let mut c: usize = 0;
        while c < channels
            invariant
                c <= channels <= 2,
                channels == crate::flow::channel_count(buffer@),
                crate::flow::rectangular(buffer@),
                frame < crate::flow::frame_count(buffer@),
                input == crate::flow::frames(buffer@)[frame as int],
                states.len() == c + 1,
                drawn.len() == c,
                noises.len() == c,
                states[0] == *old(self),
                states[c as int] == *self,
                crate::flow::modes_heard(*controls, c as nat, modes),
                forall|k: int|
                    0 <= k < c ==> states[k].modulates_with_own_noise(
                        input[k],
                        k,
                        noises[k],
                        drawn[k],
                        modes[k],
                        amount,
                        #[trigger] wet@[k],
                        states[k + 1],
                    ),
            decreases channels - c,
        {
            let noise = self.gen_noise(c);
            let ghost before = *self;
            let sample = buffer[c][frame];
            let result = self.do_ring_mod(sample, c, noise, controls);
            wet[c] = D::times(result, amount);
            proof {
                let i = c as int;
                let mode = choose|mode: Mode| #[trigger]
                    call_ensures(C::mode, (controls,), mode) && before.ring_modulates(
                        sample,
                        i,
                        noise,
                        mode,
                        result,
                        *self,
                    );
                modes = modes.push(mode);
                noises = noises.push(noise);
                drawn = drawn.push(before);
                states = states.push(*self);
            }
            c += 1;
        }
        proof {
            let frame_wet = wet@.take(channels as int);
            assert(old(self).modulates_stereo(
                input,
                modes,
                amount,
                noises,
                frame_wet,
                states,
                drawn,
            ));
        }
        wet
    }

    /// Modulates one frame: the wet samples of its channels.
    fn modulate_frame<C: Controls<D::Sample>>(
        &mut self,
        buffer: &Vec<Vec<D::Sample>>,
        channels: usize,
        frame: usize,
        controls: C,
    ) -> (outcome: ([D::Sample; 2], C))
        requires
            channels == crate::flow::channel_count(buffer@),
            crate::flow::rectangular(buffer@),
            frame < crate::flow::frame_count(buffer@),
        ensures
            exists|heard: FrameControls<D::Sample>| #[trigger]
                heard.heard_from(controls, outcome.1) && old(self).modulates_frame(
                    crate::flow::frames(buffer@)[frame as int],
                    heard,
                    outcome.0@.take(channels as int),
                    *final(self),
                ),
    {
        let ghost input = crate::flow::frames(buffer@)[frame as int];
        let ghost heard_before = controls;
        let (value, controls) = advance(controls, SmoothedParam::Amount);
        let ghost heard_amount = controls;
        let amount = D::times(value, D::constant(AMOUNT_GAIN_MULTIPLIER));
        let controls = self.maybe_update_filters(controls);
        let ghost tuned = *self;
        let ghost retunings = choose|retunings: Retunings<D::Sample>| #[trigger]
            retunings.polled_from(heard_amount, controls) && old(self).retuned(retunings, tuned);
        let stereo_mode = controls.stereo_mode();
        let ghost modes: Seq<Mode>;
        let wet;
        match stereo_mode {
            StereoMode::Mono => {
                wet = self.modulate_mono(buffer, channels, frame, amount, &controls);
                proof {
                    let frame_wet = wet@.take(channels as int);
                    let (heard_modes, noise, states) = choose|
                        modes: Seq<Mode>,
                        noise: D::Sample,
                        states: Seq<Self>,
                    |
                        {
                            &&& #[trigger] tuned.modulates_mono(
                                input,
                                modes,
                                amount,
                                noise,
                                frame_wet,
                                states,
                            )
                            &&& states.last() == *self
                            &&& crate::flow::modes_heard(controls, channels as nat, modes)
                        };
                    modes = heard_modes;
                }
            },
            StereoMode::Stereo => {
                wet = self.modulate_stereo(buffer, channels, frame, amount, &controls);
                proof {
                    let frame_wet = wet@.take(channels as int);
                    let (heard_modes, noises, states, drawn) = choose|
                        modes: Seq<Mode>,
                        noises: Seq<D::Sample>,
                        states: Seq<Self>,
                        drawn: Seq<Self>,
                    |
                        {
                            &&& #[trigger] tuned.modulates_stereo(
                                input,
                                modes,
                                amount,
                                noises,
                                frame_wet,
                                states,
                                drawn,
                            )
                            &&& states.last() == *self
                            &&& crate::flow::modes_heard(controls, channels as nat, modes)
                        };
                    modes = heard_modes;
                }
            },
        }
        proof {
            let frame_wet = wet@.take(channels as int);
            let heard = FrameControls { amount: value, retunings, stereo_mode, modes };
            assert(crate::flow::moves(
                heard_before,
                SmoothedParam::Amount,
                heard.amount,
                heard_amount,
            ));
            assert(heard.heard_from(heard_before, controls));
            assert(tuned.modulates_channels(input, heard, amount, frame_wet, *self));
        }
        let ghost heard_end = controls;
        let outcome = (wet, controls);
        assert(outcome.1 == heard_end);
        outcome
    }

    /// Mixes one frame with its wet samples, at the output gain.
    fn mix_frame<C: Controls<D::Sample>>(
        buffer: &mut Vec<Vec<D::Sample>>,
        channels: usize,
        frame: usize,
        wet: &[D::Sample; 2],
        controls: C,
    ) -> (after: C)
        requires
            channels == crate::flow::channel_count(old(buffer)@),
            crate::flow::rectangular(old(buffer)@),
            frame < crate::flow::frame_count(old(buffer)@),
        ensures
            crate::flow::same_beyond(old(buffer)@, final(buffer)@),
            forall|i: int|
                0 <= i < crate::flow::frame_count(old(buffer)@) && i != frame
                    ==> #[trigger] crate::flow::frames(final(buffer)@)[i] == crate::flow::frames(
                    old(buffer)@,
                )[i],
            exists|gain: D::Sample| #[trigger]
                crate::flow::moves(controls, SmoothedParam::OutputGain, gain, after)
                    && crate::flow::mixes_frame::<D>(
                    crate::flow::frames(old(buffer)@)[frame as int],
                    wet@.take(channels as int),
                    gain,
                    crate::flow::frames(final(buffer)@)[frame as int],
                ),
    {
        let (output_gain, after) = advance(controls, SmoothedParam::OutputGain);
        let mut c: usize = 0;
        while c < channels
            invariant
                c <= channels <= 2,
                channels == crate::flow::channel_count(old(buffer)@),
                crate::flow::rectangular(old(buffer)@),
                crate::flow::same_beyond(old(buffer)@, buffer@),
                frame < crate::flow::frame_count(old(buffer)@),
                forall|k: int|
                    c <= k < buffer@.len() ==> (#[trigger] buffer@[k])@ == old(buffer)@[k]@,
                forall|k: int, i: int|
                    #![trigger buffer@[k]@[i]]
                    0 <= k < buffer@.len() && 0 <= i < crate::flow::frame_count(old(buffer)@) && i
                        != frame ==> buffer@[k]@[i] == old(buffer)@[k]@[i],
                forall|k: int|
                    0 <= k < c ==> crate::flow::mixes_sample::<D>(
                        old(buffer)@[k]@[frame as int],
                        wet@[k],
                        output_gain,
                        #[trigger] buffer@[k]@[frame as int],
                    ),
            decreases channels - c,
        {
            let sum = D::plus(buffer[c][frame], wet[c]);
            buffer[c][frame] = D::times(sum, output_gain);
            c += 1;
        }
        proof {
            assert forall|i: int|
                0 <= i < crate::flow::frame_count(old(buffer)@) && i
                    != frame implies #[trigger] crate::flow::frames(buffer@)[i]
                == crate::flow::frames(old(buffer)@)[i] by {
                assert(crate::flow::frames(buffer@)[i] =~= crate::flow::frames(old(buffer)@)[i]);
            }
            assert(crate::flow::moves(controls, SmoothedParam::OutputGain, output_gain, after));
        }
        after
    }

    /// Processes a buffer, which holds the samples of each channel, in place. Works on the first
    /// two channels.
    #[verifier::rlimit(60)]
    pub fn process<C: Controls<D::Sample>>(
        &mut self,
        buffer: &mut Vec<Vec<D::Sample>>,
        controls: C,
    ) -> (outcome: (ProcessStatus, C))
        requires
            crate::flow::rectangular(old(buffer)@),
        ensures
            outcome.0 == ProcessStatus::Normal,
            crate::flow::same_beyond(old(buffer)@, final(buffer)@),
            exists|run: Run<D>| #[trigger]
                run.heard_from(controls, outcome.1) && run.leads(
                    *old(self),
                    crate::flow::frames(old(buffer)@),
                    crate::flow::frames(final(buffer)@),
                    *final(self),
                ),
    {
        let channels: usize = if buffer.len() < 2 {
            buffer.len()
        } else {
            2
        };
        let length: usize = if channels == 0 {
            0
        } else {
            buffer[0].len()
        };
        let ghost input = crate::flow::frames(buffer@);
        let ghost mut run = Run::<D> {
            heard: seq![],
            wet: seq![],
            gains: seq![],
            states: seq![*self],
        };
        let ghost heard_start = controls;
        let mut controls = controls;
        let ghost mut marks = seq![controls];
        let mut start: usize = 0;
        while start < length
            invariant
                start <= length,
                start < length ==> start % BLOCK_SIZE == 0,
                length == crate::flow::frame_count(old(buffer)@),
                channels == crate::flow::channel_count(old(buffer)@),
                input == crate::flow::frames(old(buffer)@),
                crate::flow::rectangular(old(buffer)@),
                crate::flow::same_beyond(old(buffer)@, buffer@),
                crate::flow::blocks_heard(run.heard, run.gains, marks),
                marks.first() == heard_start,
                marks.last() == controls,
                run.leads(
                    *old(self),
                    input.take(start as int),
                    crate::flow::frames(buffer@).take(start as int),
                    *self,
                ),
                forall|i: int|
                    start <= i < length ==> #[trigger] crate::flow::frames(buffer@)[i] == input[i],
            decreases length - start,
        {
            let end: usize = if length - start > BLOCK_SIZE {
                start + BLOCK_SIZE
            } else {
                length
            };
            let ghost prior = run;
            let ghost mut heard: Seq<FrameControls<D::Sample>> = seq![];
            let ghost mut modulating = seq![controls];
            let zero = D::constant(0);
            let mut rm_outputs = [[zero, zero]; 64];

            // Reduce per-sample branching a bit by iterating over smaller blocks and only then
            // deciding what to do with the output
            let mut i: usize = start;
            while i < end
                invariant
                    start <= i <= end <= length,
                    end - start <= 64,
                    length == crate::flow::frame_count(buffer@),
                    channels == crate::flow::channel_count(buffer@),
                    crate::flow::rectangular(buffer@),
                    crate::flow::frames_heard(heard, modulating),
                    modulating.first() == marks.last(),
                    modulating.last() == controls,
                    heard.len() == i - start,
                    run.heard == prior.heard + heard,
                    run.heard.len() == i,
                    run.wet.len() == i,
                    run.gains.len() == start,
                    run.states.len() == i + 1,
                    run.states[0] == *old(self),
                    run.states[i as int] == *self,
                    input.len() == length,
                    forall|k: int|
                        start <= k < length ==> #[trigger] crate::flow::frames(buffer@)[k]
                            == input[k],
                    forall|k: int|
                        0 <= k < i ==> run.states[k].modulates_frame(
                            input[k],
                            run.heard[k],
                            #[trigger] run.wet[k],
                            run.states[k + 1],
                        ),
                    forall|k: int|
                        start <= k < i ==> #[trigger] run.wet[k] == rm_outputs@[k - start]@.take(
                            channels as int,
                        ),
                    run.gains == prior.gains,
                    forall|k: int| 0 <= k < start ==> prior.wet[k] == run.wet[k],
                decreases end - i,
            {
                let ghost (before, heard_before) = (*self, controls);
                let (wet, next) = self.modulate_frame(buffer, channels, i, controls);
                controls = next;
                rm_outputs[i - start] = wet;
                proof {
                    let frame_wet = wet@.take(channels as int);
                    let frame_heard = choose|heard: FrameControls<D::Sample>| #[trigger]
                        heard.heard_from(heard_before, controls) && before.modulates_frame(
                            crate::flow::frames(buffer@)[i as int],
                            heard,
                            frame_wet,
                            *self,
                        );
                    heard = heard.push(frame_heard);
                    modulating = modulating.push(controls);
                    run = Run {
                        heard: run.heard.push(frame_heard),
                        wet: run.wet.push(frame_wet),
                        states: run.states.push(*self),
                        ..run
                    };
                }
                i += 1;
            }

            let ghost modulated = run;
            let ghost mut gains: Seq<D::Sample> = seq![];
            let ghost mut mixing = seq![controls];
            proof {
                assert forall|k: int| 0 <= k < start implies crate::flow::mixes_frame::<D>(
                    input[k],
                    run.wet[k],
                    run.gains[k],
                    #[trigger] crate::flow::frames(buffer@)[k],
                ) by {
                    assert(crate::flow::frames(buffer@).take(start as int)[k]
                        == crate::flow::frames(buffer@)[k]);
                }
            }
            let mut i: usize = start;
            while i < end
                invariant
                    start <= i <= end <= length,
                    end - start <= 64,
                    length == crate::flow::frame_count(old(buffer)@),
                    channels == crate::flow::channel_count(old(buffer)@),
                    crate::flow::rectangular(old(buffer)@),
                    crate::flow::same_beyond(old(buffer)@, buffer@),
                    crate::flow::gains_heard(gains, mixing),
                    mixing.first() == modulating.last(),
                    mixing.last() == controls,
                    gains.len() == i - start,
                    run.gains == prior.gains + gains,
                    run.wet.len() == end,
                    run.gains.len() == i,
                    run == (Run { gains: run.gains, ..modulated }),
                    forall|k: int|
                        start <= k < end ==> #[trigger] run.wet[k] == rm_outputs@[k - start]@.take(
                            channels as int,
                        ),
                    forall|k: int|
                        i <= k < length ==> #[trigger] crate::flow::frames(buffer@)[k] == input[k],
                    forall|k: int|
                        0 <= k < i ==> crate::flow::mixes_frame::<D>(
                            input[k],
                            run.wet[k],
                            run.gains[k],
                            #[trigger] crate::flow::frames(buffer@)[k],
                        ),
                decreases end - i,
            {
                let ghost (before, heard_before) = (buffer@, controls);
                controls = Self::mix_frame(
                    buffer,
                    channels,
                    i,
                    &rm_outputs[i - start],
                    controls,
                );
                proof {
                    let gain = choose|gain: D::Sample| #[trigger]
                        crate::flow::moves(heard_before, SmoothedParam::OutputGain, gain, controls)
                            && crate::flow::mixes_frame::<D>(
                            crate::flow::frames(before)[i as int],
                            run.wet[i as int],
                            gain,
                            crate::flow::frames(buffer@)[i as int],
                        );
                    gains = gains.push(gain);
                    mixing = mixing.push(controls);
                    run = Run { gains: run.gains.push(gain), ..run };
                }
                i += 1;
            }
            proof {
                assert(crate::flow::block_heard(heard, gains, marks.last(), controls));
                crate::flow::lemma_block_follows(
                    prior.heard,
                    prior.gains,
                    marks,
                    heard,
                    gains,
                    controls,
                );
                marks = marks.push(controls);
            }
            start = end;
        }
        proof {
            let output = crate::flow::frames(buffer@);
            assert(output.take(length as int) =~= output);
            assert(input.take(length as int) =~= input);
            assert(run.heard_from(heard_start, controls));
        }
        let ghost heard_end = controls;
        let outcome = (ProcessStatus::Normal, controls);
        assert(outcome.1 == heard_end);
        outcome
    }
}

} // verus!
