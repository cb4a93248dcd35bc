//! What holds of the channels, the waveform, the noise and the gain.

use crate::config::{Mode, SmoothedParam, StereoMode};
use crate::crisp::Crisp;
use crate::dsp::{Controls, Dsp};
use crate::flow::{FrameControls, Retunings, Run, Tuning};
use vstd::prelude::*;

verus! {

/// There is one random sequence for both channels: a channel selects the filters that the noise goes
/// through, and nothing else. Where these filters are equal, the noise of either channel is the same.
pub proof fn law_channels_share_one_random_sequence<D: Dsp>(
    a: Crisp<D>,
    b: Crisp<D>,
    channel_a: int,
    channel_b: int,
    noise_a: D::Sample,
    noise_b: D::Sample,
    after_a: Crisp<D>,
    after_b: Crisp<D>,
)
    requires
        crate::laws::deterministic::<D>(),
        0 <= channel_a < 2,
        0 <= channel_b < 2,
        a.prng == b.prng,
        a.noise_hpf@[channel_a] == b.noise_hpf@[channel_b],
        a.noise_lpf@[channel_a] == b.noise_lpf@[channel_b],
        a.draws_noise(channel_a, noise_a, after_a),
        b.draws_noise(channel_b, noise_b, after_b),
    ensures
        noise_a == noise_b,
        after_a.prng == after_b.prng,
        after_a.noise_hpf@[channel_a] == after_b.noise_hpf@[channel_b],
        after_a.noise_lpf@[channel_a] == after_b.noise_lpf@[channel_b],
{
    let (white_a, high_a) = choose|white: D::Sample, high: D::Sample|
        {
            &&& crate::flow::whitens::<D>(a.prng.word(), white)
            &&& #[trigger] a.noise_hpf@[channel_a].filters(
                white,
                high,
                after_a.noise_hpf@[channel_a],
            )
            &&& a.noise_lpf@[channel_a].filters(high, noise_a, after_a.noise_lpf@[channel_a])
        };
    let (white_b, high_b) = choose|white: D::Sample, high: D::Sample|
        {
            &&& crate::flow::whitens::<D>(b.prng.word(), white)
            &&& #[trigger] b.noise_hpf@[channel_b].filters(
                white,
                high,
                after_b.noise_hpf@[channel_b],
            )
            &&& b.noise_lpf@[channel_b].filters(high, noise_b, after_b.noise_lpf@[channel_b])
        };
    crate::laws::lemma_whitens_once::<D>(a.prng.word(), white_a, white_b);
}

impl<D: Dsp> Crisp<D> {
    /// The two effects are in the same state, but for the input filters of other channels.
    pub open spec fn same_for_channel(self, other: Self, channel: int) -> bool {
        &&& self.sample_rate == other.sample_rate
        &&& self.prng == other.prng
        &&& self.noise_hpf@ == other.noise_hpf@
        &&& self.noise_lpf@ == other.noise_lpf@
        &&& self.rm_input_lpf@[channel] == other.rm_input_lpf@[channel]
    }
}

proof fn lemma_noise_keeps_channel<D: Dsp>(
    channel: int,
    drawing: int,
    a: Crisp<D>,
    b: Crisp<D>,
    noise_a: D::Sample,
    noise_b: D::Sample,
    after_a: Crisp<D>,
    after_b: Crisp<D>,
)
    requires
        crate::laws::deterministic::<D>(),
        0 <= channel < 2,
        0 <= drawing < 2,
        a.same_for_channel(b, channel),
        a.draws_noise(drawing, noise_a, after_a),
        b.draws_noise(drawing, noise_b, after_b),
    ensures
        noise_a == noise_b,
        after_a.same_for_channel(after_b, channel),
{
    law_channels_share_one_random_sequence(
        a,
        b,
        drawing,
        drawing,
        noise_a,
        noise_b,
        after_a,
        after_b,
    );
}

proof fn lemma_sample_keeps_channel<D: Dsp>(
    channel: int,
    modulated: int,
    a: Crisp<D>,
    b: Crisp<D>,
    sample_a: D::Sample,
    sample_b: D::Sample,
    noise: D::Sample,
    mode: Mode,
    amount: D::Sample,
    wet_a: D::Sample,
    wet_b: D::Sample,
    after_a: Crisp<D>,
    after_b: Crisp<D>,
)
    requires
        crate::laws::deterministic::<D>(),
        0 <= channel < 2,
        0 <= modulated < 2,
        a.same_for_channel(b, channel),
        modulated == channel ==> sample_a == sample_b,
        a.modulates_sample(sample_a, modulated, noise, mode, amount, wet_a, after_a),
        b.modulates_sample(sample_b, modulated, noise, mode, amount, wet_b, after_b),
    ensures
        modulated == channel ==> wet_a == wet_b,
        after_a.same_for_channel(after_b, channel),
{
    let result_a = choose|result: D::Sample| #[trigger]
        a.ring_modulates(sample_a, modulated, noise, mode, result, after_a) && call_ensures(
            D::times,
            (result, amount),
            wet_a,
        );
    let result_b = choose|result: D::Sample| #[trigger]
        b.ring_modulates(sample_b, modulated, noise, mode, result, after_b) && call_ensures(
            D::times,
            (result, amount),
            wet_b,
        );
    if modulated == channel {
        lemma_ring_modulates_once(
            channel,
            a,
            b,
            sample_a,
            noise,
            mode,
            result_a,
            result_b,
            after_a,
            after_b,
        );
    }
}

/// A sample is ring modulated in one way, whatever the other channel is.
proof fn lemma_ring_modulates_once<D: Dsp>(
    channel: int,
    a: Crisp<D>,
    b: Crisp<D>,
    sample: D::Sample,
    noise: D::Sample,
    mode: Mode,
    result_a: D::Sample,
    result_b: D::Sample,
    after_a: Crisp<D>,
    after_b: Crisp<D>,
)
    requires
        crate::laws::deterministic::<D>(),
        0 <= channel < 2,
        a.rm_input_lpf@[channel] == b.rm_input_lpf@[channel],
        a.ring_modulates(sample, channel, noise, mode, result_a, after_a),
        b.ring_modulates(sample, channel, noise, mode, result_b, after_b),
    ensures
        result_a == result_b,
        after_a.rm_input_lpf@[channel] == after_b.rm_input_lpf@[channel],
{
    let (filtered_a, part_a) = choose|filtered: D::Sample, part: D::Sample|
        {
            &&& #[trigger] a.rm_input_lpf@[channel].filters(
                sample,
                filtered,
                after_a.rm_input_lpf@[channel],
            )
            &&& crate::flow::selects::<D>(mode, filtered, part)
            &&& #[trigger] call_ensures(D::times, (part, noise), result_a)
        };
    let (filtered_b, part_b) = choose|filtered: D::Sample, part: D::Sample|
        {
            &&& #[trigger] b.rm_input_lpf@[channel].filters(
                sample,
                filtered,
                after_b.rm_input_lpf@[channel],
            )
            &&& crate::flow::selects::<D>(mode, filtered, part)
            &&& #[trigger] call_ensures(D::times, (part, noise), result_b)
        };
    crate::laws::lemma_selects_once::<D>(mode, filtered_a, part_a, part_b);
}

proof fn lemma_mono_frame_keeps_channel<D: Dsp>(
    channel: int,
    a: Crisp<D>,
    b: Crisp<D>,
    input_a: Seq<D::Sample>,
    input_b: Seq<D::Sample>,
    modes: Seq<Mode>,
    amount: D::Sample,
    noise_a: D::Sample,
    noise_b: D::Sample,
    wet_a: Seq<D::Sample>,
    wet_b: Seq<D::Sample>,
    states_a: Seq<Crisp<D>>,
    states_b: Seq<Crisp<D>>,
    n: nat,
)
    requires
        crate::laws::deterministic::<D>(),
        0 <= channel < input_a.len() <= 2,
        input_b.len() == input_a.len(),
        input_a[channel] == input_b[channel],
        n <= input_a.len(),
        a.same_for_channel(b, channel),
        a.modulates_mono(input_a, modes, amount, noise_a, wet_a, states_a),
        b.modulates_mono(input_b, modes, amount, noise_b, wet_b, states_b),
    ensures
        noise_a == noise_b,
        states_a[n as int].same_for_channel(states_b[n as int], channel),
        n > channel ==> wet_a[channel] == wet_b[channel],
    decreases n,
{
    lemma_noise_keeps_channel(channel, 0, a, b, noise_a, noise_b, states_a[0], states_b[0]);
    if n > 0 {
        let k = n - 1;
        lemma_mono_frame_keeps_channel(
            channel,
            a,
            b,
            input_a,
            input_b,
            modes,
            amount,
            noise_a,
            noise_b,
            wet_a,
            wet_b,
            states_a,
            states_b,
            k as nat,
        );
        lemma_sample_keeps_channel(
            channel,
            k,
            states_a[k],
            states_b[k],
            input_a[k],
            input_b[k],
            noise_a,
            modes[k],
            amount,
            wet_a[k],
            wet_b[k],
            states_a[k + 1],
            states_b[k + 1],
        );
    }
}

proof fn lemma_stereo_frame_keeps_channel<D: Dsp>(
    channel: int,
    a: Crisp<D>,
    b: Crisp<D>,
    input_a: Seq<D::Sample>,
    input_b: Seq<D::Sample>,
    modes: Seq<Mode>,
    amount: D::Sample,
    noises_a: Seq<D::Sample>,
    noises_b: Seq<D::Sample>,
    wet_a: Seq<D::Sample>,
    wet_b: Seq<D::Sample>,
    states_a: Seq<Crisp<D>>,
    states_b: Seq<Crisp<D>>,
    drawn_a: Seq<Crisp<D>>,
    drawn_b: Seq<Crisp<D>>,
    n: nat,
)
    requires
        crate::laws::deterministic::<D>(),
        0 <= channel < input_a.len() <= 2,
        input_b.len() == input_a.len(),
        input_a[channel] == input_b[channel],
        n <= input_a.len(),
        a.same_for_channel(b, channel),
        a.modulates_stereo(input_a, modes, amount, noises_a, wet_a, states_a, drawn_a),
        b.modulates_stereo(input_b, modes, amount, noises_b, wet_b, states_b, drawn_b),
    ensures
        states_a[n as int].same_for_channel(states_b[n as int], channel),
        n > channel ==> wet_a[channel] == wet_b[channel],
    decreases n,
{
    if n > 0 {
        let k = n - 1;
        lemma_stereo_frame_keeps_channel(
            channel,
            a,
            b,
            input_a,
            input_b,
            modes,
            amount,
            noises_a,
            noises_b,
            wet_a,
            wet_b,
            states_a,
            states_b,
            drawn_a,
            drawn_b,
            k as nat,
        );
        assert(states_a[k].modulates_with_own_noise(
            input_a[k],
            k,
            noises_a[k],
            drawn_a[k],
            modes[k],
            amount,
            wet_a[k],
            states_a[k + 1],
        ));
        assert(states_b[k].modulates_with_own_noise(
            input_b[k],
            k,
            noises_b[k],
            drawn_b[k],
            modes[k],
            amount,
            wet_b[k],
            states_b[k + 1],
        ));
        lemma_noise_keeps_channel(
            channel,
            k,
            states_a[k],
            states_b[k],
            noises_a[k],
            noises_b[k],
            drawn_a[k],
            drawn_b[k],
        );
        lemma_sample_keeps_channel(
            channel,
            k,
            drawn_a[k],
            drawn_b[k],
            input_a[k],
            input_b[k],
            noises_a[k],
            modes[k],
            amount,
            wet_a[k],
            wet_b[k],
            states_a[k + 1],
            states_b[k + 1],
        );
    }
}

proof fn lemma_retuning_keeps_channel<D: Dsp>(
    channel: int,
    a: Crisp<D>,
    b: Crisp<D>,
    retunings: Retunings<D::Sample>,
    after_a: Crisp<D>,
    after_b: Crisp<D>,
)
    requires
        crate::laws::deterministic::<D>(),
        0 <= channel < 2,
        a.same_for_channel(b, channel),
        a.retuned(retunings, after_a),
        b.retuned(retunings, after_b),
    ensures
        after_a.same_for_channel(after_b, channel),
{
    crate::laws::lemma_bank_retuned_once(
        crate::config::FilterKind::HighPass,
        a.sample_rate,
        a.noise_hpf@,
        retunings.noise_hpf,
        after_a.noise_hpf@,
        after_b.noise_hpf@,
    );
    crate::laws::lemma_bank_retuned_once(
        crate::config::FilterKind::LowPass,
        a.sample_rate,
        a.noise_lpf@,
        retunings.noise_lpf,
        after_a.noise_lpf@,
        after_b.noise_lpf@,
    );
}

proof fn lemma_frame_keeps_channel<D: Dsp>(
    channel: int,
    a: Crisp<D>,
    b: Crisp<D>,
    input_a: Seq<D::Sample>,
    input_b: Seq<D::Sample>,
    heard: FrameControls<D::Sample>,
    wet_a: Seq<D::Sample>,
    wet_b: Seq<D::Sample>,
    after_a: Crisp<D>,
    after_b: Crisp<D>,
)
    requires
        crate::laws::deterministic::<D>(),
        0 <= channel < input_a.len(),
        input_a[channel] == input_b[channel],
        a.same_for_channel(b, channel),
        a.modulates_frame(input_a, heard, wet_a, after_a),
        b.modulates_frame(input_b, heard, wet_b, after_b),
    ensures
        wet_a[channel] == wet_b[channel],
        after_a.same_for_channel(after_b, channel),
{
    let (amount_a, tuned_a) = choose|amount: D::Sample, tuned: Crisp<D>|
        {
            &&& crate::flow::scales_amount::<D>(heard.amount, amount)
            &&& a.retuned(heard.retunings, tuned)
            &&& #[trigger] tuned.modulates_channels(input_a, heard, amount, wet_a, after_a)
        };
    let (amount_b, tuned_b) = choose|amount: D::Sample, tuned: Crisp<D>|
        {
            &&& crate::flow::scales_amount::<D>(heard.amount, amount)
            &&& b.retuned(heard.retunings, tuned)
            &&& #[trigger] tuned.modulates_channels(input_b, heard, amount, wet_b, after_b)
        };
    lemma_retuning_keeps_channel(channel, a, b, heard.retunings, tuned_a, tuned_b);
    match heard.stereo_mode {
        StereoMode::Mono => {
            let (noise_a, states_a) = choose|noise: D::Sample, states: Seq<Crisp<D>>| #[trigger]
                tuned_a.modulates_mono(input_a, heard.modes, amount_a, noise, wet_a, states)
                    && states.last() == after_a;
            let (noise_b, states_b) = choose|noise: D::Sample, states: Seq<Crisp<D>>| #[trigger]
                tuned_b.modulates_mono(input_b, heard.modes, amount_b, noise, wet_b, states)
                    && states.last() == after_b;
            lemma_mono_frame_keeps_channel(
                channel,
                tuned_a,
                tuned_b,
                input_a,
                input_b,
                heard.modes,
                amount_a,
                noise_a,
                noise_b,
                wet_a,
                wet_b,
                states_a,
                states_b,
                input_a.len(),
            );
        },
        StereoMode::Stereo => {
            let (noises_a, states_a, drawn_a) = choose|
                noises: Seq<D::Sample>,
                states: Seq<Crisp<D>>,
                drawn: Seq<Crisp<D>>,
            | #[trigger]
                tuned_a.modulates_stereo(
                    input_a,
                    heard.modes,
                    amount_a,
                    noises,
                    wet_a,
                    states,
                    drawn,
                ) && states.last() == after_a;
            let (noises_b, states_b, drawn_b) = choose|
                noises: Seq<D::Sample>,
                states: Seq<Crisp<D>>,
                drawn: Seq<Crisp<D>>,
            | #[trigger]
                tuned_b.modulates_stereo(
                    input_b,
                    heard.modes,
                    amount_b,
                    noises,
                    wet_b,
                    states,
                    drawn,
                ) && states.last() == after_b;
            lemma_stereo_frame_keeps_channel(
                channel,
                tuned_a,
                tuned_b,
                input_a,
                input_b,
                heard.modes,
                amount_a,
                noises_a,
                noises_b,
                wet_a,
                wet_b,
                states_a,
                states_b,
                drawn_a,
                drawn_b,
                input_a.len(),
            );
        },
    }
}

proof fn lemma_run_keeps_channel<D: Dsp>(
    channel: int,
    run_a: Run<D>,
    run_b: Run<D>,
    a: Crisp<D>,
    b: Crisp<D>,
    input_a: Seq<Seq<D::Sample>>,
    input_b: Seq<Seq<D::Sample>>,
    output_a: Seq<Seq<D::Sample>>,
    output_b: Seq<Seq<D::Sample>>,
    after_a: Crisp<D>,
    after_b: Crisp<D>,
    n: nat,
)
    requires
        crate::laws::deterministic::<D>(),
        0 <= channel < 2,
        n <= input_a.len(),
        input_a.len() == input_b.len(),
        forall|i: int|
            0 <= i < input_a.len() ==> channel < (#[trigger] input_a[i]).len() && input_a[i][channel]
                == input_b[i][channel],
        run_a.heard == run_b.heard,
        a.same_for_channel(b, channel),
        run_a.leads(a, input_a, output_a, after_a),
        run_b.leads(b, input_b, output_b, after_b),
    ensures
        run_a.states[n as int].same_for_channel(run_b.states[n as int], channel),
        forall|i: int| 0 <= i < n ==> (#[trigger] run_a.wet[i])[channel] == run_b.wet[i][channel],
    decreases n,
{
    if n > 0 {
        let i = n - 1;
        lemma_run_keeps_channel(
            channel,
            run_a,
            run_b,
            a,
            b,
            input_a,
            input_b,
            output_a,
            output_b,
            after_a,
            after_b,
            i as nat,
        );
        lemma_frame_keeps_channel(
            channel,
            run_a.states[i],
            run_b.states[i],
            input_a[i],
            input_b[i],
            run_a.heard[i],
            run_a.wet[i],
            run_b.wet[i],
            run_a.states[i + 1],
            run_b.states[i + 1],
        );
    }
}

/// The channels are separate: what goes in on one channel reaches neither the output of the other
/// channel nor the noise. Two runs whose inputs agree on a channel, with the controls saying the
/// same, agree on the output of that channel, on the generator and on the filters of the noise.
pub proof fn law_channels_are_separate<D: Dsp>(
    channel: int,
    run_a: Run<D>,
    run_b: Run<D>,
    a: Crisp<D>,
    b: Crisp<D>,
    input_a: Seq<Seq<D::Sample>>,
    input_b: Seq<Seq<D::Sample>>,
    output_a: Seq<Seq<D::Sample>>,
    output_b: Seq<Seq<D::Sample>>,
    after_a: Crisp<D>,
    after_b: Crisp<D>,
)
    requires
        crate::laws::deterministic::<D>(),
        0 <= channel < 2,
        input_a.len() == input_b.len(),
        forall|i: int|
            0 <= i < input_a.len() ==> channel < (#[trigger] input_a[i]).len() && input_a[i][channel]
                == input_b[i][channel],
        run_a.heard == run_b.heard,
        run_a.gains == run_b.gains,
        a.same_for_channel(b, channel),
        run_a.leads(a, input_a, output_a, after_a),
        run_b.leads(b, input_b, output_b, after_b),
    ensures
        forall|i: int|
            0 <= i < output_a.len() ==> (#[trigger] output_a[i])[channel] == output_b[i][channel],
        after_a.same_for_channel(after_b, channel),
{
    lemma_run_keeps_channel(
        channel,
        run_a,
        run_b,
        a,
        b,
        input_a,
        input_b,
        output_a,
        output_b,
        after_a,
        after_b,
        input_a.len(),
    );
    assert forall|i: int| 0 <= i < output_a.len() implies (#[trigger] output_a[i])[channel]
        == output_b[i][channel] by {
        assert(run_a.wet[i][channel] == run_b.wet[i][channel]);
        assert(crate::flow::mixes_frame::<D>(
            input_b[i],
            run_b.wet[i],
            run_b.gains[i],
            output_b[i],
        ));
        assert(crate::flow::mixes_sample::<D>(
            input_a[i][channel],
            run_a.wet[i][channel],
            run_a.gains[i],
            output_a[i][channel],
        ));
        assert(crate::flow::mixes_sample::<D>(
            input_b[i][channel],
            run_b.wet[i][channel],
            run_b.gains[i],
            output_b[i][channel],
        ));
    }
}

/// For steady controls the channels are separate without more ado: two effects in the same state,
/// with the controls in the same position, whose inputs agree on a channel and differ on the other
/// one at most, agree on the output of that channel, on the generator and on the filters of the
/// noise.
pub proof fn law_steady_controls_keep_channels_separate<D: Dsp, C: Controls<D::Sample>>(
    channel: int,
    controls: C,
    run_a: Run<D>,
    run_b: Run<D>,
    a: Crisp<D>,
    b: Crisp<D>,
    input_a: Seq<Seq<D::Sample>>,
    input_b: Seq<Seq<D::Sample>>,
    output_a: Seq<Seq<D::Sample>>,
    output_b: Seq<Seq<D::Sample>>,
    after_a: Crisp<D>,
    after_b: Crisp<D>,
    controls_a: C,
    controls_b: C,
)
    requires
        crate::laws::deterministic::<D>(),
        crate::laws::steady::<D::Sample, C>(),
        0 <= channel < 2,
        input_a.len() == input_b.len(),
        forall|i: int|
            0 <= i < input_a.len() ==> channel < (#[trigger] input_a[i]).len()
                && input_a[i].len() == input_b[i].len() && input_a[i][channel]
                == input_b[i][channel],
        a.same_for_channel(b, channel),
        run_a.heard_from(controls, controls_a),
        run_b.heard_from(controls, controls_b),
        run_a.leads(a, input_a, output_a, after_a),
        run_b.leads(b, input_b, output_b, after_b),
    ensures
        forall|i: int|
            0 <= i < output_a.len() ==> (#[trigger] output_a[i])[channel] == output_b[i][channel],
        after_a.same_for_channel(after_b, channel),
        controls_a == controls_b,
{
    crate::laws::lemma_runs_have_modes(
        run_a,
        run_b,
        a,
        b,
        input_a,
        input_b,
        output_a,
        output_b,
        after_a,
        after_b,
    );
    crate::laws::law_steady_controls_say_the_same(controls, run_a, run_b, controls_a, controls_b);
    law_channels_are_separate(
        channel,
        run_a,
        run_b,
        a,
        b,
        input_a,
        input_b,
        output_a,
        output_b,
        after_a,
        after_b,
    );
}

/// The output gain is a plain gain on the dry and the modulated sound together: the output is that
/// of the same run at a gain of one, times the gain, and no state depends on it. That is so wherever
/// multiplying the mix with one changes nothing.
pub proof fn law_output_gain_is_a_plain_gain<D: Dsp>(
    one: D::Sample,
    run_a: Run<D>,
    run_b: Run<D>,
    a: Crisp<D>,
    b: Crisp<D>,
    input: Seq<Seq<D::Sample>>,
    output_a: Seq<Seq<D::Sample>>,
    output_b: Seq<Seq<D::Sample>>,
    after_a: Crisp<D>,
    after_b: Crisp<D>,
)
    requires
        crate::laws::deterministic::<D>(),
        forall|i: int, c: int, mix: D::Sample, r: D::Sample|
            0 <= i < input.len() && 0 <= c < input[i].len() && #[trigger] call_ensures(
                D::plus,
                (input[i][c], run_a.wet[i][c]),
                mix,
            ) && #[trigger] call_ensures(D::times, (mix, one), r) ==> r == mix,
        forall|i: int| 0 <= i < input.len() ==> #[trigger] run_a.gains[i] == one,
        run_a.heard == run_b.heard,
        a.same_state(b),
        run_a.leads(a, input, output_a, after_a),
        run_b.leads(b, input, output_b, after_b),
    ensures
        forall|i: int, c: int|
            0 <= i < input.len() && 0 <= c < input[i].len() ==> call_ensures(
                D::times,
                (#[trigger] output_a[i][c], run_b.gains[i]),
                output_b[i][c],
            ),
        after_a.same_state(after_b),
{
    crate::laws::lemma_run_once(
        run_a,
        run_b,
        a,
        b,
        input,
        output_a,
        output_b,
        after_a,
        after_b,
        input.len(),
    );
    assert forall|i: int, c: int| 0 <= i < input.len() && 0 <= c < input[i].len() implies call_ensures(
        D::times,
        (#[trigger] output_a[i][c], run_b.gains[i]),
        output_b[i][c],
    ) by {
        assert(run_a.wet[i] == run_b.wet[i]);
        assert(run_a.gains[i] == one);
        assert(crate::flow::mixes_frame::<D>(input[i], run_a.wet[i], one, output_a[i]));
        assert(crate::flow::mixes_frame::<D>(
            input[i],
            run_b.wet[i],
            run_b.gains[i],
            output_b[i],
        ));
        let mix_a = choose|mix: D::Sample| #[trigger]
            call_ensures(D::plus, (input[i][c], run_a.wet[i][c]), mix) && call_ensures(
                D::times,
                (mix, one),
                output_a[i][c],
            );
        assert(crate::flow::mixes_sample::<D>(
            input[i][c],
            run_b.wet[i][c],
            run_b.gains[i],
            output_b[i][c],
        ));
        let mix_b = choose|mix: D::Sample| #[trigger]
            call_ensures(D::plus, (input[i][c], run_b.wet[i][c]), mix) && call_ensures(
                D::times,
                (mix, run_b.gains[i]),
                output_b[i][c],
            );
        assert(mix_a == mix_b);
    }
}

/// The two samples are the same number: they are equal, or both of them are zero. There may be more
/// than one zero, as there are a positive and a negative one among floating point numbers.
pub open spec fn same_number<S>(is_zero: spec_fn(S) -> bool, a: S, b: S) -> bool {
    a == b || (is_zero(a) && is_zero(b))
}

/// The larger of a sample and zero, and the smaller of them, are its two halves: one of them is the
/// sample, and the other one is zero.
pub open spec fn splits_at_zero<D: Dsp>(
    is_zero: spec_fn(D::Sample) -> bool,
    sample: D::Sample,
) -> bool {
    forall|zero: D::Sample, upper: D::Sample, lower: D::Sample|
        call_ensures(D::constant, (0i8,), zero) && #[trigger] call_ensures(
            D::max,
            (sample, zero),
            upper,
        ) && #[trigger] call_ensures(D::min, (sample, zero), lower) ==> {
            ||| same_number(is_zero, upper, sample) && is_zero(lower)
            ||| is_zero(upper) && same_number(is_zero, lower, sample)
        }
}

/// Zero times this factor is zero.
pub open spec fn keeps_zero<D: Dsp>(
    is_zero: spec_fn(D::Sample) -> bool,
    factor: D::Sample,
) -> bool {
    forall|zero: D::Sample, product: D::Sample| #[trigger]
        call_ensures(D::times, (zero, factor), product) && is_zero(zero) ==> is_zero(product)
}

/// Adding zero to this sample, or this sample to zero, changes nothing.
pub open spec fn unchanged_by_zero<D: Dsp>(
    is_zero: spec_fn(D::Sample) -> bool,
    sample: D::Sample,
) -> bool {
    &&& forall|zero: D::Sample, sum: D::Sample| #[trigger]
        call_ensures(D::plus, (sample, zero), sum) && is_zero(zero) ==> same_number(
            is_zero,
            sum,
            sample,
        )
    &&& forall|zero: D::Sample, sum: D::Sample| #[trigger]
        call_ensures(D::plus, (zero, sample), sum) && is_zero(zero) ==> same_number(
            is_zero,
            sum,
            sample,
        )
}

/// The two half-wave modes split the full-wave one between them: from the same state, sample and
/// noise, the results of the half-wave modes add up to that of the full-wave mode, and one of them is
/// zero. The mode has no part in the state that is left.
pub proof fn law_half_waves_add_up<D: Dsp>(
    is_zero: spec_fn(D::Sample) -> bool,
    before: Crisp<D>,
    sample: D::Sample,
    channel: int,
    noise: D::Sample,
    filtered: D::Sample,
    full: D::Sample,
    upper: D::Sample,
    lower: D::Sample,
    sum: D::Sample,
    after_full: Crisp<D>,
    after_upper: Crisp<D>,
    after_lower: Crisp<D>,
)
    requires
        crate::laws::deterministic::<D>(),
        0 <= channel < 2,
        before.ring_modulates(sample, channel, noise, Mode::Crispy, full, after_full),
        before.ring_modulates(sample, channel, noise, Mode::EvenCrispier, upper, after_upper),
        before.ring_modulates(
            sample,
            channel,
            noise,
            Mode::EvenCrispierNegated,
            lower,
            after_lower,
        ),
        call_ensures(D::plus, (upper, lower), sum),
        before.rm_input_lpf@[channel].filters(
            sample,
            filtered,
            after_full.rm_input_lpf@[channel],
        ),
        splits_at_zero::<D>(is_zero, filtered),
        keeps_zero::<D>(is_zero, noise),
        unchanged_by_zero::<D>(is_zero, full),
        forall|zero: D::Sample| #[trigger]
            is_zero(zero) ==> unchanged_by_zero::<D>(is_zero, zero),
    ensures
        same_number(is_zero, sum, full),
        is_zero(upper) || is_zero(lower),
        after_upper.same_state(after_full),
        after_lower.same_state(after_full),
{
    let channels = before.rm_input_lpf@;
    let part_full = choose|filtered: D::Sample, part: D::Sample|
        {
            &&& #[trigger] channels[channel].filters(
                sample,
                filtered,
                after_full.rm_input_lpf@[channel],
            )
            &&& crate::flow::selects::<D>(Mode::Crispy, filtered, part)
            &&& #[trigger] call_ensures(D::times, (part, noise), full)
        };
    let part_upper = choose|filtered: D::Sample, part: D::Sample|
        {
            &&& #[trigger] channels[channel].filters(
                sample,
                filtered,
                after_upper.rm_input_lpf@[channel],
            )
            &&& crate::flow::selects::<D>(Mode::EvenCrispier, filtered, part)
            &&& #[trigger] call_ensures(D::times, (part, noise), upper)
        };
    let part_lower = choose|filtered: D::Sample, part: D::Sample|
        {
            &&& #[trigger] channels[channel].filters(
                sample,
                filtered,
                after_lower.rm_input_lpf@[channel],
            )
            &&& crate::flow::selects::<D>(Mode::EvenCrispierNegated, filtered, part)
            &&& #[trigger] call_ensures(D::times, (part, noise), lower)
        };
    assert(part_full.0 == filtered && part_full.1 == filtered);
    assert(part_upper.0 == filtered);
    assert(part_lower.0 == filtered);
    assert(is_zero(part_upper.1) ==> is_zero(upper));
    assert(is_zero(part_lower.1) ==> is_zero(lower));
    assert(is_zero(filtered) ==> is_zero(full));
    if is_zero(part_lower.1) && same_number(is_zero, part_upper.1, filtered) {
        assert(same_number(is_zero, upper, full));
        assert(same_number(is_zero, sum, upper));
    } else {
        assert(same_number(is_zero, lower, full));
        assert(same_number(is_zero, sum, lower));
    }
}

/// The noise is a factor of what is modulated, and it enters no state: with the opposite noise the
/// result is the opposite one, in every mode, and the same state is left. `opposite` tells which
/// samples are the negation of each other.
pub proof fn law_opposite_noise_gives_the_opposite<D: Dsp>(
    opposite: spec_fn(D::Sample, D::Sample) -> bool,
    a: Crisp<D>,
    b: Crisp<D>,
    sample: D::Sample,
    channel: int,
    noise_a: D::Sample,
    noise_b: D::Sample,
    mode: Mode,
    result_a: D::Sample,
    result_b: D::Sample,
    after_a: Crisp<D>,
    after_b: Crisp<D>,
)
    requires
        crate::laws::deterministic::<D>(),
        0 <= channel < 2,
        a.same_state(b),
        opposite(noise_a, noise_b),
        forall|x: D::Sample, r: D::Sample, s: D::Sample| #[trigger]
            call_ensures(D::times, (x, noise_a), r) && #[trigger] call_ensures(
                D::times,
                (x, noise_b),
                s,
            ) ==> opposite(r, s),
        a.ring_modulates(sample, channel, noise_a, mode, result_a, after_a),
        b.ring_modulates(sample, channel, noise_b, mode, result_b, after_b),
    ensures
        opposite(result_a, result_b),
        after_a.same_state(after_b),
{
    let (filtered_a, part_a) = choose|filtered: D::Sample, part: D::Sample|
        {
            &&& #[trigger] a.rm_input_lpf@[channel].filters(
                sample,
                filtered,
                after_a.rm_input_lpf@[channel],
            )
            &&& crate::flow::selects::<D>(mode, filtered, part)
            &&& #[trigger] call_ensures(D::times, (part, noise_a), result_a)
        };
    let (filtered_b, part_b) = choose|filtered: D::Sample, part: D::Sample|
        {
            &&& #[trigger] b.rm_input_lpf@[channel].filters(
                sample,
                filtered,
                after_b.rm_input_lpf@[channel],
            )
            &&& crate::flow::selects::<D>(mode, filtered, part)
            &&& #[trigger] call_ensures(D::times, (part, noise_b), result_b)
        };
    crate::laws::lemma_selects_once::<D>(mode, filtered_a, part_a, part_b);
}

/// Without noise there is nothing to hear of the modulated sound: the result is zero in every mode.
/// `finite` tells which samples give zero when they are multiplied with this noise.
pub proof fn law_no_noise_gives_silence<D: Dsp>(
    is_zero: spec_fn(D::Sample) -> bool,
    finite: spec_fn(D::Sample) -> bool,
    before: Crisp<D>,
    sample: D::Sample,
    channel: int,
    noise: D::Sample,
    mode: Mode,
    filtered: D::Sample,
    result: D::Sample,
    after: Crisp<D>,
)
    requires
        crate::laws::deterministic::<D>(),
        forall|x: D::Sample, r: D::Sample| #[trigger]
            call_ensures(D::times, (x, noise), r) && finite(x) ==> is_zero(r),
        finite(filtered),
        forall|zero: D::Sample, upper: D::Sample| #[trigger]
            call_ensures(D::max, (filtered, zero), upper) && call_ensures(
                D::constant,
                (0i8,),
                zero,
            ) ==> finite(upper),
        forall|zero: D::Sample, lower: D::Sample| #[trigger]
            call_ensures(D::min, (filtered, zero), lower) && call_ensures(
                D::constant,
                (0i8,),
                zero,
            ) ==> finite(lower),
        before.rm_input_lpf@[channel].filters(sample, filtered, after.rm_input_lpf@[channel]),
        before.ring_modulates(sample, channel, noise, mode, result, after),
    ensures
        is_zero(result),
{
}

/// At these positions of the controls the two parameters rest at the values of `tuning`: moving them
/// further gives these values again.
pub open spec fn rests_at<S, C: Controls<S>>(
    positions: spec_fn(C) -> bool,
    frequency: SmoothedParam,
    q: SmoothedParam,
    tuning: Tuning<S>,
) -> bool {
    &&& forall|c: C, v: S, d: C| #[trigger]
        crate::flow::moves(c, frequency, v, d) && positions(c) ==> v == tuning.frequency
            && positions(d)
    &&& forall|c: C, v: S, d: C| #[trigger]
        crate::flow::moves(c, q, v, d) && positions(c) ==> v == tuning.q && positions(d)
}

proof fn lemma_retuning_twice<D: Dsp>(
    before: Crisp<D>,
    between: Crisp<D>,
    after: Crisp<D>,
    retunings: Retunings<D::Sample>,
)
    requires
        crate::laws::deterministic::<D>(),
        before.retuned(retunings, between),
        between.retuned(retunings, after),
    ensures
        after.same_state(between),
{
    assert(after.rm_input_lpf@ =~= between.rm_input_lpf@);
    assert(after.noise_hpf@ =~= between.noise_hpf@);
    assert(after.noise_lpf@ =~= between.noise_lpf@);
}

/// While their parameters rest, a second update of the input filters changes nothing.
pub proof fn law_second_rm_input_lpf_update_changes_nothing<D: Dsp, C: Controls<D::Sample>>(
    positions: spec_fn(C) -> bool,
    rest: Tuning<D::Sample>,
    controls: C,
    controls_between: C,
    controls_after: C,
    first: Tuning<D::Sample>,
    second: Tuning<D::Sample>,
    before: Crisp<D>,
    between: Crisp<D>,
    after: Crisp<D>,
)
    requires
        crate::laws::deterministic::<D>(),
        rests_at::<D::Sample, C>(
            positions,
            SmoothedParam::RmInputLpfFreq,
            SmoothedParam::RmInputLpfQ,
            rest,
        ),
        positions(controls),
        first.given_by(
            controls,
            SmoothedParam::RmInputLpfFreq,
            SmoothedParam::RmInputLpfQ,
            controls_between,
        ),
        second.given_by(
            controls_between,
            SmoothedParam::RmInputLpfFreq,
            SmoothedParam::RmInputLpfQ,
            controls_after,
        ),
        before.retuned(Retunings::rm_input_lpf_only(first), between),
        between.retuned(Retunings::rm_input_lpf_only(second), after),
    ensures
        after.same_state(between),
        positions(controls_after),
{
    assert(first == rest && second == rest);
    lemma_retuning_twice(before, between, after, Retunings::rm_input_lpf_only(rest));
}

/// While their parameters rest, a second update of the high-pass filters of the noise changes nothing.
pub proof fn law_second_noise_hpf_update_changes_nothing<D: Dsp, C: Controls<D::Sample>>(
    positions: spec_fn(C) -> bool,
    rest: Tuning<D::Sample>,
    controls: C,
    controls_between: C,
    controls_after: C,
    first: Tuning<D::Sample>,
    second: Tuning<D::Sample>,
    before: Crisp<D>,
    between: Crisp<D>,
    after: Crisp<D>,
)
    requires
        crate::laws::deterministic::<D>(),
        rests_at::<D::Sample, C>(
            positions,
            SmoothedParam::NoiseHpfFreq,
            SmoothedParam::NoiseHpfQ,
            rest,
        ),
        positions(controls),
        first.given_by(
            controls,
            SmoothedParam::NoiseHpfFreq,
            SmoothedParam::NoiseHpfQ,
            controls_between,
        ),
        second.given_by(
            controls_between,
            SmoothedParam::NoiseHpfFreq,
            SmoothedParam::NoiseHpfQ,
            controls_after,
        ),
        before.retuned(Retunings::noise_hpf_only(first), between),
        between.retuned(Retunings::noise_hpf_only(second), after),
    ensures
        after.same_state(between),
        positions(controls_after),
{
    assert(first == rest && second == rest);
    lemma_retuning_twice(before, between, after, Retunings::noise_hpf_only(rest));
}

/// While their parameters rest, a second update of the low-pass filters of the noise changes nothing.
pub proof fn law_second_noise_lpf_update_changes_nothing<D: Dsp, C: Controls<D::Sample>>(
    positions: spec_fn(C) -> bool,
    rest: Tuning<D::Sample>,
    controls: C,
    controls_between: C,
    controls_after: C,
    first: Tuning<D::Sample>,
    second: Tuning<D::Sample>,
    before: Crisp<D>,
    between: Crisp<D>,
    after: Crisp<D>,
)
    requires
        crate::laws::deterministic::<D>(),
        rests_at::<D::Sample, C>(
            positions,
            SmoothedParam::NoiseLpfFreq,
            SmoothedParam::NoiseLpfQ,
            rest,
        ),
        positions(controls),
        first.given_by(
            controls,
            SmoothedParam::NoiseLpfFreq,
            SmoothedParam::NoiseLpfQ,
            controls_between,
        ),
        second.given_by(
            controls_between,
            SmoothedParam::NoiseLpfFreq,
            SmoothedParam::NoiseLpfQ,
            controls_after,
        ),
        before.retuned(Retunings::noise_lpf_only(first), between),
        between.retuned(Retunings::noise_lpf_only(second), after),
    ensures
        after.same_state(between),
        positions(controls_after),
{
    assert(first == rest && second == rest);
    lemma_retuning_twice(before, between, after, Retunings::noise_lpf_only(rest));
}

} // verus!
