//! What holds of the runs of the effect. Each law names what it takes for granted: that operations on
//! samples are deterministic, or that what the controls say depends on their position.

use crate::config::{SmoothedParam, StereoMode};
use crate::crisp::Crisp;
use crate::dsp::{Biquad, Controls, Dsp};
use crate::flow::{FrameControls, Retunings, Run};
use vstd::prelude::*;

verus! {

/// The operations on samples and filters give the same results whenever they are carried out on the
/// same operands.
pub open spec fn deterministic<D: Dsp>() -> bool {
    &&& forall|k: i8, r: D::Sample, s: D::Sample| #[trigger]
        call_ensures(D::constant, (k,), r) && #[trigger] call_ensures(D::constant, (k,), s) ==> r
            == s
    &&& forall|w: u32, r: D::Sample, s: D::Sample| #[trigger]
        call_ensures(D::uniform, (w,), r) && #[trigger] call_ensures(D::uniform, (w,), s) ==> r == s
    &&& forall|a: D::Sample, b: D::Sample, r: D::Sample, s: D::Sample| #[trigger]
        call_ensures(D::plus, (a, b), r) && #[trigger] call_ensures(D::plus, (a, b), s) ==> r == s
    &&& forall|a: D::Sample, b: D::Sample, r: D::Sample, s: D::Sample| #[trigger]
        call_ensures(D::minus, (a, b), r) && #[trigger] call_ensures(D::minus, (a, b), s) ==> r == s
    &&& forall|a: D::Sample, b: D::Sample, r: D::Sample, s: D::Sample| #[trigger]
        call_ensures(D::times, (a, b), r) && #[trigger] call_ensures(D::times, (a, b), s) ==> r == s
    &&& forall|a: D::Sample, b: D::Sample, r: D::Sample, s: D::Sample| #[trigger]
        call_ensures(D::max, (a, b), r) && #[trigger] call_ensures(D::max, (a, b), s) ==> r == s
    &&& forall|a: D::Sample, b: D::Sample, r: D::Sample, s: D::Sample| #[trigger]
        call_ensures(D::min, (a, b), r) && #[trigger] call_ensures(D::min, (a, b), s) ==> r == s
    &&& forall|
        f: D::Sample,
        t: D::Sample,
        q: D::Sample,
        r: D::Coefficients,
        s: D::Coefficients,
    | #[trigger]
        call_ensures(D::lowpass, (f, t, q), r) && #[trigger] call_ensures(D::lowpass, (f, t, q), s)
            ==> r == s
    &&& forall|
        f: D::Sample,
        t: D::Sample,
        q: D::Sample,
        r: D::Coefficients,
        s: D::Coefficients,
    | #[trigger]
        call_ensures(D::highpass, (f, t, q), r) && #[trigger] call_ensures(
            D::highpass,
            (f, t, q),
            s,
        ) ==> r == s
    &&& forall|r: D::Memory, s: D::Memory| #[trigger]
        call_ensures(D::cleared_memory, (), r) && #[trigger] call_ensures(
            D::cleared_memory,
            (),
            s,
        ) ==> r == s
    &&& forall|
        c: D::Coefficients,
        m: D::Memory,
        a: D::Sample,
        r: (D::Memory, D::Sample),
        s: (D::Memory, D::Sample),
    | #[trigger]
        call_ensures(D::filter_step, (c, m, a), r) && #[trigger] call_ensures(
            D::filter_step,
            (c, m, a),
            s,
        ) ==> r == s
}

/// Two filter banks have the same coefficients, channel by channel.
pub open spec fn same_coefficients<D: Dsp>(a: Seq<Biquad<D>>, b: Seq<Biquad<D>>) -> bool {
    &&& a.len() == b.len()
    &&& forall|c: int| 0 <= c < a.len() ==> (#[trigger] a[c]).coefficients == b[c].coefficients
}

impl<D: Dsp> Crisp<D> {
    /// The two effects are in the same state.
    pub open spec fn same_state(self, other: Self) -> bool {
        &&& self.sample_rate == other.sample_rate
        &&& self.prng == other.prng
        &&& self.rm_input_lpf@ == other.rm_input_lpf@
        &&& self.noise_hpf@ == other.noise_hpf@
        &&& self.noise_lpf@ == other.noise_lpf@
    }

    /// The two effects have the same sample rate and the same filters, whatever went through them.
    pub open spec fn same_settings(self, other: Self) -> bool {
        &&& self.sample_rate == other.sample_rate
        &&& same_coefficients(self.rm_input_lpf@, other.rm_input_lpf@)
        &&& same_coefficients(self.noise_hpf@, other.noise_hpf@)
        &&& same_coefficients(self.noise_lpf@, other.noise_lpf@)
    }

    /// The filters of both channels have the same coefficients.
    pub open spec fn coherent(self) -> bool {
        &&& self.rm_input_lpf@[0].coefficients == self.rm_input_lpf@[1].coefficients
        &&& self.noise_hpf@[0].coefficients == self.noise_hpf@[1].coefficients
        &&& self.noise_lpf@[0].coefficients == self.noise_lpf@[1].coefficients
    }
}

pub(crate) proof fn lemma_whitens_once<D: Dsp>(word: u32, r: D::Sample, s: D::Sample)
    requires
        deterministic::<D>(),
        crate::flow::whitens::<D>(word, r),
        crate::flow::whitens::<D>(word, s),
    ensures
        r == s,
{
}

pub(crate) proof fn lemma_selects_once<D: Dsp>(
    mode: crate::config::Mode,
    sample: D::Sample,
    r: D::Sample,
    s: D::Sample,
)
    requires
        deterministic::<D>(),
        crate::flow::selects::<D>(mode, sample, r),
        crate::flow::selects::<D>(mode, sample, s),
    ensures
        r == s,
{
}

proof fn lemma_draws_noise_once<D: Dsp>(
    a: Crisp<D>,
    b: Crisp<D>,
    channel: int,
    r: D::Sample,
    s: D::Sample,
    after_a: Crisp<D>,
    after_b: Crisp<D>,
)
    requires
        deterministic::<D>(),
        0 <= channel < 2,
        a.same_state(b),
        a.draws_noise(channel, r, after_a),
        b.draws_noise(channel, s, after_b),
    ensures
        r == s,
        after_a.same_state(after_b),
{
    let (white_a, high_a) = choose|white: D::Sample, high: D::Sample|
        {
            &&& crate::flow::whitens::<D>(a.prng.word(), white)
            &&& #[trigger] a.noise_hpf@[channel].filters(white, high, after_a.noise_hpf@[channel])
            &&& a.noise_lpf@[channel].filters(high, r, after_a.noise_lpf@[channel])
        };
    let (white_b, high_b) = choose|white: D::Sample, high: D::Sample|
        {
            &&& crate::flow::whitens::<D>(b.prng.word(), white)
            &&& #[trigger] b.noise_hpf@[channel].filters(white, high, after_b.noise_hpf@[channel])
            &&& b.noise_lpf@[channel].filters(high, s, after_b.noise_lpf@[channel])
        };
    lemma_whitens_once::<D>(a.prng.word(), white_a, white_b);
}

proof fn lemma_modulates_sample_once<D: Dsp>(
    a: Crisp<D>,
    b: Crisp<D>,
    sample: D::Sample,
    channel: int,
    noise: D::Sample,
    mode: crate::config::Mode,
    amount: D::Sample,
    r: D::Sample,
    s: D::Sample,
    after_a: Crisp<D>,
    after_b: Crisp<D>,
)
    requires
        deterministic::<D>(),
        0 <= channel < 2,
        a.same_state(b),
        a.modulates_sample(sample, channel, noise, mode, amount, r, after_a),
        b.modulates_sample(sample, channel, noise, mode, amount, s, after_b),
    ensures
        r == s,
        after_a.same_state(after_b),
{
    let result_a = choose|result: D::Sample| #[trigger]
        a.ring_modulates(sample, channel, noise, mode, result, after_a) && call_ensures(
            D::times,
            (result, amount),
            r,
        );
    let result_b = choose|result: D::Sample| #[trigger]
        b.ring_modulates(sample, channel, noise, mode, result, after_b) && call_ensures(
            D::times,
            (result, amount),
            s,
        );
    let (filtered_a, part_a) = choose|filtered: D::Sample, part: D::Sample|
        {
            &&& #[trigger] a.rm_input_lpf@[channel].filters(
                sample,
                filtered,
                after_a.rm_input_lpf@[channel],
            )
            &&& crate::flow::selects::<D>(mode, filtered, part)
            &&& #[trigger] call_ensures(D::times, (part, noise), result_a)
        };
    let (filtered_b, part_b) = choose|filtered: D::Sample, part: D::Sample|
        {
            &&& #[trigger] b.rm_input_lpf@[channel].filters(
                sample,
                filtered,
                after_b.rm_input_lpf@[channel],
            )
            &&& crate::flow::selects::<D>(mode, filtered, part)
            &&& #[trigger] call_ensures(D::times, (part, noise), result_b)
        };
    lemma_selects_once::<D>(mode, filtered_a, part_a, part_b);
}

proof fn lemma_modulates_mono_once<D: Dsp>(
    a: Crisp<D>,
    b: Crisp<D>,
    input: Seq<D::Sample>,
    modes: Seq<crate::config::Mode>,
    amount: D::Sample,
    noise_a: D::Sample,
    noise_b: D::Sample,
    wet_a: Seq<D::Sample>,
    wet_b: Seq<D::Sample>,
    states_a: Seq<Crisp<D>>,
    states_b: Seq<Crisp<D>>,
    n: nat,
)
    requires
        deterministic::<D>(),
        n <= input.len() <= 2,
        a.same_state(b),
        a.modulates_mono(input, modes, amount, noise_a, wet_a, states_a),
        b.modulates_mono(input, modes, amount, noise_b, wet_b, states_b),
    ensures
        noise_a == noise_b,
        states_a[n as int].same_state(states_b[n as int]),
        forall|c: int| 0 <= c < n ==> wet_a[c] == wet_b[c],
    decreases n,
{
    lemma_draws_noise_once(a, b, 0, noise_a, noise_b, states_a[0], states_b[0]);
    if n > 0 {
        lemma_modulates_mono_once(
            a,
            b,
            input,
            modes,
            amount,
            noise_a,
            noise_b,
            wet_a,
            wet_b,
            states_a,
            states_b,
            (n - 1) as nat,
        );
        let c = n - 1;
        lemma_modulates_sample_once(
            states_a[c],
            states_b[c],
            input[c],
            c,
            noise_a,
            modes[c],
            amount,
            wet_a[c],
            wet_b[c],
            states_a[c + 1],
            states_b[c + 1],
        );
    }
}

proof fn lemma_modulates_stereo_once<D: Dsp>(
    a: Crisp<D>,
    b: Crisp<D>,
    input: Seq<D::Sample>,
    modes: Seq<crate::config::Mode>,
    amount: D::Sample,
    noises_a: Seq<D::Sample>,
    noises_b: Seq<D::Sample>,
    wet_a: Seq<D::Sample>,
    wet_b: Seq<D::Sample>,
    states_a: Seq<Crisp<D>>,
    states_b: Seq<Crisp<D>>,
    drawn_a: Seq<Crisp<D>>,
    drawn_b: Seq<Crisp<D>>,
    n: nat,
)
    requires
        deterministic::<D>(),
        n <= input.len() <= 2,
        a.same_state(b),
        a.modulates_stereo(input, modes, amount, noises_a, wet_a, states_a, drawn_a),
        b.modulates_stereo(input, modes, amount, noises_b, wet_b, states_b, drawn_b),
    ensures
        states_a[n as int].same_state(states_b[n as int]),
        forall|c: int| 0 <= c < n ==> wet_a[c] == wet_b[c],
    decreases n,
{
    if n > 0 {
        lemma_modulates_stereo_once(
            a,
            b,
            input,
            modes,
            amount,
            noises_a,
            noises_b,
            wet_a,
            wet_b,
            states_a,
            states_b,
            drawn_a,
            drawn_b,
            (n - 1) as nat,
        );
        let c = n - 1;
        assert(states_a[c].modulates_with_own_noise(
            input[c],
            c,
            noises_a[c],
            drawn_a[c],
            modes[c],
            amount,
            wet_a[c],
            states_a[c + 1],
        ));
        assert(states_b[c].modulates_with_own_noise(
            input[c],
            c,
            noises_b[c],
            drawn_b[c],
            modes[c],
            amount,
            wet_b[c],
            states_b[c + 1],
        ));
        lemma_draws_noise_once(
            states_a[c],
            states_b[c],
            c,
            noises_a[c],
            noises_b[c],
            drawn_a[c],
            drawn_b[c],
        );
        lemma_modulates_sample_once(
            drawn_a[c],
            drawn_b[c],
            input[c],
            c,
            noises_a[c],
            modes[c],
            amount,
            wet_a[c],
            wet_b[c],
            states_a[c + 1],
            states_b[c + 1],
        );
    }
}

pub(crate) proof fn lemma_bank_retuned_once<D: Dsp>(
    kind: crate::config::FilterKind,
    sample_rate: D::Sample,
    before: Seq<Biquad<D>>,
    tuning: Option<crate::flow::Tuning<D::Sample>>,
    r: Seq<Biquad<D>>,
    s: Seq<Biquad<D>>,
)
    requires
        deterministic::<D>(),
        crate::flow::bank_retuned(kind, sample_rate, before, tuning, r),
        crate::flow::bank_retuned(kind, sample_rate, before, tuning, s),
    ensures
        r == s,
{
}

proof fn lemma_modulates_frame_once<D: Dsp>(
    a: Crisp<D>,
    b: Crisp<D>,
    input: Seq<D::Sample>,
    heard: FrameControls<D::Sample>,
    wet_a: Seq<D::Sample>,
    wet_b: Seq<D::Sample>,
    after_a: Crisp<D>,
    after_b: Crisp<D>,
)
    requires
        deterministic::<D>(),
        a.same_state(b),
        a.modulates_frame(input, heard, wet_a, after_a),
        b.modulates_frame(input, heard, wet_b, after_b),
    ensures
        wet_a == wet_b,
        after_a.same_state(after_b),
{
    let (amount_a, tuned_a) = choose|amount: D::Sample, tuned: Crisp<D>|
        {
            &&& crate::flow::scales_amount::<D>(heard.amount, amount)
            &&& a.retuned(heard.retunings, tuned)
            &&& #[trigger] tuned.modulates_channels(input, heard, amount, wet_a, after_a)
        };
    let (amount_b, tuned_b) = choose|amount: D::Sample, tuned: Crisp<D>|
        {
            &&& crate::flow::scales_amount::<D>(heard.amount, amount)
            &&& b.retuned(heard.retunings, tuned)
            &&& #[trigger] tuned.modulates_channels(input, heard, amount, wet_b, after_b)
        };
    lemma_bank_retuned_once(
        crate::config::FilterKind::LowPass,
        a.sample_rate,
        a.rm_input_lpf@,
        heard.retunings.rm_input_lpf,
        tuned_a.rm_input_lpf@,
        tuned_b.rm_input_lpf@,
    );
    lemma_bank_retuned_once(
        crate::config::FilterKind::HighPass,
        a.sample_rate,
        a.noise_hpf@,
        heard.retunings.noise_hpf,
        tuned_a.noise_hpf@,
        tuned_b.noise_hpf@,
    );
    lemma_bank_retuned_once(
        crate::config::FilterKind::LowPass,
        a.sample_rate,
        a.noise_lpf@,
        heard.retunings.noise_lpf,
        tuned_a.noise_lpf@,
        tuned_b.noise_lpf@,
    );
    match heard.stereo_mode {
        StereoMode::Mono => {
            let (noise_a, states_a) = choose|noise: D::Sample, states: Seq<Crisp<D>>| #[trigger]
                tuned_a.modulates_mono(input, heard.modes, amount_a, noise, wet_a, states)
                    && states.last() == after_a;
            let (noise_b, states_b) = choose|noise: D::Sample, states: Seq<Crisp<D>>| #[trigger]
                tuned_b.modulates_mono(input, heard.modes, amount_b, noise, wet_b, states)
                    && states.last() == after_b;
            lemma_modulates_mono_once(
                tuned_a,
                tuned_b,
                input,
                heard.modes,
                amount_a,
                noise_a,
                noise_b,
                wet_a,
                wet_b,
                states_a,
                states_b,
                input.len(),
            );
        },
        StereoMode::Stereo => {
            let (noises_a, states_a, drawn_a) = choose|
                noises: Seq<D::Sample>,
                states: Seq<Crisp<D>>,
                drawn: Seq<Crisp<D>>,
            | #[trigger]
                tuned_a.modulates_stereo(
                    input,
                    heard.modes,
                    amount_a,
                    noises,
                    wet_a,
                    states,
                    drawn,
                ) && states.last() == after_a;
            let (noises_b, states_b, drawn_b) = choose|
                noises: Seq<D::Sample>,
                states: Seq<Crisp<D>>,
                drawn: Seq<Crisp<D>>,
            | #[trigger]
                tuned_b.modulates_stereo(
                    input,
                    heard.modes,
                    amount_b,
                    noises,
                    wet_b,
                    states,
                    drawn,
                ) && states.last() == after_b;
            lemma_modulates_stereo_once(
                tuned_a,
                tuned_b,
                input,
                heard.modes,
                amount_a,
                noises_a,
                noises_b,
                wet_a,
                wet_b,
                states_a,
                states_b,
                drawn_a,
                drawn_b,
                input.len(),
            );
        },
    }
}

pub(crate) proof fn lemma_run_once<D: Dsp>(
    run_a: Run<D>,
    run_b: Run<D>,
    a: Crisp<D>,
    b: Crisp<D>,
    input: Seq<Seq<D::Sample>>,
    output_a: Seq<Seq<D::Sample>>,
    output_b: Seq<Seq<D::Sample>>,
    after_a: Crisp<D>,
    after_b: Crisp<D>,
    n: nat,
)
    requires
        deterministic::<D>(),
        n <= input.len(),
        a.same_state(b),
        run_a.leads(a, input, output_a, after_a),
        run_b.leads(b, input, output_b, after_b),
        run_a.heard == run_b.heard,
    ensures
        run_a.states[n as int].same_state(run_b.states[n as int]),
        forall|i: int| 0 <= i < n ==> run_a.wet[i] == run_b.wet[i],
    decreases n,
{
    if n > 0 {
        lemma_run_once(
            run_a,
            run_b,
            a,
            b,
            input,
            output_a,
            output_b,
            after_a,
            after_b,
            (n - 1) as nat,
        );
        let i = n - 1;
        lemma_modulates_frame_once(
            run_a.states[i],
            run_b.states[i],
            input[i],
            run_a.heard[i],
            run_a.wet[i],
            run_b.wet[i],
            run_a.states[i + 1],
            run_b.states[i + 1],
        );
    }
}

/// Two runs that start from the same state, on the same input, with the controls saying the same,
/// give the same output and end in the same state.
pub proof fn law_runs_are_deterministic<D: Dsp>(
    run_a: Run<D>,
    run_b: Run<D>,
    a: Crisp<D>,
    b: Crisp<D>,
    input: Seq<Seq<D::Sample>>,
    output_a: Seq<Seq<D::Sample>>,
    output_b: Seq<Seq<D::Sample>>,
    after_a: Crisp<D>,
    after_b: Crisp<D>,
)
    requires
        deterministic::<D>(),
        a.same_state(b),
        run_a.leads(a, input, output_a, after_a),
        run_b.leads(b, input, output_b, after_b),
        run_a.heard == run_b.heard,
        run_a.gains == run_b.gains,
    ensures
        output_a == output_b,
        after_a.same_state(after_b),
{
    lemma_run_once(
        run_a,
        run_b,
        a,
        b,
        input,
        output_a,
        output_b,
        after_a,
        after_b,
        input.len(),
    );
    assert forall|i: int| 0 <= i < input.len() implies output_a[i] == output_b[i] by {
        assert(output_a[i] =~= output_b[i]);
    }
}

/// The controls say the same, and end up the same, whenever they are asked the same.
pub open spec fn steady<S, C: Controls<S>>() -> bool {
    &&& forall|c: C, p: SmoothedParam, v: S, w: S, d: C, e: C| #[trigger]
        crate::flow::moves(c, p, v, d) && #[trigger] crate::flow::moves(c, p, w, e) ==> v == w && d
            == e
    &&& forall|c: C, p: SmoothedParam|
        !(#[trigger] call_ensures(C::is_smoothing, (&c, p), true) && #[trigger] call_ensures(
            C::is_smoothing,
            (&c, p),
            false,
        ))
    &&& forall|c: C, r: crate::config::Mode, s: crate::config::Mode| #[trigger]
        call_ensures(C::mode, (&c,), r) && #[trigger] call_ensures(C::mode, (&c,), s) ==> r == s
    &&& forall|c: C, r: StereoMode, s: StereoMode| #[trigger]
        call_ensures(C::stereo_mode, (&c,), r) && #[trigger] call_ensures(C::stereo_mode, (&c,), s)
            ==> r == s
}

proof fn lemma_polled_once<S, C: Controls<S>>(
    before: C,
    frequency: SmoothedParam,
    q: SmoothedParam,
    r: Option<crate::flow::Tuning<S>>,
    s: Option<crate::flow::Tuning<S>>,
    after_r: C,
    after_s: C,
)
    requires
        steady::<S, C>(),
        crate::flow::polled(before, frequency, q, r, after_r),
        crate::flow::polled(before, frequency, q, s, after_s),
    ensures
        r == s,
        after_r == after_s,
{
}

proof fn lemma_frame_heard_once<S, C: Controls<S>>(
    before: C,
    r: FrameControls<S>,
    s: FrameControls<S>,
    after_r: C,
    after_s: C,
)
    requires
        steady::<S, C>(),
        r.heard_from(before, after_r),
        s.heard_from(before, after_s),
        r.modes.len() == s.modes.len(),
    ensures
        r == s,
        after_r == after_s,
{
    let amount = SmoothedParam::Amount;
    let between_r = choose|between: C| #[trigger]
        crate::flow::moves(before, amount, r.amount, between)
            && r.retunings.polled_from(between, after_r);
    let between_s = choose|between: C| #[trigger]
        crate::flow::moves(before, amount, s.amount, between)
            && s.retunings.polled_from(between, after_s);
    assert((r.amount, between_r) == (s.amount, between_s));
    lemma_polled_from_once(between_r, r.retunings, s.retunings, after_r, after_s);
    assert(r.modes =~= s.modes);
}

proof fn lemma_polled_from_once<S, C: Controls<S>>(
    before: C,
    r: Retunings<S>,
    s: Retunings<S>,
    after_r: C,
    after_s: C,
)
    requires
        steady::<S, C>(),
        r.polled_from(before, after_r),
        s.polled_from(before, after_s),
    ensures
        r == s,
        after_r == after_s,
{
    let (freq_1, q_1) = (SmoothedParam::RmInputLpfFreq, SmoothedParam::RmInputLpfQ);
    let (freq_2, q_2) = (SmoothedParam::NoiseHpfFreq, SmoothedParam::NoiseHpfQ);
    let (freq_3, q_3) = (SmoothedParam::NoiseLpfFreq, SmoothedParam::NoiseLpfQ);
    let (first_r, second_r) = choose|first: C, second: C|
        {
            &&& #[trigger] crate::flow::polled(before, freq_1, q_1, r.rm_input_lpf, first)
            &&& crate::flow::polled(first, freq_2, q_2, r.noise_hpf, second)
            &&& #[trigger] crate::flow::polled(second, freq_3, q_3, r.noise_lpf, after_r)
        };
    let (first_s, second_s) = choose|first: C, second: C|
        {
            &&& #[trigger] crate::flow::polled(before, freq_1, q_1, s.rm_input_lpf, first)
            &&& crate::flow::polled(first, freq_2, q_2, s.noise_hpf, second)
            &&& #[trigger] crate::flow::polled(second, freq_3, q_3, s.noise_lpf, after_s)
        };
    lemma_polled_once(before, freq_1, q_1, r.rm_input_lpf, s.rm_input_lpf, first_r, first_s);
    lemma_polled_once(first_r, freq_2, q_2, r.noise_hpf, s.noise_hpf, second_r, second_s);
    lemma_polled_once(second_r, freq_3, q_3, r.noise_lpf, s.noise_lpf, after_r, after_s);
}

proof fn lemma_frames_heard_once<S, C: Controls<S>>(
    r: Seq<FrameControls<S>>,
    s: Seq<FrameControls<S>>,
    states_r: Seq<C>,
    states_s: Seq<C>,
    n: nat,
)
    requires
        steady::<S, C>(),
        n <= r.len(),
        r.len() == s.len(),
        forall|i: int| 0 <= i < r.len() ==> (#[trigger] r[i]).modes.len() == s[i].modes.len(),
        crate::flow::frames_heard(r, states_r),
        crate::flow::frames_heard(s, states_s),
        states_r[0] == states_s[0],
    ensures
        forall|i: int| 0 <= i < n ==> r[i] == s[i],
        states_r[n as int] == states_s[n as int],
    decreases n,
{
    if n > 0 {
        let i = n - 1;
        lemma_frames_heard_once(r, s, states_r, states_s, i as nat);
        lemma_frame_heard_once(states_r[i], r[i], s[i], states_r[i + 1], states_s[i + 1]);
    }
}

proof fn lemma_gains_heard_once<S, C: Controls<S>>(
    r: Seq<S>,
    s: Seq<S>,
    states_r: Seq<C>,
    states_s: Seq<C>,
    n: nat,
)
    requires
        steady::<S, C>(),
        n <= r.len(),
        r.len() == s.len(),
        crate::flow::gains_heard(r, states_r),
        crate::flow::gains_heard(s, states_s),
        states_r[0] == states_s[0],
    ensures
        forall|i: int| 0 <= i < n ==> r[i] == s[i],
        states_r[n as int] == states_s[n as int],
    decreases n,
{
    if n > 0 {
        let i = n - 1;
        lemma_gains_heard_once(r, s, states_r, states_s, i as nat);
        assert((r[i], states_r[i + 1]) == (s[i], states_s[i + 1]));
    }
}

proof fn lemma_block_heard_once<S, C: Controls<S>>(
    r: Seq<FrameControls<S>>,
    s: Seq<FrameControls<S>>,
    gains_r: Seq<S>,
    gains_s: Seq<S>,
    before: C,
    after_r: C,
    after_s: C,
)
    requires
        steady::<S, C>(),
        r.len() == s.len(),
        forall|i: int| 0 <= i < r.len() ==> (#[trigger] r[i]).modes.len() == s[i].modes.len(),
        gains_r.len() == gains_s.len(),
        crate::flow::block_heard(r, gains_r, before, after_r),
        crate::flow::block_heard(s, gains_s, before, after_s),
    ensures
        r == s,
        gains_r == gains_s,
        after_r == after_s,
{
    let (modulating_r, mixing_r) = choose|modulating: Seq<C>, mixing: Seq<C>|
        {
            &&& #[trigger] crate::flow::frames_heard(r, modulating)
            &&& #[trigger] crate::flow::gains_heard(gains_r, mixing)
            &&& modulating.first() == before
            &&& mixing.first() == modulating.last()
            &&& mixing.last() == after_r
        };
    let (modulating_s, mixing_s) = choose|modulating: Seq<C>, mixing: Seq<C>|
        {
            &&& #[trigger] crate::flow::frames_heard(s, modulating)
            &&& #[trigger] crate::flow::gains_heard(gains_s, mixing)
            &&& modulating.first() == before
            &&& mixing.first() == modulating.last()
            &&& mixing.last() == after_s
        };
    lemma_frames_heard_once(r, s, modulating_r, modulating_s, r.len());
    lemma_gains_heard_once(gains_r, gains_s, mixing_r, mixing_s, gains_r.len());
    assert(r =~= s);
    assert(gains_r =~= gains_s);
}

proof fn lemma_blocks_heard_once<S, C: Controls<S>>(
    r: Seq<FrameControls<S>>,
    s: Seq<FrameControls<S>>,
    gains_r: Seq<S>,
    gains_s: Seq<S>,
    states_r: Seq<C>,
    states_s: Seq<C>,
    n: nat,
)
    requires
        steady::<S, C>(),
        r.len() == s.len(),
        forall|i: int| 0 <= i < r.len() ==> (#[trigger] r[i]).modes.len() == s[i].modes.len(),
        crate::flow::blocks_heard(r, gains_r, states_r),
        crate::flow::blocks_heard(s, gains_s, states_s),
        states_r[0] == states_s[0],
        n < states_r.len(),
    ensures
        forall|i: int| 0 <= i < r.len() && i < n * crate::config::BLOCK_SIZE ==> r[i] == s[i],
        forall|i: int|
            0 <= i < r.len() && i < n * crate::config::BLOCK_SIZE ==> gains_r[i] == gains_s[i],
        states_r[n as int] == states_s[n as int],
    decreases n,
{
    if n > 0 {
        let b = n - 1;
        lemma_blocks_heard_once(r, s, gains_r, gains_s, states_r, states_s, b as nat);
        let (from, to) = (b * crate::config::BLOCK_SIZE, crate::flow::block_end(r.len(), b));
        let (block_r, block_s) = (r.subrange(from, to), s.subrange(from, to));
        let (block_gains_r, block_gains_s) = (gains_r.subrange(from, to), gains_s.subrange(from, to));
        assert(crate::flow::block_of_frames_heard(r, gains_r, states_r, b));
        assert(crate::flow::block_of_frames_heard(s, gains_s, states_s, b));
        lemma_block_heard_once(
            block_r,
            block_s,
            block_gains_r,
            block_gains_s,
            states_r[b],
            states_r[b + 1],
            states_s[b + 1],
        );
        assert forall|i: int|
            0 <= i < r.len() && i < n * crate::config::BLOCK_SIZE implies r[i] == s[i] && gains_r[i]
            == gains_s[i] by {
            if i >= from {
                assert(block_r[i - from] == block_s[i - from]);
                assert(block_gains_r[i - from] == block_gains_s[i - from]);
            }
        }
    }
}

/// Steady controls that start from the same position say the same in two runs of the same shape, and
/// end up in the same position. What went in and came out has no part in it.
pub proof fn law_steady_controls_say_the_same<D: Dsp, C: Controls<D::Sample>>(
    controls: C,
    run_a: Run<D>,
    run_b: Run<D>,
    controls_a: C,
    controls_b: C,
)
    requires
        steady::<D::Sample, C>(),
        run_a.heard_from(controls, controls_a),
        run_b.heard_from(controls, controls_b),
        run_a.heard.len() == run_b.heard.len(),
        forall|i: int|
            0 <= i < run_a.heard.len() ==> (#[trigger] run_a.heard[i]).modes.len()
                == run_b.heard[i].modes.len(),
    ensures
        run_a.heard == run_b.heard,
        run_a.gains == run_b.gains,
        controls_a == controls_b,
{
    let states_a = choose|states: Seq<C>| #[trigger]
        crate::flow::blocks_heard(run_a.heard, run_a.gains, states) && states.first() == controls
            && states.last() == controls_a;
    let states_b = choose|states: Seq<C>| #[trigger]
        crate::flow::blocks_heard(run_b.heard, run_b.gains, states) && states.first() == controls
            && states.last() == controls_b;
    lemma_blocks_heard_once(
        run_a.heard,
        run_b.heard,
        run_a.gains,
        run_b.gains,
        states_a,
        states_b,
        (states_a.len() - 1) as nat,
    );
    assert(run_a.heard =~= run_b.heard);
    assert(run_a.gains =~= run_b.gains);
}

/// Runs on inputs of the same shape have heard about the same number of channels in each frame.
pub(crate) proof fn lemma_runs_have_modes<D: Dsp>(
    run_a: Run<D>,
    run_b: Run<D>,
    a: Crisp<D>,
    b: Crisp<D>,
    input_a: Seq<Seq<D::Sample>>,
    input_b: Seq<Seq<D::Sample>>,
    output_a: Seq<Seq<D::Sample>>,
    output_b: Seq<Seq<D::Sample>>,
    after_a: Crisp<D>,
    after_b: Crisp<D>,
)
    requires
        input_a.len() == input_b.len(),
        forall|i: int|
            0 <= i < input_a.len() ==> (#[trigger] input_a[i]).len() == input_b[i].len(),
        run_a.leads(a, input_a, output_a, after_a),
        run_b.leads(b, input_b, output_b, after_b),
    ensures
        run_a.heard.len() == run_b.heard.len(),
        forall|i: int|
            0 <= i < run_a.heard.len() ==> (#[trigger] run_a.heard[i]).modes.len()
                == run_b.heard[i].modes.len(),
{
    assert forall|i: int| 0 <= i < run_a.heard.len() implies (#[trigger] run_a.heard[i]).modes.len()
        == run_b.heard[i].modes.len() by {
        assert(input_a[i].len() == input_b[i].len());
        assert(run_a.states[i].modulates_frame(
            input_a[i],
            run_a.heard[i],
            run_a.wet[i],
            run_a.states[i + 1],
        ));
        assert(run_b.states[i].modulates_frame(
            input_b[i],
            run_b.heard[i],
            run_b.wet[i],
            run_b.states[i + 1],
        ));
    }
}

/// Playback is deterministic: an effect in the same state, on the same input, with steady controls in
/// the same position, gives the same output, and both end up the same.
pub proof fn law_playback_is_deterministic<D: Dsp, C: Controls<D::Sample>>(
    controls: C,
    run_a: Run<D>,
    run_b: Run<D>,
    a: Crisp<D>,
    b: Crisp<D>,
    input: Seq<Seq<D::Sample>>,
    output_a: Seq<Seq<D::Sample>>,
    output_b: Seq<Seq<D::Sample>>,
    after_a: Crisp<D>,
    after_b: Crisp<D>,
    controls_a: C,
    controls_b: C,
)
    requires
        deterministic::<D>(),
        steady::<D::Sample, C>(),
        a.same_state(b),
        run_a.heard_from(controls, controls_a),
        run_b.heard_from(controls, controls_b),
        run_a.leads(a, input, output_a, after_a),
        run_b.leads(b, input, output_b, after_b),
    ensures
        output_a == output_b,
        after_a.same_state(after_b),
        controls_a == controls_b,
{
    lemma_runs_have_modes(
        run_a,
        run_b,
        a,
        b,
        input,
        input,
        output_a,
        output_b,
        after_a,
        after_b,
    );
    law_steady_controls_say_the_same(controls, run_a, run_b, controls_a, controls_b);
    law_runs_are_deterministic(run_a, run_b, a, b, input, output_a, output_b, after_a, after_b);
}

/// Starting over forgets everything but the sample rate and the filter coefficients: effects that
/// agree in these are in the same state afterwards.
pub proof fn law_reset_forgets<D: Dsp>(
    a: Crisp<D>,
    b: Crisp<D>,
    after_a: Crisp<D>,
    after_b: Crisp<D>,
)
    requires
        deterministic::<D>(),
        a.same_settings(b),
        a.cleared(after_a),
        b.cleared(after_b),
    ensures
        after_a.same_state(after_b),
{
    assert(after_a.rm_input_lpf@ =~= after_b.rm_input_lpf@);
    assert(after_a.noise_hpf@ =~= after_b.noise_hpf@);
    assert(after_a.noise_lpf@ =~= after_b.noise_lpf@);
}

/// Starting over twice is starting over once.
pub proof fn law_second_reset_changes_nothing<D: Dsp>(
    before: Crisp<D>,
    between: Crisp<D>,
    after: Crisp<D>,
)
    requires
        deterministic::<D>(),
        before.cleared(between),
        between.cleared(after),
    ensures
        after.same_state(between),
{
    law_reset_forgets(before, between, between, after);
}

/// There is nothing to forget for an effect that was just made.
pub proof fn law_reset_of_a_fresh_effect_changes_nothing<D: Dsp>(
    before: Crisp<D>,
    after: Crisp<D>,
)
    requires
        deterministic::<D>(),
        before.fresh(),
        before.cleared(after),
    ensures
        after.same_state(before),
{
    assert(after.rm_input_lpf@ =~= before.rm_input_lpf@);
    assert(after.noise_hpf@ =~= before.noise_hpf@);
    assert(after.noise_lpf@ =~= before.noise_lpf@);
}

/// Bouncing is deterministic: whatever two effects with the same sample rate and filter coefficients
/// have processed, once they start over, the same input gives the same output as long as the
/// controls say the same.
pub proof fn law_bouncing_is_deterministic<D: Dsp>(
    a: Crisp<D>,
    b: Crisp<D>,
    start_a: Crisp<D>,
    start_b: Crisp<D>,
    run_a: Run<D>,
    run_b: Run<D>,
    input: Seq<Seq<D::Sample>>,
    output_a: Seq<Seq<D::Sample>>,
    output_b: Seq<Seq<D::Sample>>,
    after_a: Crisp<D>,
    after_b: Crisp<D>,
)
    requires
        deterministic::<D>(),
        a.same_settings(b),
        a.cleared(start_a),
        b.cleared(start_b),
        run_a.heard == run_b.heard,
        run_a.gains == run_b.gains,
        run_a.leads(start_a, input, output_a, after_a),
        run_b.leads(start_b, input, output_b, after_b),
    ensures
        output_a == output_b,
        after_a.same_state(after_b),
{
    law_reset_forgets(a, b, start_a, start_b);
    law_runs_are_deterministic(
        run_a,
        run_b,
        start_a,
        start_b,
        input,
        output_a,
        output_b,
        after_a,
        after_b,
    );
}

/// Bouncing again gives the same: whatever two effects with the same sample rate and filter
/// coefficients have processed, once they start over with steady controls in the same position, the
/// same input gives the same output.
pub proof fn law_bouncing_again_gives_the_same<D: Dsp, C: Controls<D::Sample>>(
    controls: C,
    a: Crisp<D>,
    b: Crisp<D>,
    start_a: Crisp<D>,
    start_b: Crisp<D>,
    run_a: Run<D>,
    run_b: Run<D>,
    input: Seq<Seq<D::Sample>>,
    output_a: Seq<Seq<D::Sample>>,
    output_b: Seq<Seq<D::Sample>>,
    after_a: Crisp<D>,
    after_b: Crisp<D>,
    controls_a: C,
    controls_b: C,
)
    requires
        deterministic::<D>(),
        steady::<D::Sample, C>(),
        a.same_settings(b),
        a.cleared(start_a),
        b.cleared(start_b),
        run_a.heard_from(controls, controls_a),
        run_b.heard_from(controls, controls_b),
        run_a.leads(start_a, input, output_a, after_a),
        run_b.leads(start_b, input, output_b, after_b),
    ensures
        output_a == output_b,
        after_a.same_state(after_b),
        controls_a == controls_b,
{
    law_reset_forgets(a, b, start_a, start_b);
    law_playback_is_deterministic(
        controls,
        run_a,
        run_b,
        start_a,
        start_b,
        input,
        output_a,
        output_b,
        after_a,
        after_b,
        controls_a,
        controls_b,
    );
}

/// How many words of noise a frame takes: one for all channels, or one for each of them.
pub open spec fn draws(stereo_mode: StereoMode, channels: nat) -> nat {
    match stereo_mode {
        StereoMode::Mono => 1,
        StereoMode::Stereo => channels,
    }
}

/// How many words of noise the first `n` frames of a run take.
pub open spec fn draws_until<S>(
    heard: Seq<FrameControls<S>>,
    input: Seq<Seq<S>>,
    n: nat,
) -> nat
    decreases n,
{
    if n == 0 {
        0
    } else {
        draws_until(heard, input, (n - 1) as nat) + draws(
            heard[n - 1].stereo_mode,
            input[n - 1].len(),
        )
    }
}

/// Advancing a generator in two goes is advancing it in one.
pub proof fn law_advances_add_up(prng: crate::pcg::Pcg32iState, m: nat, n: nat)
    ensures
        prng.advanced(m).advanced(n) == prng.advanced(m + n),
    decreases n,
{
    if n > 0 {
        law_advances_add_up(prng, m, (n - 1) as nat);
    }
}

/// Modulating the channels of a frame takes as many words of noise as the handling of stereo input
/// says, and leaves the sample rate and the filter coefficients alone.
pub(crate) proof fn lemma_modulates_channels_keeps_settings<D: Dsp>(
    before: Crisp<D>,
    input: Seq<D::Sample>,
    heard: FrameControls<D::Sample>,
    amount: D::Sample,
    wet: Seq<D::Sample>,
    after: Crisp<D>,
)
    requires
        input.len() <= 2,
        before.modulates_channels(input, heard, amount, wet, after),
    ensures
        before.same_settings(after),
        after.prng == before.prng.advanced(draws(heard.stereo_mode, input.len())),
{
    reveal_with_fuel(crate::pcg::Pcg32iState::advanced, 3);
    match heard.stereo_mode {
        StereoMode::Mono => {
            let (noise, states) = choose|noise: D::Sample, states: Seq<Crisp<D>>| #[trigger]
                before.modulates_mono(input, heard.modes, amount, noise, wet, states)
                    && states.last() == after;
            if input.len() > 0 {
                assert(states[0].modulates_sample(
                    input[0],
                    0,
                    noise,
                    heard.modes[0],
                    amount,
                    wet[0],
                    states[1],
                ));
            }
            if input.len() > 1 {
                assert(states[1].modulates_sample(
                    input[1],
                    1,
                    noise,
                    heard.modes[1],
                    amount,
                    wet[1],
                    states[2],
                ));
            }
        },
        StereoMode::Stereo => {
            let (noises, states, drawn) = choose|
                noises: Seq<D::Sample>,
                states: Seq<Crisp<D>>,
                drawn: Seq<Crisp<D>>,
            | #[trigger]
                before.modulates_stereo(input, heard.modes, amount, noises, wet, states, drawn)
                    && states.last() == after;
            if input.len() > 0 {
                assert(states[0].modulates_with_own_noise(
                    input[0],
                    0,
                    noises[0],
                    drawn[0],
                    heard.modes[0],
                    amount,
                    wet[0],
                    states[1],
                ));
            }
            if input.len() > 1 {
                assert(states[1].modulates_with_own_noise(
                    input[1],
                    1,
                    noises[1],
                    drawn[1],
                    heard.modes[1],
                    amount,
                    wet[1],
                    states[2],
                ));
            }
        },
    }
}

/// Retuning filters gives those of both channels the same coefficients.
pub proof fn law_retuning_keeps_coherence<D: Dsp>(
    before: Crisp<D>,
    retunings: Retunings<D::Sample>,
    after: Crisp<D>,
)
    requires
        before.coherent(),
        before.retuned(retunings, after),
    ensures
        after.coherent(),
{
}

/// The effect is made with the same filter coefficients on both channels.
pub proof fn law_fresh_is_coherent<D: Dsp>(crisp: Crisp<D>)
    requires
        crisp.fresh(),
    ensures
        crisp.coherent(),
{
}

/// Starting over keeps the filters of both channels alike.
pub proof fn law_reset_keeps_coherence<D: Dsp>(before: Crisp<D>, after: Crisp<D>)
    requires
        before.coherent(),
        before.cleared(after),
    ensures
        after.coherent(),
{
}

proof fn lemma_frame_keeps_coherence<D: Dsp>(
    before: Crisp<D>,
    input: Seq<D::Sample>,
    heard: FrameControls<D::Sample>,
    wet: Seq<D::Sample>,
    after: Crisp<D>,
)
    requires
        before.modulates_frame(input, heard, wet, after),
    ensures
        before.coherent() ==> after.coherent(),
        after.sample_rate == before.sample_rate,
        after.prng == before.prng.advanced(draws(heard.stereo_mode, input.len())),
        heard.retunings == Retunings::<D::Sample>::none() ==> before.same_settings(after),
{
    let (amount, tuned) = choose|amount: D::Sample, tuned: Crisp<D>|
        {
            &&& crate::flow::scales_amount::<D>(heard.amount, amount)
            &&& before.retuned(heard.retunings, tuned)
            &&& #[trigger] tuned.modulates_channels(input, heard, amount, wet, after)
        };
    lemma_modulates_channels_keeps_settings(tuned, input, heard, amount, wet, after);
    if before.coherent() {
        law_retuning_keeps_coherence(before, heard.retunings, tuned);
    }
}

proof fn lemma_run_keeps_coherence<D: Dsp>(
    run: Run<D>,
    before: Crisp<D>,
    input: Seq<Seq<D::Sample>>,
    output: Seq<Seq<D::Sample>>,
    after: Crisp<D>,
    n: nat,
)
    requires
        n <= input.len(),
        run.leads(before, input, output, after),
    ensures
        before.coherent() ==> run.states[n as int].coherent(),
        run.states[n as int].sample_rate == before.sample_rate,
        run.states[n as int].prng == before.prng.advanced(draws_until(run.heard, input, n)),
    decreases n,
{
    if n > 0 {
        let i = n - 1;
        lemma_run_keeps_coherence(run, before, input, output, after, i as nat);
        lemma_frame_keeps_coherence(
            run.states[i],
            input[i],
            run.heard[i],
            run.wet[i],
            run.states[i + 1],
        );
        law_advances_add_up(
            before.prng,
            draws_until(run.heard, input, i as nat),
            draws(run.heard[i].stereo_mode, input[i].len()),
        );
    }
}

/// Processing keeps the sample rate, and it keeps the filters of both channels alike.
pub proof fn law_runs_keep_coherence<D: Dsp>(
    run: Run<D>,
    before: Crisp<D>,
    input: Seq<Seq<D::Sample>>,
    output: Seq<Seq<D::Sample>>,
    after: Crisp<D>,
)
    requires
        before.coherent(),
        run.leads(before, input, output, after),
    ensures
        after.coherent(),
        after.sample_rate == before.sample_rate,
{
    lemma_run_keeps_coherence(run, before, input, output, after, input.len());
}

/// The noise goes on where it stopped: a run takes one word for each frame whose channels share
/// their noise, and one for each channel of the others, in the order in which the generator puts
/// them out.
pub proof fn law_noise_is_taken_in_order<D: Dsp>(
    run: Run<D>,
    before: Crisp<D>,
    input: Seq<Seq<D::Sample>>,
    output: Seq<Seq<D::Sample>>,
    after: Crisp<D>,
)
    requires
        run.leads(before, input, output, after),
    ensures
        after.prng == before.prng.advanced(draws_until(run.heard, input, input.len())),
{
    lemma_run_keeps_coherence(run, before, input, output, after, input.len());
}

/// In these positions of the controls no parameter is on the move, and moving a parameter further
/// leads to another of them.
pub open spec fn resting<S, C: Controls<S>>(positions: spec_fn(C) -> bool) -> bool {
    &&& forall|c: C, p: SmoothedParam| #[trigger]
        call_ensures(C::is_smoothing, (&c, p), true) ==> !positions(c)
    &&& forall|c: C, p: SmoothedParam, v: S, d: C| #[trigger]
        crate::flow::moves(c, p, v, d) && positions(c) ==> positions(d)
}

proof fn lemma_resting_frame<S, C: Controls<S>>(
    positions: spec_fn(C) -> bool,
    heard: FrameControls<S>,
    before: C,
    after: C,
)
    requires
        resting::<S, C>(positions),
        positions(before),
        heard.heard_from(before, after),
    ensures
        heard.retunings == Retunings::<S>::none(),
        positions(after),
{
}

proof fn lemma_resting_frames<S, C: Controls<S>>(
    positions: spec_fn(C) -> bool,
    heard: Seq<FrameControls<S>>,
    states: Seq<C>,
    n: nat,
)
    requires
        resting::<S, C>(positions),
        crate::flow::frames_heard(heard, states),
        positions(states[0]),
        n <= heard.len(),
    ensures
        forall|i: int| 0 <= i < n ==> (#[trigger] heard[i]).retunings == Retunings::<S>::none(),
        positions(states[n as int]),
    decreases n,
{
    if n > 0 {
        let i = n - 1;
        lemma_resting_frames(positions, heard, states, i as nat);
        lemma_resting_frame(positions, heard[i], states[i], states[i + 1]);
    }
}

proof fn lemma_resting_gains<S, C: Controls<S>>(
    positions: spec_fn(C) -> bool,
    gains: Seq<S>,
    states: Seq<C>,
    n: nat,
)
    requires
        resting::<S, C>(positions),
        crate::flow::gains_heard(gains, states),
        positions(states[0]),
        n <= gains.len(),
    ensures
        positions(states[n as int]),
    decreases n,
{
    if n > 0 {
        let i = n - 1;
        lemma_resting_gains(positions, gains, states, i as nat);
        assert(crate::flow::moves(states[i], SmoothedParam::OutputGain, gains[i], states[i + 1]));
    }
}

proof fn lemma_resting_blocks<S, C: Controls<S>>(
    positions: spec_fn(C) -> bool,
    heard: Seq<FrameControls<S>>,
    gains: Seq<S>,
    states: Seq<C>,
    n: nat,
)
    requires
        resting::<S, C>(positions),
        crate::flow::blocks_heard(heard, gains, states),
        positions(states[0]),
        n < states.len(),
    ensures
        forall|i: int|
            0 <= i < heard.len() && i < n * crate::config::BLOCK_SIZE ==> (
            #[trigger] heard[i]).retunings == Retunings::<S>::none(),
        positions(states[n as int]),
    decreases n,
{
    if n > 0 {
        let b = n - 1;
        lemma_resting_blocks(positions, heard, gains, states, b as nat);
        let (from, to) = (b * crate::config::BLOCK_SIZE, crate::flow::block_end(heard.len(), b));
        let (block, block_gains) = (heard.subrange(from, to), gains.subrange(from, to));
        assert(crate::flow::block_of_frames_heard(heard, gains, states, b));
        let (modulating, mixing) = choose|modulating: Seq<C>, mixing: Seq<C>|
            {
                &&& #[trigger] crate::flow::frames_heard(block, modulating)
                &&& #[trigger] crate::flow::gains_heard(block_gains, mixing)
                &&& modulating.first() == states[b]
                &&& mixing.first() == modulating.last()
                &&& mixing.last() == states[b + 1]
            };
        lemma_resting_frames(positions, block, modulating, block.len());
        lemma_resting_gains(positions, block_gains, mixing, block_gains.len());
        assert forall|i: int|
            0 <= i < heard.len() && i < n * crate::config::BLOCK_SIZE implies (
        #[trigger] heard[i]).retunings == Retunings::<S>::none() by {
            if i >= from {
                assert(block[i - from] == heard[i]);
            }
        }
    }
}

proof fn lemma_idle_run_keeps_settings<D: Dsp>(
    run: Run<D>,
    before: Crisp<D>,
    input: Seq<Seq<D::Sample>>,
    output: Seq<Seq<D::Sample>>,
    after: Crisp<D>,
    n: nat,
)
    requires
        n <= input.len(),
        run.leads(before, input, output, after),
        forall|i: int|
            0 <= i < input.len() ==> (#[trigger] run.heard[i]).retunings == Retunings::<
                D::Sample,
            >::none(),
    ensures
        before.same_settings(run.states[n as int]),
    decreases n,
{
    if n > 0 {
        let i = n - 1;
        lemma_idle_run_keeps_settings(run, before, input, output, after, i as nat);
        lemma_frame_keeps_coherence(
            run.states[i],
            input[i],
            run.heard[i],
            run.wet[i],
            run.states[i + 1],
        );
    }
}

/// As long as no parameter is on the move, processing leaves all filter coefficients as they are.
pub proof fn law_idle_controls_keep_filters<D: Dsp, C: Controls<D::Sample>>(
    positions: spec_fn(C) -> bool,
    controls_before: C,
    controls_after: C,
    run: Run<D>,
    before: Crisp<D>,
    input: Seq<Seq<D::Sample>>,
    output: Seq<Seq<D::Sample>>,
    after: Crisp<D>,
)
    requires
        resting::<D::Sample, C>(positions),
        positions(controls_before),
        run.heard_from(controls_before, controls_after),
        run.leads(before, input, output, after),
    ensures
        before.same_settings(after),
        positions(controls_after),
{
    let states = choose|states: Seq<C>| #[trigger]
        crate::flow::blocks_heard(run.heard, run.gains, states) && states.first()
            == controls_before && states.last() == controls_after;
    lemma_resting_blocks(positions, run.heard, run.gains, states, (states.len() - 1) as nat);
    lemma_idle_run_keeps_settings(run, before, input, output, after, input.len());
}

impl<D: Dsp> Run<D> {
    /// This run, and then another one.
    pub open spec fn followed_by(self, next: Self) -> Self {
        Run {
            heard: self.heard + next.heard,
            wet: self.wet + next.wet,
            gains: self.gains + next.gains,
            states: self.states.drop_last() + next.states,
        }
    }
}

/// It does not matter how a sound is cut into buffers: as long as the controls say the same,
/// processing one piece and then the next is processing both in one go.
pub proof fn law_runs_concatenate<D: Dsp>(
    first: Run<D>,
    second: Run<D>,
    before: Crisp<D>,
    between: Crisp<D>,
    after: Crisp<D>,
    first_input: Seq<Seq<D::Sample>>,
    first_output: Seq<Seq<D::Sample>>,
    second_input: Seq<Seq<D::Sample>>,
    second_output: Seq<Seq<D::Sample>>,
)
    requires
        first.leads(before, first_input, first_output, between),
        second.leads(between, second_input, second_output, after),
    ensures
        first.followed_by(second).leads(
            before,
            first_input + second_input,
            first_output + second_output,
            after,
        ),
{
}

/// Cutting a sound at the end of a block does not change what the controls are asked, either.
pub proof fn law_full_blocks_concatenate<D: Dsp, C: Controls<D::Sample>>(
    first: Run<D>,
    second: Run<D>,
    before: C,
    between: C,
    after: C,
)
    requires
        first.heard.len() % (crate::config::BLOCK_SIZE as nat) == 0,
        first.heard_from(before, between),
        second.heard_from(between, after),
    ensures
        first.followed_by(second).heard_from(before, after),
{
    let first_states = choose|states: Seq<C>| #[trigger]
        crate::flow::blocks_heard(first.heard, first.gains, states) && states.first() == before
            && states.last() == between;
    let second_states = choose|states: Seq<C>| #[trigger]
        crate::flow::blocks_heard(second.heard, second.gains, states) && states.first() == between
            && states.last() == after;
    crate::flow::lemma_blocks_follow(
        first.heard,
        first.gains,
        first_states,
        second.heard,
        second.gains,
        second_states,
    );
    let states = first_states.drop_last() + second_states;
    let run = first.followed_by(second);
    assert(run.heard =~= first.heard + second.heard);
    assert(run.gains =~= first.gains + second.gains);
    assert(crate::flow::blocks_heard(run.heard, run.gains, states));
    assert(states.last() == second_states.last());
    if first_states.len() == 1 {
        assert(states =~= second_states);
    } else {
        assert(states[0] == first_states[0]);
    }
    assert(states.first() == before && states.last() == after);
}

/// The channels of a frame are modulated in the same mode, as long as the mode that the controls tell
/// depends on their position alone.
pub proof fn law_channels_hear_the_same_mode<D: Dsp, C: Controls<D::Sample>>(
    run: Run<D>,
    before: C,
    after: C,
)
    requires
        forall|c: C, m: crate::config::Mode, n: crate::config::Mode| #[trigger]
            call_ensures(C::mode, (&c,), m) && #[trigger] call_ensures(C::mode, (&c,), n) ==> m
                == n,
        run.heard_from(before, after),
    ensures
        forall|i: int, c: int, d: int|
            #![trigger run.heard[i].modes[c], run.heard[i].modes[d]]
            0 <= i < run.heard.len() && 0 <= c < run.heard[i].modes.len() && 0 <= d
                < run.heard[i].modes.len() ==> run.heard[i].modes[c] == run.heard[i].modes[d],
{
    let states = choose|states: Seq<C>| #[trigger]
        crate::flow::blocks_heard(run.heard, run.gains, states) && states.first() == before
            && states.last() == after;
    assert forall|i: int, c: int, d: int|
        #![trigger run.heard[i].modes[c], run.heard[i].modes[d]]
        0 <= i < run.heard.len() && 0 <= c < run.heard[i].modes.len() && 0 <= d
            < run.heard[i].modes.len() implies run.heard[i].modes[c] == run.heard[i].modes[d] by {
        lemma_each_frame_is_heard(run.heard, run.gains, states, i);
    }
}

pub(crate) proof fn lemma_each_frame_is_heard<S, C: Controls<S>>(
    heard: Seq<FrameControls<S>>,
    gains: Seq<S>,
    states: Seq<C>,
    i: int,
)
    requires
        crate::flow::blocks_heard(heard, gains, states),
        0 <= i < heard.len(),
    ensures
        exists|before: C, after: C| #[trigger] heard[i].heard_from(before, after),
{
    let size = crate::config::BLOCK_SIZE as int;
    let b = i / size;
    let (from, to) = (b * size, crate::flow::block_end(heard.len(), b));
    let (block, block_gains) = (heard.subrange(from, to), gains.subrange(from, to));
    assert(crate::flow::block_of_frames_heard(heard, gains, states, b));
    let (modulating, mixing) = choose|modulating: Seq<C>, mixing: Seq<C>|
        {
            &&& #[trigger] crate::flow::frames_heard(block, modulating)
            &&& #[trigger] crate::flow::gains_heard(block_gains, mixing)
            &&& modulating.first() == states[b]
            &&& mixing.first() == modulating.last()
            &&& mixing.last() == states[b + 1]
        };
    assert(block[i - from].heard_from(modulating[i - from], modulating[i - from + 1]));
}

proof fn lemma_mono_frame_keeps_channels_alike<D: Dsp>(
    before: Crisp<D>,
    input: Seq<D::Sample>,
    heard: FrameControls<D::Sample>,
    wet: Seq<D::Sample>,
    after: Crisp<D>,
)
    requires
        deterministic::<D>(),
        before.modulates_frame(input, heard, wet, after),
        input.len() == 2,
        input[0] == input[1],
        heard.stereo_mode == StereoMode::Mono,
        heard.modes[0] == heard.modes[1],
        before.rm_input_lpf@[0] == before.rm_input_lpf@[1],
    ensures
        wet[0] == wet[1],
        after.rm_input_lpf@[0] == after.rm_input_lpf@[1],
{
    let (amount, tuned) = choose|amount: D::Sample, tuned: Crisp<D>|
        {
            &&& crate::flow::scales_amount::<D>(heard.amount, amount)
            &&& before.retuned(heard.retunings, tuned)
            &&& #[trigger] tuned.modulates_channels(input, heard, amount, wet, after)
        };
    let (noise, states) = choose|noise: D::Sample, states: Seq<Crisp<D>>| #[trigger]
        tuned.modulates_mono(input, heard.modes, amount, noise, wet, states) && states.last()
            == after;
    let mode = heard.modes[0];
    let sample = input[0];
    let left = choose|result: D::Sample| #[trigger]
        states[0].ring_modulates(sample, 0, noise, mode, result, states[1]) && call_ensures(
            D::times,
            (result, amount),
            wet[0],
        );
    let right = choose|result: D::Sample| #[trigger]
        states[1].ring_modulates(sample, 1, noise, mode, result, states[2]) && call_ensures(
            D::times,
            (result, amount),
            wet[1],
        );
    let (filtered_left, part_left) = choose|filtered: D::Sample, part: D::Sample|
        {
            &&& #[trigger] states[0].rm_input_lpf@[0].filters(
                sample,
                filtered,
                states[1].rm_input_lpf@[0],
            )
            &&& crate::flow::selects::<D>(mode, filtered, part)
            &&& #[trigger] call_ensures(D::times, (part, noise), left)
        };
    let (filtered_right, part_right) = choose|filtered: D::Sample, part: D::Sample|
        {
            &&& #[trigger] states[1].rm_input_lpf@[1].filters(
                sample,
                filtered,
                states[2].rm_input_lpf@[1],
            )
            &&& crate::flow::selects::<D>(mode, filtered, part)
            &&& #[trigger] call_ensures(D::times, (part, noise), right)
        };
    lemma_selects_once::<D>(mode, filtered_left, part_left, part_right);
}

proof fn lemma_mono_run_keeps_channels_alike<D: Dsp>(
    run: Run<D>,
    before: Crisp<D>,
    input: Seq<Seq<D::Sample>>,
    output: Seq<Seq<D::Sample>>,
    after: Crisp<D>,
    n: nat,
)
    requires
        deterministic::<D>(),
        n <= input.len(),
        run.leads(before, input, output, after),
        before.rm_input_lpf@[0] == before.rm_input_lpf@[1],
        forall|i: int| 0 <= i < input.len() ==> (#[trigger] input[i]).len() == 2,
        forall|i: int| 0 <= i < input.len() ==> (#[trigger] input[i])[0] == input[i][1],
        forall|i: int|
            0 <= i < input.len() ==> {
                &&& (#[trigger] run.heard[i]).stereo_mode == StereoMode::Mono
                &&& run.heard[i].modes[0] == run.heard[i].modes[1]
            },
    ensures
        run.states[n as int].rm_input_lpf@[0] == run.states[n as int].rm_input_lpf@[1],
        forall|i: int| 0 <= i < n ==> (#[trigger] run.wet[i])[0] == run.wet[i][1],
    decreases n,
{
    if n > 0 {
        let i = n - 1;
        lemma_mono_run_keeps_channels_alike(run, before, input, output, after, i as nat);
        lemma_mono_frame_keeps_channels_alike(
            run.states[i],
            input[i],
            run.heard[i],
            run.wet[i],
            run.states[i + 1],
        );
    }
}

/// With the same noise for both channels, a sound that is the same on both of them stays so.
pub proof fn law_mono_keeps_channels_alike<D: Dsp>(
    run: Run<D>,
    before: Crisp<D>,
    input: Seq<Seq<D::Sample>>,
    output: Seq<Seq<D::Sample>>,
    after: Crisp<D>,
)
    requires
        deterministic::<D>(),
        run.leads(before, input, output, after),
        before.rm_input_lpf@[0] == before.rm_input_lpf@[1],
        forall|i: int| 0 <= i < input.len() ==> (#[trigger] input[i]).len() == 2,
        forall|i: int| 0 <= i < input.len() ==> (#[trigger] input[i])[0] == input[i][1],
        forall|i: int|
            0 <= i < input.len() ==> {
                &&& (#[trigger] run.heard[i]).stereo_mode == StereoMode::Mono
                &&& run.heard[i].modes[0] == run.heard[i].modes[1]
            },
    ensures
        forall|i: int| 0 <= i < output.len() ==> (#[trigger] output[i])[0] == output[i][1],
        after.rm_input_lpf@[0] == after.rm_input_lpf@[1],
{
    lemma_mono_run_keeps_channels_alike(run, before, input, output, after, input.len());
}

} // verus!
