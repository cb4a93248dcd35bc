//! What the controls are asked for, how often and in which order.

use crate::config::SmoothedParam;
use crate::dsp::{Controls, Dsp};
use crate::flow::{FrameControls, Run, Tuning};
use crate::operation_laws::BankStep;
use vstd::prelude::*;

verus! {

/// How the controls were moved for a frame.
pub struct FrameSteps<S, C> {
    /// The controls once the amount was moved.
    pub amount: C,
    pub rm_input_lpf: BankStep<S, C>,
    pub noise_hpf: BankStep<S, C>,
    pub noise_lpf: BankStep<S, C>,
}

/// A frame first moves the amount by one step. Then it asks, bank by bank, whether the frequency or
/// the resonance is on the move, and moves both by one step if so and none if not. Then it asks for
/// the handling of stereo input, and for the mode of each channel.
pub proof fn law_a_frame_is_heard<S, C: Controls<S>>(
    heard: FrameControls<S>,
    before: C,
    after: C,
) -> (steps: FrameSteps<S, C>)
    requires
        heard.heard_from(before, after),
    ensures
        call_ensures(
            crate::dsp::advance::<S, C>,
            (before, SmoothedParam::Amount),
            (heard.amount, steps.amount),
        ),
        match heard.retunings.rm_input_lpf {
            Some(tuning) => {
                &&& call_ensures(C::is_smoothing, (&steps.amount, SmoothedParam::RmInputLpfFreq), true)
                    || call_ensures(C::is_smoothing, (&steps.amount, SmoothedParam::RmInputLpfQ), true)
                &&& call_ensures(
                    crate::dsp::advance::<S, C>,
                    (steps.amount, SmoothedParam::RmInputLpfFreq),
                    (tuning.frequency, steps.rm_input_lpf.between),
                )
                &&& call_ensures(
                    crate::dsp::advance::<S, C>,
                    (steps.rm_input_lpf.between, SmoothedParam::RmInputLpfQ),
                    (tuning.q, steps.rm_input_lpf.after),
                )
            },
            None => {
                &&& call_ensures(C::is_smoothing, (&steps.amount, SmoothedParam::RmInputLpfFreq), false)
                &&& call_ensures(C::is_smoothing, (&steps.amount, SmoothedParam::RmInputLpfQ), false)
                &&& steps.rm_input_lpf.after == steps.amount
            },
        },
        match heard.retunings.noise_hpf {
            Some(tuning) => {
                &&& call_ensures(C::is_smoothing, (&steps.rm_input_lpf.after, SmoothedParam::NoiseHpfFreq), true)
                    || call_ensures(C::is_smoothing, (&steps.rm_input_lpf.after, SmoothedParam::NoiseHpfQ), true)
                &&& call_ensures(
                    crate::dsp::advance::<S, C>,
                    (steps.rm_input_lpf.after, SmoothedParam::NoiseHpfFreq),
                    (tuning.frequency, steps.noise_hpf.between),
                )
                &&& call_ensures(
                    crate::dsp::advance::<S, C>,
                    (steps.noise_hpf.between, SmoothedParam::NoiseHpfQ),
                    (tuning.q, steps.noise_hpf.after),
                )
            },
            None => {
                &&& call_ensures(C::is_smoothing, (&steps.rm_input_lpf.after, SmoothedParam::NoiseHpfFreq), false)
                &&& call_ensures(C::is_smoothing, (&steps.rm_input_lpf.after, SmoothedParam::NoiseHpfQ), false)
                &&& steps.noise_hpf.after == steps.rm_input_lpf.after
            },
        },
        match heard.retunings.noise_lpf {
            Some(tuning) => {
                &&& call_ensures(C::is_smoothing, (&steps.noise_hpf.after, SmoothedParam::NoiseLpfFreq), true)
                    || call_ensures(C::is_smoothing, (&steps.noise_hpf.after, SmoothedParam::NoiseLpfQ), true)
                &&& call_ensures(
                    crate::dsp::advance::<S, C>,
                    (steps.noise_hpf.after, SmoothedParam::NoiseLpfFreq),
                    (tuning.frequency, steps.noise_lpf.between),
                )
                &&& call_ensures(
                    crate::dsp::advance::<S, C>,
                    (steps.noise_lpf.between, SmoothedParam::NoiseLpfQ),
                    (tuning.q, steps.noise_lpf.after),
                )
            },
            None => {
                &&& call_ensures(C::is_smoothing, (&steps.noise_hpf.after, SmoothedParam::NoiseLpfFreq), false)
                &&& call_ensures(C::is_smoothing, (&steps.noise_hpf.after, SmoothedParam::NoiseLpfQ), false)
                &&& steps.noise_lpf.after == steps.noise_hpf.after
            },
        },
        steps.noise_lpf.after == after,
        call_ensures(C::stereo_mode, (&after,), heard.stereo_mode),
        forall|c: int|
            0 <= c < heard.modes.len() ==> call_ensures(
                C::mode,
                (&after,),
                #[trigger] heard.modes[c],
            ),
{
    let amount = choose|between: C| #[trigger]
        crate::flow::moves(before, SmoothedParam::Amount, heard.amount, between)
            && heard.retunings.polled_from(between, after);
    let steps = crate::operation_laws::lemma_retunings_steps(heard.retunings, amount, after);
    FrameSteps { amount, rm_input_lpf: steps.0, noise_hpf: steps.1, noise_lpf: steps.2 }
}

/// A run of a block or less is heard frame by frame, and after that its output gains are, one step
/// for each frame. A run without frames does not touch the controls.
pub proof fn law_a_block_is_heard<D: Dsp, C: Controls<D::Sample>>(
    run: Run<D>,
    before: C,
    after: C,
) -> (positions: (Seq<C>, Seq<C>))
    requires
        run.heard_from(before, after),
        run.heard.len() <= 64,
    ensures
        ({
            let (modulating, mixing) = positions;
            let n = run.heard.len() as int;
            &&& run.gains.len() == n
            &&& modulating.len() == n + 1
            &&& mixing.len() == n + 1
            &&& modulating[0] == before
            &&& mixing[0] == modulating[n]
            &&& mixing[n] == after
            &&& forall|i: int|
                0 <= i < n ==> (#[trigger] run.heard[i]).heard_from(
                    modulating[i],
                    modulating[i + 1],
                )
            &&& forall|i: int|
                0 <= i < n ==> call_ensures(
                    crate::dsp::advance::<D::Sample, C>,
                    (mixing[i], SmoothedParam::OutputGain),
                    (#[trigger] run.gains[i], mixing[i + 1]),
                )
        }),
{
    let states = choose|states: Seq<C>| #[trigger]
        crate::flow::blocks_heard(run.heard, run.gains, states) && states.first() == before
            && states.last() == after;
    let n = run.heard.len() as int;
    if n == 0 {
        assert(states.len() == 1);
        (seq![before], seq![before])
    } else {
        assert(states.len() == 2);
        assert(run.heard.subrange(0, n) =~= run.heard);
        assert(run.gains.subrange(0, n) =~= run.gains);
        assert(crate::flow::block_of_frames_heard(run.heard, run.gains, states, 0));
        choose|modulating: Seq<C>, mixing: Seq<C>|
            {
                &&& #[trigger] crate::flow::frames_heard(run.heard, modulating)
                &&& #[trigger] crate::flow::gains_heard(run.gains, mixing)
                &&& modulating.first() == states[0]
                &&& mixing.first() == modulating.last()
                &&& mixing.last() == states[1]
            }
    }
}

/// The run of some of the frames.
pub open spec fn part_of<D: Dsp>(run: Run<D>, from: int, to: int) -> Run<D> {
    Run {
        heard: run.heard.subrange(from, to),
        wet: run.wet.subrange(from, to),
        gains: run.gains.subrange(from, to),
        states: run.states.subrange(from, to + 1),
    }
}

/// A run of more than a block is heard like a run of one block, and then like a run of the rest.
pub proof fn law_blocks_are_heard_in_turn<D: Dsp, C: Controls<D::Sample>>(
    run: Run<D>,
    before: C,
    after: C,
) -> (between: C)
    requires
        run.heard_from(before, after),
        run.heard.len() > 64,
    ensures
        part_of(run, 0, 64).heard_from(before, between),
        part_of(run, 64, run.heard.len() as int).heard_from(between, after),
{
    let states = choose|states: Seq<C>| #[trigger]
        crate::flow::blocks_heard(run.heard, run.gains, states) && states.first() == before
            && states.last() == after;
    let n = run.heard.len() as int;
    let (head, tail) = (part_of(run, 0, 64), part_of(run, 64, n));
    let first = seq![states[0], states[1]];
    assert(states[0] == first[0]);
    assert(head.heard.subrange(0, 64) =~= run.heard.subrange(0, 64));
    assert(head.gains.subrange(0, 64) =~= run.gains.subrange(0, 64));
    assert(crate::flow::block_of_frames_heard(run.heard, run.gains, states, 0));
    assert(crate::flow::block_of_frames_heard(head.heard, head.gains, first, 0));
    assert(crate::flow::blocks_heard(head.heard, head.gains, first));
    let rest = states.skip(1);
    assert forall|b: int|
        0 <= b < rest.len() - 1 implies #[trigger] crate::flow::block_of_frames_heard(
        tail.heard,
        tail.gains,
        rest,
        b,
    ) by {
        let (from, to) = (b * 64, crate::flow::block_end(tail.heard.len(), b));
        assert(crate::flow::block_of_frames_heard(run.heard, run.gains, states, b + 1));
        assert(states[b + 1] == rest[b]);
        assert(crate::flow::block_end(run.heard.len(), b + 1) == to + 64);
        assert(tail.heard.subrange(from, to) =~= run.heard.subrange(from + 64, to + 64));
        assert(tail.gains.subrange(from, to) =~= run.gains.subrange(from + 64, to + 64));
    }
    assert(crate::flow::blocks_heard(tail.heard, tail.gains, rest));
    assert(rest.first() == states[1]);
    assert(rest.last() == after);
    states[1]
}

pub(crate) proof fn lemma_frame_of_run_is_heard<D: Dsp, C: Controls<D::Sample>>(
    run: Run<D>,
    before: C,
    after: C,
    i: int,
)
    requires
        run.heard_from(before, after),
        0 <= i < run.heard.len(),
    ensures
        exists|from: C, to: C| #[trigger] run.heard[i].heard_from(from, to),
{
    let states = choose|states: Seq<C>| #[trigger]
        crate::flow::blocks_heard(run.heard, run.gains, states) && states.first() == before
            && states.last() == after;
    crate::laws::lemma_each_frame_is_heard(run.heard, run.gains, states, i);
}

/// `count` counts the steps of each parameter: moving a parameter adds one to its own steps, and
/// nothing to those of the others.
pub open spec fn counts_steps<S, C: Controls<S>>(
    count: spec_fn(C, SmoothedParam) -> int,
) -> bool {
    forall|c: C, p: SmoothedParam, v: S, d: C, q: SmoothedParam|
        #![trigger call_ensures(crate::dsp::advance::<S, C>, (c, p), (v, d)), count(d, q)]
        call_ensures(crate::dsp::advance::<S, C>, (c, p), (v, d)) ==> count(d, q) == count(c, q) + (
        if p == q {
            1int
        } else {
            0
        })
}

/// The parameters of a filter bank took the same number of steps, at most `n`: all of them if the
/// controls never say that both are at rest, and none if they never say that one is on the move.
pub open spec fn bank_took_steps<S, C: Controls<S>>(
    count: spec_fn(C, SmoothedParam) -> int,
    frequency: SmoothedParam,
    q: SmoothedParam,
    before: C,
    after: C,
    n: int,
) -> bool {
    let steps = count(after, frequency) - count(before, frequency);
    &&& count(after, q) - count(before, q) == steps
    &&& 0 <= steps <= n
    &&& (forall|c: C| !#[trigger] call_ensures(C::is_smoothing, (&c, frequency), false)) || (forall|
        c: C,
    | !#[trigger] call_ensures(C::is_smoothing, (&c, q), false)) ==> steps == n
    &&& (forall|c: C| !#[trigger] call_ensures(C::is_smoothing, (&c, frequency), true)) && (forall|
        c: C,
    | !#[trigger] call_ensures(C::is_smoothing, (&c, q), true)) ==> steps == 0
}

/// `n` frames were modulated on the way.
pub open spec fn frames_took_steps<S, C: Controls<S>>(
    count: spec_fn(C, SmoothedParam) -> int,
    before: C,
    after: C,
    n: int,
) -> bool {
    &&& count(after, SmoothedParam::Amount) - count(before, SmoothedParam::Amount) == n
    &&& bank_took_steps::<S, C>(
        count,
        SmoothedParam::RmInputLpfFreq,
        SmoothedParam::RmInputLpfQ,
        before,
        after,
        n,
    )
    &&& bank_took_steps::<S, C>(
        count,
        SmoothedParam::NoiseHpfFreq,
        SmoothedParam::NoiseHpfQ,
        before,
        after,
        n,
    )
    &&& bank_took_steps::<S, C>(
        count,
        SmoothedParam::NoiseLpfFreq,
        SmoothedParam::NoiseLpfQ,
        before,
        after,
        n,
    )
}

/// Moving one parameter changes its own count alone.
proof fn lemma_one_step<S, C: Controls<S>>(
    count: spec_fn(C, SmoothedParam) -> int,
    before: C,
    param: SmoothedParam,
    value: S,
    after: C,
)
    requires
        counts_steps::<S, C>(count),
        call_ensures(crate::dsp::advance::<S, C>, (before, param), (value, after)),
    ensures
        count(after, param) == count(before, param) + 1,
        forall|q: SmoothedParam| q != param ==> #[trigger] count(after, q) == count(before, q),
{
    assert(count(after, param) == count(before, param) + 1);
}

proof fn lemma_bank_step<S, C: Controls<S>>(
    count: spec_fn(C, SmoothedParam) -> int,
    frequency: SmoothedParam,
    q: SmoothedParam,
    tuning: Option<Tuning<S>>,
    before: C,
    after: C,
)
    requires
        counts_steps::<S, C>(count),
        frequency != q,
        crate::flow::polled(before, frequency, q, tuning, after),
    ensures
        bank_took_steps::<S, C>(count, frequency, q, before, after, 1),
        forall|p: SmoothedParam|
            p != frequency && p != q ==> #[trigger] count(after, p) == count(before, p),
{
    if let Some(values) = tuning {
        let between = choose|between: C| #[trigger]
            crate::flow::moves(before, frequency, values.frequency, between)
                && crate::flow::moves(between, q, values.q, after);
        lemma_one_step(count, before, frequency, values.frequency, between);
        lemma_one_step(count, between, q, values.q, after);
        assert(count(after, frequency) == count(between, frequency));
        assert(count(between, q) == count(before, q));
        assert forall|p: SmoothedParam| p != frequency && p != q implies #[trigger] count(after, p)
            == count(before, p) by {
            assert(count(between, p) == count(before, p));
        }
    }
}

proof fn lemma_frame_takes_steps<S, C: Controls<S>>(
    count: spec_fn(C, SmoothedParam) -> int,
    heard: FrameControls<S>,
    before: C,
    after: C,
)
    requires
        counts_steps::<S, C>(count),
        heard.heard_from(before, after),
    ensures
        frames_took_steps::<S, C>(count, before, after, 1),
        count(after, SmoothedParam::OutputGain) == count(before, SmoothedParam::OutputGain),
{
    let amount = choose|between: C| #[trigger]
        crate::flow::moves(before, SmoothedParam::Amount, heard.amount, between)
            && heard.retunings.polled_from(between, after);
    let (freq_1, q_1) = (SmoothedParam::RmInputLpfFreq, SmoothedParam::RmInputLpfQ);
    let (freq_2, q_2) = (SmoothedParam::NoiseHpfFreq, SmoothedParam::NoiseHpfQ);
    let (freq_3, q_3) = (SmoothedParam::NoiseLpfFreq, SmoothedParam::NoiseLpfQ);
    let retunings = heard.retunings;
    let (first, second) = choose|first: C, second: C|
        {
            &&& #[trigger] crate::flow::polled(amount, freq_1, q_1, retunings.rm_input_lpf, first)
            &&& crate::flow::polled(first, freq_2, q_2, retunings.noise_hpf, second)
            &&& #[trigger] crate::flow::polled(second, freq_3, q_3, retunings.noise_lpf, after)
        };
    lemma_one_step(count, before, SmoothedParam::Amount, heard.amount, amount);
    lemma_bank_step(count, freq_1, q_1, retunings.rm_input_lpf, amount, first);
    lemma_bank_step(count, freq_2, q_2, retunings.noise_hpf, first, second);
    lemma_bank_step(count, freq_3, q_3, retunings.noise_lpf, second, after);
    assert(count(amount, freq_1) == count(before, freq_1) && count(amount, q_1) == count(
        before,
        q_1,
    ));
    assert(count(second, freq_1) == count(first, freq_1) && count(second, q_1) == count(
        first,
        q_1,
    ));
    assert(count(after, freq_1) == count(second, freq_1) && count(after, q_1) == count(
        second,
        q_1,
    ));
    assert(count(first, freq_2) == count(before, freq_2) && count(first, q_2) == count(
        before,
        q_2,
    )) by {
        assert(count(amount, freq_2) == count(before, freq_2));
        assert(count(amount, q_2) == count(before, q_2));
    }
    assert(count(after, freq_2) == count(second, freq_2) && count(after, q_2) == count(
        second,
        q_2,
    ));
    assert(count(second, freq_3) == count(before, freq_3) && count(second, q_3) == count(
        before,
        q_3,
    )) by {
        assert(count(amount, freq_3) == count(before, freq_3));
        assert(count(amount, q_3) == count(before, q_3));
        assert(count(first, freq_3) == count(amount, freq_3));
        assert(count(first, q_3) == count(amount, q_3));
    }
    let (a, g) = (SmoothedParam::Amount, SmoothedParam::OutputGain);
    assert(count(first, a) == count(amount, a) && count(second, a) == count(first, a));
    assert(count(first, g) == count(amount, g) && count(second, g) == count(first, g));
    assert(count(after, a) == count(second, a) && count(after, g) == count(second, g));
}

proof fn lemma_frames_take_steps<S, C: Controls<S>>(
    count: spec_fn(C, SmoothedParam) -> int,
    heard: Seq<FrameControls<S>>,
    states: Seq<C>,
    n: nat,
)
    requires
        counts_steps::<S, C>(count),
        states.len() == heard.len() + 1,
        n <= heard.len(),
        forall|i: int|
            0 <= i < heard.len() ==> (#[trigger] heard[i]).heard_from(states[i], states[i + 1]),
    ensures
        frames_took_steps::<S, C>(count, states[0], states[n as int], n as int),
        count(states[n as int], SmoothedParam::OutputGain) == count(
            states[0],
            SmoothedParam::OutputGain,
        ),
    decreases n,
{
    if n > 0 {
        let i = n - 1;
        lemma_frames_take_steps(count, heard, states, i as nat);
        lemma_frame_takes_steps(count, heard[i], states[i], states[i + 1]);
    }
}

proof fn lemma_gains_take_steps<S, C: Controls<S>>(
    count: spec_fn(C, SmoothedParam) -> int,
    gains: Seq<S>,
    states: Seq<C>,
    n: nat,
)
    requires
        counts_steps::<S, C>(count),
        states.len() == gains.len() + 1,
        n <= gains.len(),
        forall|i: int|
            0 <= i < gains.len() ==> call_ensures(
                crate::dsp::advance::<S, C>,
                (states[i], SmoothedParam::OutputGain),
                (#[trigger] gains[i], states[i + 1]),
            ),
    ensures
        count(states[n as int], SmoothedParam::OutputGain) == count(
            states[0],
            SmoothedParam::OutputGain,
        ) + n,
        forall|p: SmoothedParam|
            p != SmoothedParam::OutputGain ==> #[trigger] count(states[n as int], p) == count(
                states[0],
                p,
            ),
    decreases n,
{
    if n > 0 {
        let i = n - 1;
        lemma_gains_take_steps(count, gains, states, i as nat);
        let (from, to) = (states[i], states[i + 1]);
        assert(call_ensures(
            crate::dsp::advance::<S, C>,
            (from, SmoothedParam::OutputGain),
            (gains[i], to),
        ));
        lemma_one_step(count, from, SmoothedParam::OutputGain, gains[i], to);
        assert forall|p: SmoothedParam| p != SmoothedParam::OutputGain implies #[trigger] count(
            to,
            p,
        ) == count(states[0], p) by {
            assert(count(from, p) == count(states[0], p));
        }
    }
}

/// Every frame moves the amount and the output gain by exactly one step, and the two parameters of a
/// filter bank by the same number of steps: one for each frame while they are on the move, and none
/// while they rest.
pub proof fn law_parameters_move_once_per_frame<D: Dsp, C: Controls<D::Sample>>(
    count: spec_fn(C, SmoothedParam) -> int,
    run: Run<D>,
    before: C,
    after: C,
)
    requires
        counts_steps::<D::Sample, C>(count),
        run.heard_from(before, after),
        run.wet.len() == run.heard.len(),
        run.states.len() == run.heard.len() + 1,
    ensures
        frames_took_steps::<D::Sample, C>(count, before, after, run.heard.len() as int),
        count(after, SmoothedParam::OutputGain) - count(before, SmoothedParam::OutputGain)
            == run.heard.len(),
    decreases run.heard.len(),
{
    let n = run.heard.len() as int;
    if n <= 64 {
        let (modulating, mixing) = law_a_block_is_heard(run, before, after);
        lemma_frames_take_steps(count, run.heard, modulating, n as nat);
        lemma_gains_take_steps(count, run.gains, mixing, n as nat);
        assert(count(mixing[n], SmoothedParam::Amount) == count(mixing[0], SmoothedParam::Amount));
        assert(count(mixing[n], SmoothedParam::RmInputLpfFreq) == count(
            mixing[0],
            SmoothedParam::RmInputLpfFreq,
        ));
        assert(count(mixing[n], SmoothedParam::RmInputLpfQ) == count(
            mixing[0],
            SmoothedParam::RmInputLpfQ,
        ));
        assert(count(mixing[n], SmoothedParam::NoiseHpfFreq) == count(
            mixing[0],
            SmoothedParam::NoiseHpfFreq,
        ));
        assert(count(mixing[n], SmoothedParam::NoiseHpfQ) == count(
            mixing[0],
            SmoothedParam::NoiseHpfQ,
        ));
        assert(count(mixing[n], SmoothedParam::NoiseLpfFreq) == count(
            mixing[0],
            SmoothedParam::NoiseLpfFreq,
        ));
        assert(count(mixing[n], SmoothedParam::NoiseLpfQ) == count(
            mixing[0],
            SmoothedParam::NoiseLpfQ,
        ));
    } else {
        let between = law_blocks_are_heard_in_turn(run, before, after);
        law_parameters_move_once_per_frame(count, part_of(run, 0, 64), before, between);
        law_parameters_move_once_per_frame(count, part_of(run, 64, n), between, after);
    }
}

} // verus!
