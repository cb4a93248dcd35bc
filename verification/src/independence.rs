//! What holds as long as moving one parameter leaves alone what the controls say of the others.
//!
//! The output gain can then be told apart from everything else that is heard. That matters where a
//! sound is cut within a block: the controls are asked in another order there, since the output gains
//! of a block come after everything else that it asks for.

use crate::config::{Mode, SmoothedParam, StereoMode};
use crate::crisp::Crisp;
use crate::dsp::{Controls, Dsp};
use crate::flow::{FrameControls, Retunings, Run, Tuning};
use vstd::prelude::*;

verus! {

/// Moving one parameter leaves alone what the controls say of the others. `place` tells how far a
/// parameter has come, and `settings` what the modes are set to:
///
/// - What a parameter does next, and whether it is on the move, depends on its own place alone.
/// - Moving a parameter changes neither the place of another one nor the modes.
pub open spec fn independent<S, C: Controls<S>, X>(
    place: spec_fn(C, SmoothedParam) -> X,
    settings: spec_fn(C) -> (Mode, StereoMode),
) -> bool {
    &&& forall|a: C, b: C, p: SmoothedParam, v: S, w: S, d: C, e: C|
        {
            &&& #[trigger] crate::flow::moves(a, p, v, d)
            &&& #[trigger] crate::flow::moves(b, p, w, e)
            &&& place(a, p) == place(b, p)
        } ==> v == w && place(d, p) == place(e, p)
    &&& forall|a: C, b: C, p: SmoothedParam| #[trigger]
        call_ensures(C::is_smoothing, (&a, p), true) && #[trigger] call_ensures(
            C::is_smoothing,
            (&b, p),
            false,
        ) ==> place(a, p) != place(b, p)
    &&& forall|c: C, p: SmoothedParam, q: SmoothedParam, v: S, d: C|
        #![trigger crate::flow::moves(c, p, v, d), place(d, q)]
        crate::flow::moves(c, p, v, d) && q != p ==> place(d, q) == place(c, q)
    &&& forall|c: C, p: SmoothedParam, v: S, d: C| #[trigger]
        crate::flow::moves(c, p, v, d) ==> settings(d) == settings(c)
    &&& forall|c: C, m: Mode| #[trigger] call_ensures(C::mode, (&c,), m) ==> m == settings(c).0
    &&& forall|c: C, m: StereoMode| #[trigger]
        call_ensures(C::stereo_mode, (&c,), m) ==> m == settings(c).1
}

/// The controls stand alike in everything but the output gain.
pub open spec fn alike_beside_gain<C, X>(
    place: spec_fn(C, SmoothedParam) -> X,
    settings: spec_fn(C) -> (Mode, StereoMode),
    a: C,
    b: C,
) -> bool {
    &&& settings(a) == settings(b)
    &&& forall|p: SmoothedParam|
        p != SmoothedParam::OutputGain ==> #[trigger] place(a, p) == place(b, p)
}

/// The controls stand alike in the output gain.
pub open spec fn alike_at_gain<C, X>(
    place: spec_fn(C, SmoothedParam) -> X,
    a: C,
    b: C,
) -> bool {
    place(a, SmoothedParam::OutputGain) == place(b, SmoothedParam::OutputGain)
}

/// What is heard about a frame takes the controls from `before` to where `after` stands, but for the
/// output gain.
pub open spec fn frame_follows<S, C: Controls<S>, X>(
    place: spec_fn(C, SmoothedParam) -> X,
    settings: spec_fn(C) -> (Mode, StereoMode),
    heard: FrameControls<S>,
    before: C,
    after: C,
) -> bool {
    exists|end: C| #[trigger]
        heard.heard_from(before, end) && alike_beside_gain(place, settings, end, after)
}

/// The output gain takes the controls from `before` to where `after` stands in it.
pub open spec fn gain_follows<S, C: Controls<S>, X>(
    place: spec_fn(C, SmoothedParam) -> X,
    gain: S,
    before: C,
    after: C,
) -> bool {
    exists|end: C| #[trigger]
        crate::flow::moves(before, SmoothedParam::OutputGain, gain, end) && alike_at_gain(
            place,
            end,
            after,
        )
}

/// The output gains, and everything else that is heard, take the controls from `before` to `after`,
/// each on a way of its own.
pub open spec fn ways_lead<S, C: Controls<S>, X>(
    place: spec_fn(C, SmoothedParam) -> X,
    settings: spec_fn(C) -> (Mode, StereoMode),
    heard: Seq<FrameControls<S>>,
    gains: Seq<S>,
    before: C,
    after: C,
    modulating: Seq<C>,
    mixing: Seq<C>,
) -> bool {
    &&& gains.len() == heard.len()
    &&& modulating.len() == heard.len() + 1
    &&& mixing.len() == heard.len() + 1
    &&& alike_beside_gain(place, settings, before, modulating.first())
    &&& alike_beside_gain(place, settings, modulating.last(), after)
    &&& alike_at_gain(place, before, mixing.first())
    &&& alike_at_gain(place, mixing.last(), after)
    &&& forall|i: int|
        0 <= i < heard.len() ==> frame_follows(
            place,
            settings,
            #[trigger] heard[i],
            modulating[i],
            modulating[i + 1],
        )
    &&& forall|i: int|
        0 <= i < gains.len() ==> gain_follows(
            place,
            #[trigger] gains[i],
            mixing[i],
            mixing[i + 1],
        )
}

/// There are such ways.
pub open spec fn leads_controls<S, C: Controls<S>, X>(
    place: spec_fn(C, SmoothedParam) -> X,
    settings: spec_fn(C) -> (Mode, StereoMode),
    heard: Seq<FrameControls<S>>,
    gains: Seq<S>,
    before: C,
    after: C,
) -> bool {
    exists|modulating: Seq<C>, mixing: Seq<C>| #[trigger]
        ways_lead(place, settings, heard, gains, before, after, modulating, mixing)
}

proof fn lemma_polled_alike<S, C: Controls<S>, X>(
    place: spec_fn(C, SmoothedParam) -> X,
    settings: spec_fn(C) -> (Mode, StereoMode),
    frequency: SmoothedParam,
    q: SmoothedParam,
    a: C,
    b: C,
    r: Option<Tuning<S>>,
    s: Option<Tuning<S>>,
    after_a: C,
    after_b: C,
)
    requires
        independent::<S, C, X>(place, settings),
        alike_beside_gain(place, settings, a, b),
        frequency != q,
        frequency != SmoothedParam::OutputGain,
        q != SmoothedParam::OutputGain,
        crate::flow::polled(a, frequency, q, r, after_a),
        crate::flow::polled(b, frequency, q, s, after_b),
    ensures
        r == s,
        alike_beside_gain(place, settings, after_a, after_b),
        alike_at_gain(place, a, after_a),
{
    assert(place(a, frequency) == place(b, frequency));
    assert(place(a, q) == place(b, q));
    if let Some(values_a) = r {
        assert(s is Some);
        let values_b = s->0;
        let between_a = choose|between: C| #[trigger]
            crate::flow::moves(a, frequency, values_a.frequency, between) && crate::flow::moves(
                between,
                q,
                values_a.q,
                after_a,
            );
        let between_b = choose|between: C| #[trigger]
            crate::flow::moves(b, frequency, values_b.frequency, between) && crate::flow::moves(
                between,
                q,
                values_b.q,
                after_b,
            );
        assert(place(between_a, q) == place(a, q));
        assert(place(between_b, q) == place(b, q));
        assert forall|p: SmoothedParam| p != SmoothedParam::OutputGain implies #[trigger] place(
            after_a,
            p,
        ) == place(after_b, p) by {
            assert(place(a, p) == place(b, p));
            assert(p != frequency ==> place(between_a, p) == place(a, p));
            assert(p != frequency ==> place(between_b, p) == place(b, p));
            assert(place(between_a, p) == place(between_b, p));
            assert(p != q ==> place(after_a, p) == place(between_a, p));
            assert(p != q ==> place(after_b, p) == place(between_b, p));
        }
        let gain = SmoothedParam::OutputGain;
        assert(place(between_a, gain) == place(a, gain));
        assert(place(after_a, gain) == place(between_a, gain));
    }
}

proof fn lemma_polled_from_alike<S, C: Controls<S>, X>(
    place: spec_fn(C, SmoothedParam) -> X,
    settings: spec_fn(C) -> (Mode, StereoMode),
    a: C,
    b: C,
    r: Retunings<S>,
    s: Retunings<S>,
    after_a: C,
    after_b: C,
)
    requires
        independent::<S, C, X>(place, settings),
        alike_beside_gain(place, settings, a, b),
        r.polled_from(a, after_a),
        s.polled_from(b, after_b),
    ensures
        r == s,
        alike_beside_gain(place, settings, after_a, after_b),
        alike_at_gain(place, a, after_a),
{
    let (freq_1, q_1) = (SmoothedParam::RmInputLpfFreq, SmoothedParam::RmInputLpfQ);
    let (freq_2, q_2) = (SmoothedParam::NoiseHpfFreq, SmoothedParam::NoiseHpfQ);
    let (freq_3, q_3) = (SmoothedParam::NoiseLpfFreq, SmoothedParam::NoiseLpfQ);
    let (a_1, a_2) = choose|first: C, second: C|
        {
            &&& #[trigger] crate::flow::polled(a, freq_1, q_1, r.rm_input_lpf, first)
            &&& crate::flow::polled(first, freq_2, q_2, r.noise_hpf, second)
            &&& #[trigger] crate::flow::polled(second, freq_3, q_3, r.noise_lpf, after_a)
        };
    let (b_1, b_2) = choose|first: C, second: C|
        {
            &&& #[trigger] crate::flow::polled(b, freq_1, q_1, s.rm_input_lpf, first)
            &&& crate::flow::polled(first, freq_2, q_2, s.noise_hpf, second)
            &&& #[trigger] crate::flow::polled(second, freq_3, q_3, s.noise_lpf, after_b)
        };
    lemma_polled_alike(
        place,
        settings,
        freq_1,
        q_1,
        a,
        b,
        r.rm_input_lpf,
        s.rm_input_lpf,
        a_1,
        b_1,
    );
    lemma_polled_alike(place, settings, freq_2, q_2, a_1, b_1, r.noise_hpf, s.noise_hpf, a_2, b_2);
    lemma_polled_alike(
        place,
        settings,
        freq_3,
        q_3,
        a_2,
        b_2,
        r.noise_lpf,
        s.noise_lpf,
        after_a,
        after_b,
    );
}

/// What is heard about a frame depends on where the controls stand beside the output gain, and
/// leaves the output gain alone.
proof fn lemma_frame_heard_alike<S, C: Controls<S>, X>(
    place: spec_fn(C, SmoothedParam) -> X,
    settings: spec_fn(C) -> (Mode, StereoMode),
    a: C,
    b: C,
    r: FrameControls<S>,
    s: FrameControls<S>,
    after_a: C,
    after_b: C,
)
    requires
        independent::<S, C, X>(place, settings),
        alike_beside_gain(place, settings, a, b),
        r.heard_from(a, after_a),
        s.heard_from(b, after_b),
        r.modes.len() == s.modes.len(),
    ensures
        r == s,
        alike_beside_gain(place, settings, after_a, after_b),
        alike_at_gain(place, a, after_a),
{
    let amount = SmoothedParam::Amount;
    let between_a = choose|between: C| #[trigger]
        crate::flow::moves(a, amount, r.amount, between) && r.retunings.polled_from(
            between,
            after_a,
        );
    let between_b = choose|between: C| #[trigger]
        crate::flow::moves(b, amount, s.amount, between) && s.retunings.polled_from(
            between,
            after_b,
        );
    assert(place(a, amount) == place(b, amount));
    assert forall|p: SmoothedParam| p != SmoothedParam::OutputGain implies #[trigger] place(
        between_a,
        p,
    ) == place(between_b, p) by {
        assert(place(a, p) == place(b, p));
        assert(p != amount ==> place(between_b, p) == place(b, p));
    }
    assert(place(between_a, SmoothedParam::OutputGain) == place(a, SmoothedParam::OutputGain));
    lemma_polled_from_alike(
        place,
        settings,
        between_a,
        between_b,
        r.retunings,
        s.retunings,
        after_a,
        after_b,
    );
    assert(r.modes =~= s.modes);
}

proof fn lemma_gains_keep_others<S, C: Controls<S>, X>(
    place: spec_fn(C, SmoothedParam) -> X,
    settings: spec_fn(C) -> (Mode, StereoMode),
    gains: Seq<S>,
    states: Seq<C>,
    n: nat,
)
    requires
        independent::<S, C, X>(place, settings),
        crate::flow::gains_heard(gains, states),
        n <= gains.len(),
    ensures
        alike_beside_gain(place, settings, states[0], states[n as int]),
    decreases n,
{
    if n > 0 {
        let i = n - 1;
        lemma_gains_keep_others(place, settings, gains, states, i as nat);
        assert(crate::flow::moves(
            states[i],
            SmoothedParam::OutputGain,
            gains[i],
            states[i + 1],
        ));
        assert forall|p: SmoothedParam| p != SmoothedParam::OutputGain implies #[trigger] place(
            states[0],
            p,
        ) == place(states[i + 1], p) by {
            assert(place(states[i + 1], p) == place(states[i], p));
        }
    }
}

proof fn lemma_frames_keep_gain<S, C: Controls<S>, X>(
    place: spec_fn(C, SmoothedParam) -> X,
    settings: spec_fn(C) -> (Mode, StereoMode),
    heard: Seq<FrameControls<S>>,
    states: Seq<C>,
    n: nat,
)
    requires
        independent::<S, C, X>(place, settings),
        crate::flow::frames_heard(heard, states),
        n <= heard.len(),
    ensures
        alike_at_gain(place, states[0], states[n as int]),
    decreases n,
{
    if n > 0 {
        let i = n - 1;
        lemma_frames_keep_gain(place, settings, heard, states, i as nat);
        lemma_frame_heard_alike(
            place,
            settings,
            states[i],
            states[i],
            heard[i],
            heard[i],
            states[i + 1],
            states[i + 1],
        );
    }
}

proof fn lemma_block_leads<S, C: Controls<S>, X>(
    place: spec_fn(C, SmoothedParam) -> X,
    settings: spec_fn(C) -> (Mode, StereoMode),
    heard: Seq<FrameControls<S>>,
    gains: Seq<S>,
    before: C,
    after: C,
)
    requires
        independent::<S, C, X>(place, settings),
        gains.len() == heard.len(),
        crate::flow::block_heard(heard, gains, before, after),
    ensures
        leads_controls(place, settings, heard, gains, before, after),
{
    let (modulating, mixing) = choose|modulating: Seq<C>, mixing: Seq<C>|
        {
            &&& #[trigger] crate::flow::frames_heard(heard, modulating)
            &&& #[trigger] crate::flow::gains_heard(gains, mixing)
            &&& modulating.first() == before
            &&& mixing.first() == modulating.last()
            &&& mixing.last() == after
        };
    lemma_frames_keep_gain(place, settings, heard, modulating, heard.len());
    lemma_gains_keep_others(place, settings, gains, mixing, gains.len());
    assert forall|i: int| 0 <= i < heard.len() implies frame_follows(
        place,
        settings,
        #[trigger] heard[i],
        modulating[i],
        modulating[i + 1],
    ) by {
        assert(heard[i].heard_from(modulating[i], modulating[i + 1]));
    }
    assert forall|i: int| 0 <= i < gains.len() implies gain_follows(
        place,
        #[trigger] gains[i],
        mixing[i],
        mixing[i + 1],
    ) by {
        assert(crate::flow::moves(
            mixing[i],
            SmoothedParam::OutputGain,
            gains[i],
            mixing[i + 1],
        ));
    }
    assert(ways_lead(place, settings, heard, gains, before, after, modulating, mixing));
}

/// Ways can be followed one after the other, wherever the first ones end.
proof fn lemma_ways_join<S, C: Controls<S>, X>(
    place: spec_fn(C, SmoothedParam) -> X,
    settings: spec_fn(C) -> (Mode, StereoMode),
    heard: Seq<FrameControls<S>>,
    gains: Seq<S>,
    more_heard: Seq<FrameControls<S>>,
    more_gains: Seq<S>,
    before: C,
    between: C,
    after: C,
)
    requires
        leads_controls(place, settings, heard, gains, before, between),
        leads_controls(place, settings, more_heard, more_gains, between, after),
    ensures
        leads_controls(place, settings, heard + more_heard, gains + more_gains, before, after),
{
    let (m_1, g_1) = choose|modulating: Seq<C>, mixing: Seq<C>| #[trigger]
        ways_lead(place, settings, heard, gains, before, between, modulating, mixing);
    let (m_2, g_2) = choose|modulating: Seq<C>, mixing: Seq<C>| #[trigger]
        ways_lead(place, settings, more_heard, more_gains, between, after, modulating, mixing);
    let n = heard.len() as int;
    let all_heard = heard + more_heard;
    let all_gains = gains + more_gains;
    let modulating = m_1.drop_last() + m_2;
    let mixing = g_1.drop_last() + g_2;
    assert(alike_beside_gain(place, settings, m_1.last(), m_2.first()));
    assert forall|i: int| 0 <= i < all_heard.len() implies frame_follows(
        place,
        settings,
        #[trigger] all_heard[i],
        modulating[i],
        modulating[i + 1],
    ) by {
        if i < n {
            assert(frame_follows(place, settings, heard[i], m_1[i], m_1[i + 1]));
            let end = choose|end: C| #[trigger]
                heard[i].heard_from(m_1[i], end) && alike_beside_gain(
                    place,
                    settings,
                    end,
                    m_1[i + 1],
                );
            assert(all_heard[i].heard_from(modulating[i], end));
            assert(alike_beside_gain(place, settings, end, modulating[i + 1]));
        } else {
            assert(frame_follows(
                place,
                settings,
                more_heard[i - n],
                m_2[i - n],
                m_2[i - n + 1],
            ));
        }
    }
    assert forall|i: int| 0 <= i < all_gains.len() implies gain_follows(
        place,
        #[trigger] all_gains[i],
        mixing[i],
        mixing[i + 1],
    ) by {
        if i < n {
            assert(gain_follows(place, gains[i], g_1[i], g_1[i + 1]));
        } else {
            assert(gain_follows(place, more_gains[i - n], g_2[i - n], g_2[i - n + 1]));
        }
    }
    assert(ways_lead(
        place,
        settings,
        all_heard,
        all_gains,
        before,
        after,
        modulating,
        mixing,
    ));
}

proof fn lemma_blocks_lead<S, C: Controls<S>, X>(
    place: spec_fn(C, SmoothedParam) -> X,
    settings: spec_fn(C) -> (Mode, StereoMode),
    heard: Seq<FrameControls<S>>,
    gains: Seq<S>,
    states: Seq<C>,
    n: nat,
)
    requires
        independent::<S, C, X>(place, settings),
        crate::flow::blocks_heard(heard, gains, states),
        n < states.len(),
    ensures
        leads_controls(
            place,
            settings,
            heard.take(crate::flow::block_end(heard.len(), n - 1)),
            gains.take(crate::flow::block_end(heard.len(), n - 1)),
            states[0],
            states[n as int],
        ),
    decreases n,
{
    if n == 0 {
        let start = seq![states[0]];
        assert(ways_lead(
            place,
            settings,
            heard.take(0),
            gains.take(0),
            states[0],
            states[0],
            start,
            start,
        ));
    } else {
        let b = n - 1;
        lemma_blocks_lead(place, settings, heard, gains, states, b as nat);
        let from = b * crate::config::BLOCK_SIZE;
        let to = crate::flow::block_end(heard.len(), b);
        assert(crate::flow::block_end(heard.len(), b - 1) == from);
        let (block, block_gains) = (heard.subrange(from, to), gains.subrange(from, to));
        assert(crate::flow::block_of_frames_heard(heard, gains, states, b));
        lemma_block_leads(place, settings, block, block_gains, states[b], states[b + 1]);
        lemma_ways_join(
            place,
            settings,
            heard.take(from),
            gains.take(from),
            block,
            block_gains,
            states[0],
            states[b],
            states[b + 1],
        );
        assert(heard.take(from) + block =~= heard.take(to));
        assert(gains.take(from) + block_gains =~= gains.take(to));
    }
}

proof fn lemma_run_leads_controls<D: Dsp, C: Controls<D::Sample>, X>(
    place: spec_fn(C, SmoothedParam) -> X,
    settings: spec_fn(C) -> (Mode, StereoMode),
    run: Run<D>,
    before: C,
    after: C,
)
    requires
        independent::<D::Sample, C, X>(place, settings),
        run.heard_from(before, after),
    ensures
        leads_controls(place, settings, run.heard, run.gains, before, after),
{
    let states = choose|states: Seq<C>| #[trigger]
        crate::flow::blocks_heard(run.heard, run.gains, states) && states.first() == before
            && states.last() == after;
    let n = states.len() - 1;
    lemma_blocks_lead(place, settings, run.heard, run.gains, states, n as nat);
    let end = crate::flow::block_end(run.heard.len(), n - 1);
    assert(end == run.heard.len());
    assert(run.heard.take(end) =~= run.heard);
    assert(run.gains.take(end) =~= run.gains);
}

proof fn lemma_ways_agree<S, C: Controls<S>, X>(
    place: spec_fn(C, SmoothedParam) -> X,
    settings: spec_fn(C) -> (Mode, StereoMode),
    heard_a: Seq<FrameControls<S>>,
    heard_b: Seq<FrameControls<S>>,
    gains_a: Seq<S>,
    gains_b: Seq<S>,
    before_a: C,
    before_b: C,
    after_a: C,
    after_b: C,
    m_a: Seq<C>,
    m_b: Seq<C>,
    g_a: Seq<C>,
    g_b: Seq<C>,
    n: nat,
)
    requires
        independent::<S, C, X>(place, settings),
        alike_beside_gain(place, settings, before_a, before_b),
        n <= heard_a.len(),
        heard_a.len() == heard_b.len(),
        forall|i: int|
            0 <= i < heard_a.len() ==> (#[trigger] heard_a[i]).modes.len()
                == heard_b[i].modes.len(),
        ways_lead(place, settings, heard_a, gains_a, before_a, after_a, m_a, g_a),
        ways_lead(place, settings, heard_b, gains_b, before_b, after_b, m_b, g_b),
    ensures
        forall|i: int| 0 <= i < n ==> heard_a[i] == heard_b[i],
        alike_beside_gain(place, settings, m_a[n as int], m_b[n as int]),
        alike_at_gain(place, before_a, before_b) ==> {
            &&& forall|i: int| 0 <= i < n ==> gains_a[i] == gains_b[i]
            &&& alike_at_gain(place, g_a[n as int], g_b[n as int])
        },
    decreases n,
{
    if n > 0 {
        let i = n - 1;
        lemma_ways_agree(
            place,
            settings,
            heard_a,
            heard_b,
            gains_a,
            gains_b,
            before_a,
            before_b,
            after_a,
            after_b,
            m_a,
            m_b,
            g_a,
            g_b,
            i as nat,
        );
        assert(frame_follows(place, settings, heard_a[i], m_a[i], m_a[i + 1]));
        assert(frame_follows(place, settings, heard_b[i], m_b[i], m_b[i + 1]));
        let end_a = choose|end: C| #[trigger]
            heard_a[i].heard_from(m_a[i], end) && alike_beside_gain(
                place,
                settings,
                end,
                m_a[i + 1],
            );
        let end_b = choose|end: C| #[trigger]
            heard_b[i].heard_from(m_b[i], end) && alike_beside_gain(
                place,
                settings,
                end,
                m_b[i + 1],
            );
        lemma_frame_heard_alike(
            place,
            settings,
            m_a[i],
            m_b[i],
            heard_a[i],
            heard_b[i],
            end_a,
            end_b,
        );
        assert(gain_follows(place, gains_a[i], g_a[i], g_a[i + 1]));
        assert(gain_follows(place, gains_b[i], g_b[i], g_b[i + 1]));
        assert forall|p: SmoothedParam| p != SmoothedParam::OutputGain implies #[trigger] place(
            m_a[i + 1],
            p,
        ) == place(m_b[i + 1], p) by {
            assert(place(end_a, p) == place(m_a[i + 1], p));
            assert(place(end_b, p) == place(m_b[i + 1], p));
        }
    } else {
        assert forall|p: SmoothedParam| p != SmoothedParam::OutputGain implies #[trigger] place(
            m_a[0],
            p,
        ) == place(m_b[0], p) by {
            assert(place(before_a, p) == place(m_a[0], p));
            assert(place(before_b, p) == place(m_b[0], p));
            assert(place(before_a, p) == place(before_b, p));
        }
    }
}

/// What is heard depends on where the controls stand at first, and so does where they end up.
proof fn lemma_controls_agree<S, C: Controls<S>, X>(
    place: spec_fn(C, SmoothedParam) -> X,
    settings: spec_fn(C) -> (Mode, StereoMode),
    heard_a: Seq<FrameControls<S>>,
    heard_b: Seq<FrameControls<S>>,
    gains_a: Seq<S>,
    gains_b: Seq<S>,
    before_a: C,
    before_b: C,
    after_a: C,
    after_b: C,
)
    requires
        independent::<S, C, X>(place, settings),
        alike_beside_gain(place, settings, before_a, before_b),
        heard_a.len() == heard_b.len(),
        forall|i: int|
            0 <= i < heard_a.len() ==> (#[trigger] heard_a[i]).modes.len()
                == heard_b[i].modes.len(),
        leads_controls(place, settings, heard_a, gains_a, before_a, after_a),
        leads_controls(place, settings, heard_b, gains_b, before_b, after_b),
    ensures
        heard_a == heard_b,
        alike_beside_gain(place, settings, after_a, after_b),
        alike_at_gain(place, before_a, before_b) ==> gains_a == gains_b && alike_at_gain(
            place,
            after_a,
            after_b,
        ),
{
    let (m_a, g_a) = choose|modulating: Seq<C>, mixing: Seq<C>| #[trigger]
        ways_lead(place, settings, heard_a, gains_a, before_a, after_a, modulating, mixing);
    let (m_b, g_b) = choose|modulating: Seq<C>, mixing: Seq<C>| #[trigger]
        ways_lead(place, settings, heard_b, gains_b, before_b, after_b, modulating, mixing);
    lemma_ways_agree(
        place,
        settings,
        heard_a,
        heard_b,
        gains_a,
        gains_b,
        before_a,
        before_b,
        after_a,
        after_b,
        m_a,
        m_b,
        g_a,
        g_b,
        heard_a.len(),
    );
    assert(heard_a =~= heard_b);
    if alike_at_gain(place, before_a, before_b) {
        assert(gains_a =~= gains_b);
    }
    assert forall|p: SmoothedParam| p != SmoothedParam::OutputGain implies #[trigger] place(
        after_a,
        p,
    ) == place(after_b, p) by {
        assert(place(m_a.last(), p) == place(after_a, p));
        assert(place(m_b.last(), p) == place(after_b, p));
        assert(place(m_a.last(), p) == place(m_b.last(), p));
    }
}

/// Controls that stand alike in everything but the output gain say the same, but for the output gain,
/// in two runs of the same shape, and they end up standing alike. If they stand alike in the output
/// gain too, they say the same of that as well.
pub proof fn law_alike_controls_say_the_same<D: Dsp, C: Controls<D::Sample>, X>(
    place: spec_fn(C, SmoothedParam) -> X,
    settings: spec_fn(C) -> (Mode, StereoMode),
    run_a: Run<D>,
    run_b: Run<D>,
    before_a: C,
    before_b: C,
    after_a: C,
    after_b: C,
)
    requires
        independent::<D::Sample, C, X>(place, settings),
        alike_beside_gain(place, settings, before_a, before_b),
        run_a.heard_from(before_a, after_a),
        run_b.heard_from(before_b, after_b),
        run_a.heard.len() == run_b.heard.len(),
        forall|i: int|
            0 <= i < run_a.heard.len() ==> (#[trigger] run_a.heard[i]).modes.len()
                == run_b.heard[i].modes.len(),
    ensures
        run_a.heard == run_b.heard,
        alike_beside_gain(place, settings, after_a, after_b),
        alike_at_gain(place, before_a, before_b) ==> run_a.gains == run_b.gains && alike_at_gain(
            place,
            after_a,
            after_b,
        ),
{
    lemma_run_leads_controls(place, settings, run_a, before_a, after_a);
    lemma_run_leads_controls(place, settings, run_b, before_b, after_b);
    lemma_controls_agree(
        place,
        settings,
        run_a.heard,
        run_b.heard,
        run_a.gains,
        run_b.gains,
        before_a,
        before_b,
        after_a,
        after_b,
    );
}

/// Where the controls stand, the output gain rests at this value: moving it further gives the value
/// again and stays in place.
pub open spec fn gain_rests_at<S, C: Controls<S>, X>(
    place: spec_fn(C, SmoothedParam) -> X,
    controls: C,
    gain: S,
) -> bool {
    forall|c: C, v: S, d: C| #[trigger]
        crate::flow::moves(c, SmoothedParam::OutputGain, v, d) && alike_at_gain(place, controls, c)
            ==> v == gain && alike_at_gain(place, controls, d)
}

proof fn lemma_gain_rests<S, C: Controls<S>, X>(
    place: spec_fn(C, SmoothedParam) -> X,
    settings: spec_fn(C) -> (Mode, StereoMode),
    heard: Seq<FrameControls<S>>,
    gains: Seq<S>,
    before: C,
    after: C,
    modulating: Seq<C>,
    mixing: Seq<C>,
    gain: S,
    n: nat,
)
    requires
        gain_rests_at(place, before, gain),
        ways_lead(place, settings, heard, gains, before, after, modulating, mixing),
        n <= gains.len(),
    ensures
        forall|i: int| 0 <= i < n ==> gains[i] == gain,
        alike_at_gain(place, before, mixing[n as int]),
    decreases n,
{
    if n > 0 {
        let i = n - 1;
        lemma_gain_rests(
            place,
            settings,
            heard,
            gains,
            before,
            after,
            modulating,
            mixing,
            gain,
            i as nat,
        );
        assert(gain_follows(place, gains[i], mixing[i], mixing[i + 1]));
    }
}

/// An output gain that rests is the same for a whole run, and rests on.
pub proof fn law_resting_gain_stays<D: Dsp, C: Controls<D::Sample>, X>(
    place: spec_fn(C, SmoothedParam) -> X,
    settings: spec_fn(C) -> (Mode, StereoMode),
    gain: D::Sample,
    run: Run<D>,
    before: C,
    after: C,
)
    requires
        independent::<D::Sample, C, X>(place, settings),
        gain_rests_at(place, before, gain),
        run.heard_from(before, after),
    ensures
        forall|i: int| 0 <= i < run.gains.len() ==> #[trigger] run.gains[i] == gain,
        alike_at_gain(place, before, after),
{
    lemma_run_leads_controls(place, settings, run, before, after);
    let (modulating, mixing) = choose|modulating: Seq<C>, mixing: Seq<C>| #[trigger]
        ways_lead(place, settings, run.heard, run.gains, before, after, modulating, mixing);
    lemma_gain_rests(
        place,
        settings,
        run.heard,
        run.gains,
        before,
        after,
        modulating,
        mixing,
        gain,
        run.gains.len(),
    );
}

/// The output gain is a plain gain: two effects in the same state, with the controls standing alike
/// but for an output gain that rests at one and at `gain`, put out the same on the same input, but for
/// that factor. They end up in the same state, and the controls still stand alike. That is so wherever
/// multiplying the mix with one changes nothing.
pub proof fn law_resting_gain_scales_the_output<D: Dsp, C: Controls<D::Sample>, X>(
    place: spec_fn(C, SmoothedParam) -> X,
    settings: spec_fn(C) -> (Mode, StereoMode),
    one: D::Sample,
    gain: D::Sample,
    run_a: Run<D>,
    run_b: Run<D>,
    controls_a: C,
    controls_b: C,
    a: Crisp<D>,
    b: Crisp<D>,
    input: Seq<Seq<D::Sample>>,
    output_a: Seq<Seq<D::Sample>>,
    output_b: Seq<Seq<D::Sample>>,
    after_a: Crisp<D>,
    after_b: Crisp<D>,
    controls_after_a: C,
    controls_after_b: C,
)
    requires
        crate::laws::deterministic::<D>(),
        independent::<D::Sample, C, X>(place, settings),
        alike_beside_gain(place, settings, controls_a, controls_b),
        gain_rests_at(place, controls_a, one),
        gain_rests_at(place, controls_b, gain),
        forall|i: int, c: int, mix: D::Sample, r: D::Sample|
            0 <= i < input.len() && 0 <= c < input[i].len() && #[trigger] call_ensures(
                D::plus,
                (input[i][c], run_a.wet[i][c]),
                mix,
            ) && #[trigger] call_ensures(D::times, (mix, one), r) ==> r == mix,
        a.same_state(b),
        run_a.heard_from(controls_a, controls_after_a),
        run_b.heard_from(controls_b, controls_after_b),
        run_a.leads(a, input, output_a, after_a),
        run_b.leads(b, input, output_b, after_b),
    ensures
        forall|i: int, c: int|
            0 <= i < input.len() && 0 <= c < input[i].len() ==> call_ensures(
                D::times,
                (#[trigger] output_a[i][c], gain),
                output_b[i][c],
            ),
        after_a.same_state(after_b),
        alike_beside_gain(place, settings, controls_after_a, controls_after_b),
{
    crate::laws::lemma_runs_have_modes(
        run_a,
        run_b,
        a,
        b,
        input,
        input,
        output_a,
        output_b,
        after_a,
        after_b,
    );
    law_alike_controls_say_the_same(
        place,
        settings,
        run_a,
        run_b,
        controls_a,
        controls_b,
        controls_after_a,
        controls_after_b,
    );
    law_resting_gain_stays(place, settings, one, run_a, controls_a, controls_after_a);
    law_resting_gain_stays(place, settings, gain, run_b, controls_b, controls_after_b);
    crate::signal_laws::law_output_gain_is_a_plain_gain(
        one,
        run_a,
        run_b,
        a,
        b,
        input,
        output_a,
        output_b,
        after_a,
        after_b,
    );
    assert forall|i: int, c: int|
        0 <= i < input.len() && 0 <= c < input[i].len() implies call_ensures(
        D::times,
        (#[trigger] output_a[i][c], gain),
        output_b[i][c],
    ) by {
        assert(run_b.gains[i] == gain);
    }
}

/// It does not matter where a sound is cut into buffers. As long as moving one parameter leaves alone
/// what the controls say of the others, processing one piece and then the next gives the same output
/// as processing both in one go, and leaves the same state. The controls end up in the same place.
pub proof fn law_cuts_cannot_be_heard<D: Dsp, C: Controls<D::Sample>, X>(
    place: spec_fn(C, SmoothedParam) -> X,
    settings: spec_fn(C) -> (Mode, StereoMode),
    first: Run<D>,
    second: Run<D>,
    whole: Run<D>,
    controls: C,
    controls_between: C,
    controls_after: C,
    controls_after_whole: C,
    before: Crisp<D>,
    between: Crisp<D>,
    after: Crisp<D>,
    before_whole: Crisp<D>,
    after_whole: Crisp<D>,
    first_input: Seq<Seq<D::Sample>>,
    first_output: Seq<Seq<D::Sample>>,
    second_input: Seq<Seq<D::Sample>>,
    second_output: Seq<Seq<D::Sample>>,
    whole_output: Seq<Seq<D::Sample>>,
)
    requires
        crate::laws::deterministic::<D>(),
        independent::<D::Sample, C, X>(place, settings),
        before.same_state(before_whole),
        first.heard_from(controls, controls_between),
        first.leads(before, first_input, first_output, between),
        second.heard_from(controls_between, controls_after),
        second.leads(between, second_input, second_output, after),
        whole.heard_from(controls, controls_after_whole),
        whole.leads(before_whole, first_input + second_input, whole_output, after_whole),
    ensures
        whole_output == first_output + second_output,
        after_whole.same_state(after),
        forall|p: SmoothedParam| #[trigger]
            place(controls_after_whole, p) == place(controls_after, p),
        settings(controls_after_whole) == settings(controls_after),
{
    let joined = first.followed_by(second);
    let input = first_input + second_input;
    let output = first_output + second_output;
    crate::laws::law_runs_concatenate(
        first,
        second,
        before,
        between,
        after,
        first_input,
        first_output,
        second_input,
        second_output,
    );
    lemma_run_leads_controls(place, settings, first, controls, controls_between);
    lemma_run_leads_controls(place, settings, second, controls_between, controls_after);
    lemma_run_leads_controls(place, settings, whole, controls, controls_after_whole);
    lemma_ways_join(
        place,
        settings,
        first.heard,
        first.gains,
        second.heard,
        second.gains,
        controls,
        controls_between,
        controls_after,
    );
    assert forall|i: int| 0 <= i < joined.heard.len() implies (
    #[trigger] joined.heard[i]).modes.len() == whole.heard[i].modes.len() by {
        assert(joined.states[i].modulates_frame(
            input[i],
            joined.heard[i],
            joined.wet[i],
            joined.states[i + 1],
        ));
        assert(whole.states[i].modulates_frame(
            input[i],
            whole.heard[i],
            whole.wet[i],
            whole.states[i + 1],
        ));
    }
    lemma_controls_agree(
        place,
        settings,
        whole.heard,
        joined.heard,
        whole.gains,
        joined.gains,
        controls,
        controls,
        controls_after_whole,
        controls_after,
    );
    crate::laws::law_runs_are_deterministic(
        whole,
        joined,
        before_whole,
        before,
        input,
        whole_output,
        output,
        after_whole,
        after,
    );
}

} // verus!
