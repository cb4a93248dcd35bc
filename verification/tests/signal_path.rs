use crisp::{
    initial_prng_seed, Biquad, BufferConfig, BusConfig, Controls, Crisp, Dsp, Mode, Pcg32iState,
    ProcessStatus, SmoothedParam, StereoMode,
};

/// Single precision arithmetic, with one-pole filters.
struct Single;

impl Dsp for Single {
    type Sample = f32;
    type Coefficients = (f32, f32);
    type Memory = f32;

    fn constant(value: i8) -> f32 {
        f32::from(value)
    }

    fn uniform(word: u32) -> f32 {
        ((word >> 8) as f32 + 0.5) / 16_777_216.0
    }

    fn plus(a: f32, b: f32) -> f32 {
        a + b
    }

    fn minus(a: f32, b: f32) -> f32 {
        a - b
    }

    fn times(a: f32, b: f32) -> f32 {
        a * b
    }

    fn max(a: f32, b: f32) -> f32 {
        a.max(b)
    }

    fn min(a: f32, b: f32) -> f32 {
        a.min(b)
    }

    fn default_coefficients() -> (f32, f32) {
        (1.0, 0.0)
    }

    fn lowpass(sample_rate: f32, frequency: f32, q: f32) -> (f32, f32) {
        (frequency / sample_rate, q * 0.125)
    }

    fn highpass(sample_rate: f32, frequency: f32, q: f32) -> (f32, f32) {
        (-frequency / sample_rate, q * 0.25)
    }

    fn cleared_memory() -> f32 {
        0.0
    }

    fn filter_step(coefficients: (f32, f32), memory: f32, sample: f32) -> (f32, f32) {
        let output = coefficients.0 * sample + coefficients.1 * memory;
        (output, output)
    }
}

/// Controls that move each parameter for a number of steps, and keep track of what they are asked.
#[derive(Clone, Copy)]
struct Knobs {
    mode: Mode,
    stereo_mode: StereoMode,
    values: [f32; 8],
    steps_left: [u32; 8],
    asked: [u32; 8],
    /// The last 32 parameters that were moved, as hexadecimal digits that start at one.
    trace: u128,
}

fn index(param: SmoothedParam) -> usize {
    match param {
        SmoothedParam::Amount => 0,
        SmoothedParam::RmInputLpfFreq => 1,
        SmoothedParam::RmInputLpfQ => 2,
        SmoothedParam::NoiseHpfFreq => 3,
        SmoothedParam::NoiseHpfQ => 4,
        SmoothedParam::NoiseLpfFreq => 5,
        SmoothedParam::NoiseLpfQ => 6,
        SmoothedParam::OutputGain => 7,
    }
}

impl Knobs {
    fn new(mode: Mode, stereo_mode: StereoMode, steps: [u32; 8]) -> Knobs {
        Knobs {
            mode,
            stereo_mode,
            values: [0.5, 900.0, 0.75, 40.0, 1.5, 700.0, 2.5, 0.25],
            steps_left: steps,
            asked: [0; 8],
            trace: 0,
        }
    }

    fn still(mode: Mode, stereo_mode: StereoMode) -> Knobs {
        Knobs::new(mode, stereo_mode, [0; 8])
    }
}

impl Controls<f32> for Knobs {
    fn next_value(&mut self, param: SmoothedParam) -> f32 {
        let i = index(param);
        self.asked[i] += 1;
        self.trace = (self.trace << 4) + i as u128 + 1;
        if self.steps_left[i] > 0 {
            self.steps_left[i] -= 1;
            self.values[i] *= 1.03125;
        }
        self.values[i]
    }

    fn is_smoothing(&self, param: SmoothedParam) -> bool {
        self.steps_left[index(param)] > 0
    }

    fn mode(&self) -> Mode {
        self.mode
    }

    fn stereo_mode(&self) -> StereoMode {
        self.stereo_mode
    }
}

fn sound(channels: usize, length: usize) -> Vec<Vec<f32>> {
    let mut prng = Pcg32iState::new(1, 2);
    (0..channels)
        .map(|_| (0..length).map(|_| Single::uniform(prng.next_u32()) * 2.0 - 1.0).collect())
        .collect()
}

fn bits(buffer: &[Vec<f32>]) -> Vec<Vec<u32>> {
    buffer.iter().map(|channel| channel.iter().map(|s| s.to_bits()).collect()).collect()
}

fn run(filter: &mut Biquad<Single>, sample: f32) -> f32 {
    let output = filter.coefficients.0 * sample + filter.coefficients.1 * filter.memory;
    filter.memory = output;
    output
}

/// The effect, sample by sample and without blocks.
fn expected(crisp: &mut Crisp<Single>, buffer: &mut [Vec<f32>], knobs: &mut Knobs) {
    let channels = buffer.len().min(2);
    let length = if channels == 0 { 0 } else { buffer[0].len() };
    for i in 0..length {
        let amount = knobs.next_value(SmoothedParam::Amount) * 2.0;
        if knobs.is_smoothing(SmoothedParam::RmInputLpfFreq)
            || knobs.is_smoothing(SmoothedParam::RmInputLpfQ)
        {
            let f = knobs.next_value(SmoothedParam::RmInputLpfFreq);
            let q = knobs.next_value(SmoothedParam::RmInputLpfQ);
            for filter in &mut crisp.rm_input_lpf {
                filter.coefficients = Single::lowpass(crisp.sample_rate, f, q);
            }
        }
        if knobs.is_smoothing(SmoothedParam::NoiseHpfFreq)
            || knobs.is_smoothing(SmoothedParam::NoiseHpfQ)
        {
            let f = knobs.next_value(SmoothedParam::NoiseHpfFreq);
            let q = knobs.next_value(SmoothedParam::NoiseHpfQ);
            for filter in &mut crisp.noise_hpf {
                filter.coefficients = Single::highpass(crisp.sample_rate, f, q);
            }
        }
        if knobs.is_smoothing(SmoothedParam::NoiseLpfFreq)
            || knobs.is_smoothing(SmoothedParam::NoiseLpfQ)
        {
            let f = knobs.next_value(SmoothedParam::NoiseLpfFreq);
            let q = knobs.next_value(SmoothedParam::NoiseLpfQ);
            for filter in &mut crisp.noise_lpf {
                filter.coefficients = Single::lowpass(crisp.sample_rate, f, q);
            }
        }
        let gain = knobs.next_value(SmoothedParam::OutputGain);
        let mut noise = 0.0;
        for c in 0..channels {
            if c == 0 || knobs.stereo_mode == StereoMode::Stereo {
                let white = Single::uniform(crisp.prng.next_u32()) * 2.0 - 1.0;
                let high_passed = run(&mut crisp.noise_hpf[c], white);
                noise = run(&mut crisp.noise_lpf[c], high_passed);
            }
            let filtered = run(&mut crisp.rm_input_lpf[c], buffer[c][i]);
            let part = match knobs.mode {
                Mode::Crispy => filtered,
                Mode::EvenCrispier => filtered.max(0.0),
                Mode::EvenCrispierNegated => filtered.min(0.0),
            };
            buffer[c][i] = (buffer[c][i] + part * noise * amount) * gain;
        }
    }
}

fn process(
    crisp: &mut Crisp<Single>,
    buffer: &mut Vec<Vec<f32>>,
    knobs: &mut Knobs,
) -> ProcessStatus {
    let (status, after) = crisp.process(buffer, *knobs);
    *knobs = after;
    status
}

fn assert_same_state(a: &Crisp<Single>, b: &Crisp<Single>) {
    assert_eq!(a.sample_rate.to_bits(), b.sample_rate.to_bits());
    assert_eq!(a.prng, b.prng);
    for c in 0..2 {
        assert_eq!(a.rm_input_lpf[c].coefficients, b.rm_input_lpf[c].coefficients);
        assert_eq!(a.rm_input_lpf[c].memory, b.rm_input_lpf[c].memory);
        assert_eq!(a.noise_hpf[c].coefficients, b.noise_hpf[c].coefficients);
        assert_eq!(a.noise_hpf[c].memory, b.noise_hpf[c].memory);
        assert_eq!(a.noise_lpf[c].coefficients, b.noise_lpf[c].coefficients);
        assert_eq!(a.noise_lpf[c].memory, b.noise_lpf[c].memory);
    }
}

fn check_against_expected(mode: Mode, stereo_mode: StereoMode, channels: usize, length: usize) {
    let mut knobs = Knobs::new(mode, stereo_mode, [90, 10, 0, 0, 70, 3, 66, 20]);
    let mut other_knobs = knobs;
    let mut crisp = Crisp::<Single>::default();
    let mut other = Crisp::<Single>::default();
    knobs = crisp.initialize(&BufferConfig { sample_rate: 48_000.0 }, knobs).1;
    other_knobs = other.initialize(&BufferConfig { sample_rate: 48_000.0 }, other_knobs).1;
    let mut buffer = sound(channels, length);
    let mut other_buffer = buffer.clone();
    assert_eq!(process(&mut crisp, &mut buffer, &mut knobs), ProcessStatus::Normal);
    expected(&mut other, &mut other_buffer, &mut other_knobs);
    assert_eq!(bits(&buffer), bits(&other_buffer));
    assert_same_state(&crisp, &other);
    assert_eq!(knobs.asked, other_knobs.asked);
}

#[test]
fn processes_stereo_buffers_of_all_lengths() {
    for length in [0, 1, 2, 63, 64, 65, 127, 128, 129, 200] {
        check_against_expected(Mode::EvenCrispier, StereoMode::Stereo, 2, length);
        check_against_expected(Mode::Crispy, StereoMode::Stereo, 2, length);
        check_against_expected(Mode::EvenCrispierNegated, StereoMode::Stereo, 2, length);
    }
}

#[test]
fn processes_mono_noise_buffers_of_all_lengths() {
    for length in [0, 1, 2, 63, 64, 65, 127, 128, 129, 200] {
        check_against_expected(Mode::EvenCrispier, StereoMode::Mono, 2, length);
        check_against_expected(Mode::Crispy, StereoMode::Mono, 2, length);
        check_against_expected(Mode::EvenCrispierNegated, StereoMode::Mono, 2, length);
    }
}

#[test]
fn processes_a_single_channel() {
    check_against_expected(Mode::EvenCrispier, StereoMode::Stereo, 1, 70);
    check_against_expected(Mode::EvenCrispier, StereoMode::Mono, 1, 70);
}

#[test]
fn leaves_a_buffer_without_channels_alone() {
    let mut knobs = Knobs::still(Mode::Crispy, StereoMode::Stereo);
    let mut crisp = Crisp::<Single>::default();
    let mut buffer: Vec<Vec<f32>> = Vec::new();
    assert_eq!(process(&mut crisp, &mut buffer, &mut knobs), ProcessStatus::Normal);
    assert!(buffer.is_empty());
    assert_eq!(crisp.prng, initial_prng_seed());
}

#[test]
fn leaves_further_channels_alone() {
    let mut knobs = Knobs::still(Mode::Crispy, StereoMode::Stereo);
    let mut crisp = Crisp::<Single>::default();
    let mut buffer = sound(4, 100);
    let before = buffer.clone();
    process(&mut crisp, &mut buffer, &mut knobs);
    assert_ne!(buffer[0], before[0]);
    assert_ne!(buffer[1], before[1]);
    assert_eq!(buffer[2], before[2]);
    assert_eq!(buffer[3], before[3]);
}

#[test]
fn one_frame_by_hand() {
    // All filters pass samples through, the amount is 0.5 and the gain 0.25.
    let mut knobs = Knobs::still(Mode::Crispy, StereoMode::Mono);
    let mut crisp = Crisp::<Single>::default();
    let mut prng = initial_prng_seed();
    let noise = Single::uniform(prng.next_u32()) * 2.0 - 1.0;
    let mut buffer = vec![vec![0.5], vec![-0.25]];
    process(&mut crisp, &mut buffer, &mut knobs);
    assert_eq!(buffer[0][0], (0.5 + 0.5 * noise) * 0.25);
    assert_eq!(buffer[1][0], (-0.25 + -0.25 * noise) * 0.25);
    assert_eq!(crisp.prng, prng);
}

#[test]
fn the_modes_pick_their_part_of_the_waveform() {
    let ring_mod = |mode: Mode, sample: f32| {
        let knobs = Knobs::still(mode, StereoMode::Mono);
        Crisp::<Single>::default().do_ring_mod(sample, 1, 0.5, &knobs)
    };
    assert_eq!(ring_mod(Mode::Crispy, 0.75), 0.375);
    assert_eq!(ring_mod(Mode::Crispy, -0.75), -0.375);
    assert_eq!(ring_mod(Mode::EvenCrispier, 0.75), 0.375);
    assert_eq!(ring_mod(Mode::EvenCrispier, -0.75), 0.0);
    assert_eq!(ring_mod(Mode::EvenCrispierNegated, 0.75), 0.0);
    assert_eq!(ring_mod(Mode::EvenCrispierNegated, -0.75), -0.375);
}

#[test]
fn ring_modulation_filters_only_its_channel() {
    let knobs = Knobs::still(Mode::Crispy, StereoMode::Mono);
    let mut crisp = Crisp::<Single>::default();
    for filter in &mut crisp.rm_input_lpf {
        filter.coefficients = (0.5, 0.25);
    }
    assert_eq!(crisp.do_ring_mod(1.0, 0, 2.0, &knobs), 1.0);
    assert_eq!(crisp.rm_input_lpf[0].memory, 0.5);
    assert_eq!(crisp.rm_input_lpf[1].memory, 0.0);
    assert_eq!(crisp.do_ring_mod(1.0, 0, 2.0, &knobs), 1.25);
}

#[test]
fn noise_goes_through_both_filters_of_its_channel() {
    let mut crisp = Crisp::<Single>::default();
    for filter in &mut crisp.noise_hpf {
        filter.coefficients = (0.5, 0.0);
    }
    for filter in &mut crisp.noise_lpf {
        filter.coefficients = (0.25, 0.0);
    }
    let mut prng = initial_prng_seed();
    let first = Single::uniform(prng.next_u32()) * 2.0 - 1.0;
    let second = Single::uniform(prng.next_u32()) * 2.0 - 1.0;
    assert_eq!(crisp.gen_noise(1), first * 0.5 * 0.25);
    assert_eq!(crisp.noise_hpf[0].memory, 0.0);
    assert_eq!(crisp.noise_hpf[1].memory, first * 0.5);
    assert_eq!(crisp.gen_noise(0), second * 0.5 * 0.25);
    assert_eq!(crisp.noise_lpf[0].memory, second * 0.5 * 0.25);
    assert_eq!(crisp.prng, prng);
}

#[test]
fn starts_out_fresh() {
    let crisp = Crisp::<Single>::default();
    assert_eq!(crisp.sample_rate, 1.0);
    assert_eq!(crisp.prng, Pcg32iState::new(69, 420));
    for bank in [&crisp.rm_input_lpf, &crisp.noise_hpf, &crisp.noise_lpf] {
        for filter in bank {
            assert_eq!(filter.coefficients, (1.0, 0.0));
            assert_eq!(filter.memory, 0.0);
        }
    }
}

#[test]
fn accepts_only_stereo() {
    let crisp = Crisp::<Single>::default();
    let accepts = |inputs: u32, outputs: u32| {
        crisp.accepts_bus_config(&BusConfig {
            num_input_channels: inputs,
            num_output_channels: outputs,
        })
    };
    assert!(accepts(2, 2));
    assert!(!accepts(1, 1));
    assert!(!accepts(2, 1));
    assert!(!accepts(1, 2));
    assert!(!accepts(0, 0));
    assert!(!accepts(3, 3));
}

#[test]
fn initializing_designs_all_filters() {
    let knobs = Knobs::still(Mode::Crispy, StereoMode::Mono);
    let mut crisp = Crisp::<Single>::default();
    crisp.noise_hpf[1].memory = 0.5;
    let (ready, _) = crisp.initialize(&BufferConfig { sample_rate: 1_000.0 }, knobs);
    assert!(ready);
    assert_eq!(crisp.sample_rate, 1_000.0);
    for c in 0..2 {
        assert_eq!(crisp.rm_input_lpf[c].coefficients, Single::lowpass(1_000.0, 900.0, 0.75));
        assert_eq!(crisp.noise_hpf[c].coefficients, Single::highpass(1_000.0, 40.0, 1.5));
        assert_eq!(crisp.noise_lpf[c].coefficients, Single::lowpass(1_000.0, 700.0, 2.5));
    }
    assert_eq!(crisp.noise_hpf[1].memory, 0.5);
    assert_eq!(crisp.prng, initial_prng_seed());
}

#[test]
fn updates_only_filters_on_the_move() {
    // Only the resonance of the high-pass filter moves.
    let mut knobs = Knobs::new(Mode::Crispy, StereoMode::Mono, [0, 0, 0, 0, 1, 0, 0, 0]);
    let mut crisp = Crisp::<Single>::default();
    knobs = crisp.maybe_update_filters(knobs);
    for c in 0..2 {
        assert_eq!(crisp.rm_input_lpf[c].coefficients, (1.0, 0.0));
        assert_eq!(crisp.noise_hpf[c].coefficients, Single::highpass(1.0, 40.0, 1.5 * 1.03125));
        assert_eq!(crisp.noise_lpf[c].coefficients, (1.0, 0.0));
    }
    assert_eq!(knobs.asked, [0, 0, 0, 1, 1, 0, 0, 0]);
    knobs = crisp.maybe_update_filters(knobs);
    assert_eq!(knobs.asked, [0, 0, 0, 1, 1, 0, 0, 0]);
}

#[test]
fn updates_one_bank_at_a_time() {
    let mut knobs = Knobs::still(Mode::Crispy, StereoMode::Mono);
    let mut crisp = Crisp::<Single>::default();
    knobs = crisp.update_rm_input_lpf(knobs);
    assert_eq!(crisp.rm_input_lpf[0].coefficients, Single::lowpass(1.0, 900.0, 0.75));
    assert_eq!(crisp.noise_hpf[0].coefficients, (1.0, 0.0));
    assert_eq!(crisp.noise_lpf[0].coefficients, (1.0, 0.0));
    knobs = crisp.update_noise_lpf(knobs);
    assert_eq!(crisp.noise_hpf[1].coefficients, (1.0, 0.0));
    assert_eq!(crisp.noise_lpf[1].coefficients, Single::lowpass(1.0, 700.0, 2.5));
    crisp.update_noise_hpf(knobs);
    assert_eq!(crisp.noise_hpf[1].coefficients, Single::highpass(1.0, 40.0, 1.5));
}

#[test]
fn reset_starts_over() {
    let mut knobs = Knobs::still(Mode::EvenCrispier, StereoMode::Stereo);
    let mut crisp = Crisp::<Single>::default();
    knobs = crisp.initialize(&BufferConfig { sample_rate: 44_100.0 }, knobs).1;
    process(&mut crisp, &mut sound(2, 77), &mut knobs);
    assert_ne!(crisp.prng, initial_prng_seed());
    crisp.reset();
    assert_eq!(crisp.prng, initial_prng_seed());
    assert_eq!(crisp.sample_rate, 44_100.0);
    for c in 0..2 {
        assert_eq!(crisp.rm_input_lpf[c].coefficients, Single::lowpass(44_100.0, 900.0, 0.75));
        assert_eq!(crisp.rm_input_lpf[c].memory, 0.0);
        assert_eq!(crisp.noise_hpf[c].memory, 0.0);
        assert_eq!(crisp.noise_lpf[c].memory, 0.0);
    }
}

#[test]
fn bouncing_twice_gives_the_same_sound() {
    let mut knobs = Knobs::still(Mode::EvenCrispier, StereoMode::Stereo);
    let mut crisp = Crisp::<Single>::default();
    knobs = crisp.initialize(&BufferConfig { sample_rate: 48_000.0 }, knobs).1;
    let mut first = sound(2, 150);
    process(&mut crisp, &mut first, &mut knobs);
    let mut without_reset = sound(2, 150);
    process(&mut crisp, &mut without_reset, &mut knobs);
    assert_ne!(bits(&first), bits(&without_reset));
    crisp.reset();
    let mut second = sound(2, 150);
    process(&mut crisp, &mut second, &mut knobs);
    assert_eq!(bits(&first), bits(&second));
}

#[test]
fn cutting_a_sound_into_buffers_does_not_matter() {
    let steps = [90, 10, 0, 0, 70, 3, 66, 120];
    for cut in [0, 1, 31, 63, 64, 65, 100, 149, 150] {
        let mut knobs = Knobs::new(Mode::EvenCrispier, StereoMode::Stereo, steps);
        let mut other_knobs = knobs;
        let mut whole = sound(2, 150);
        let mut crisp = Crisp::<Single>::default();
        process(&mut crisp, &mut whole, &mut knobs);
        let input = sound(2, 150);
        let mut head: Vec<Vec<f32>> = input.iter().map(|c| c[..cut].to_vec()).collect();
        let mut tail: Vec<Vec<f32>> = input.iter().map(|c| c[cut..].to_vec()).collect();
        let mut other = Crisp::<Single>::default();
        process(&mut other, &mut head, &mut other_knobs);
        process(&mut other, &mut tail, &mut other_knobs);
        for c in 0..2 {
            head[c].extend_from_slice(&tail[c]);
        }
        assert_eq!(bits(&whole), bits(&head));
        assert_same_state(&crisp, &other);
        assert_eq!(knobs.values, other_knobs.values);
        assert_eq!(knobs.steps_left, other_knobs.steps_left);
    }
}

#[test]
fn mono_noise_keeps_equal_channels_equal() {
    let channel = sound(1, 100).remove(0);
    let mut crisp = Crisp::<Single>::default();
    let mut buffer = vec![channel.clone(), channel.clone()];
    process(&mut crisp, &mut buffer, &mut Knobs::still(Mode::EvenCrispier, StereoMode::Mono));
    assert_eq!(buffer[0], buffer[1]);
    let mut buffer = vec![channel.clone(), channel];
    process(&mut crisp, &mut buffer, &mut Knobs::still(Mode::EvenCrispier, StereoMode::Stereo));
    assert_ne!(buffer[0], buffer[1]);
}

#[test]
fn noise_is_taken_in_order() {
    let mut crisp = Crisp::<Single>::default();
    let mut prng = initial_prng_seed();
    process(&mut crisp, &mut sound(2, 70), &mut Knobs::still(Mode::Crispy, StereoMode::Mono));
    for _ in 0..70 {
        prng.next_u32();
    }
    assert_eq!(crisp.prng, prng);
    process(&mut crisp, &mut sound(2, 5), &mut Knobs::still(Mode::Crispy, StereoMode::Stereo));
    for _ in 0..10 {
        prng.next_u32();
    }
    assert_eq!(crisp.prng, prng);
}

#[test]
fn still_controls_keep_the_filters() {
    let mut knobs = Knobs::still(Mode::Crispy, StereoMode::Stereo);
    let mut crisp = Crisp::<Single>::default();
    process(&mut crisp, &mut sound(2, 70), &mut knobs);
    for bank in [&crisp.rm_input_lpf, &crisp.noise_hpf, &crisp.noise_lpf] {
        for filter in bank {
            assert_eq!(filter.coefficients, (1.0, 0.0));
        }
    }
    assert_eq!(knobs.asked[0], 70);
    assert_eq!(knobs.asked[1], 0);
    assert_eq!(knobs.asked[7], 70);
}

#[test]
fn parameters_are_moved_in_order() {
    // Two frames: their amounts, and then their gains.
    let mut knobs = Knobs::still(Mode::Crispy, StereoMode::Stereo);
    let mut crisp = Crisp::<Single>::default();
    process(&mut crisp, &mut sound(2, 2), &mut knobs);
    assert_eq!(knobs.trace, 0x1188);
    // The filters on the move follow the amount of their frame.
    let mut knobs = Knobs::new(Mode::Crispy, StereoMode::Mono, [0, 1, 0, 0, 2, 0, 1, 0]);
    process(&mut crisp, &mut sound(2, 3), &mut knobs);
    assert_eq!(knobs.trace, 0x1234567_145_1_888);
    // Each block is finished before the next one.
    let mut knobs = Knobs::still(Mode::Crispy, StereoMode::Stereo);
    process(&mut crisp, &mut sound(2, 65), &mut knobs);
    assert_eq!(knobs.trace & 0xffff, 0x8818);
    // Designing all filters asks for each of their parameters once.
    let mut knobs = Knobs::still(Mode::Crispy, StereoMode::Stereo);
    knobs = crisp.initialize(&BufferConfig { sample_rate: 48_000.0 }, knobs).1;
    assert_eq!(knobs.trace, 0x234567);
}

#[test]
fn the_same_position_of_the_controls_gives_the_same_sound() {
    let mut knobs = Knobs::new(Mode::Crispy, StereoMode::Stereo, [70, 20, 0, 5, 66, 0, 9, 90]);
    let mut other_knobs = knobs;
    let mut crisp = Crisp::<Single>::default();
    let mut other = Crisp::<Single>::default();
    let mut buffer = sound(2, 100);
    let mut other_buffer = buffer.clone();
    process(&mut crisp, &mut buffer, &mut knobs);
    process(&mut other, &mut other_buffer, &mut other_knobs);
    assert_eq!(bits(&buffer), bits(&other_buffer));
    assert_same_state(&crisp, &other);
    assert_eq!(knobs.trace, other_knobs.trace);
    assert_eq!(knobs.steps_left, other_knobs.steps_left);
}

#[test]
fn cutting_a_sound_at_the_end_of_a_block_asks_the_controls_the_same() {
    let mut knobs = Knobs::new(Mode::Crispy, StereoMode::Stereo, [70, 0, 0, 0, 66, 0, 0, 90]);
    let mut other_knobs = knobs;
    process(&mut Crisp::default(), &mut sound(2, 70), &mut knobs);
    let mut crisp = Crisp::<Single>::default();
    process(&mut crisp, &mut sound(2, 64), &mut other_knobs);
    process(&mut crisp, &mut sound(2, 6), &mut other_knobs);
    assert_eq!(knobs.trace, other_knobs.trace);
    assert_eq!(knobs.asked, other_knobs.asked);
}

#[test]
fn both_channels_always_share_their_coefficients() {
    let mut knobs = Knobs::new(Mode::Crispy, StereoMode::Stereo, [90, 10, 0, 0, 70, 3, 66, 20]);
    let mut crisp = Crisp::<Single>::default();
    process(&mut crisp, &mut sound(2, 9), &mut knobs);
    for bank in [&crisp.rm_input_lpf, &crisp.noise_hpf, &crisp.noise_lpf] {
        assert_eq!(bank[0].coefficients, bank[1].coefficients);
        assert_ne!(bank[0].coefficients, (1.0, 0.0));
    }
}

#[test]
fn one_channel_does_not_reach_the_other() {
    for stereo_mode in [StereoMode::Mono, StereoMode::Stereo] {
        for channel in [0, 1] {
            let mut knobs = Knobs::new(Mode::EvenCrispier, stereo_mode, [9, 9, 0, 70, 0, 8, 0, 3]);
            let mut other_knobs = knobs;
            let mut crisp = Crisp::<Single>::default();
            let mut other = Crisp::<Single>::default();
            let mut buffer = sound(2, 80);
            let mut other_buffer = buffer.clone();
            other_buffer[1 - channel] = vec![0.125; 80];
            process(&mut crisp, &mut buffer, &mut knobs);
            process(&mut other, &mut other_buffer, &mut other_knobs);
            assert_eq!(buffer[channel], other_buffer[channel]);
            assert_ne!(buffer[1 - channel], other_buffer[1 - channel]);
            assert_eq!(crisp.prng, other.prng);
            for c in 0..2 {
                assert_eq!(crisp.noise_hpf[c].memory, other.noise_hpf[c].memory);
                assert_eq!(crisp.noise_lpf[c].memory, other.noise_lpf[c].memory);
            }
        }
    }
}

#[test]
fn the_output_gain_scales_the_whole_output() {
    let mut unity = Knobs::still(Mode::Crispy, StereoMode::Stereo);
    unity.values[7] = 1.0;
    let mut quiet = unity;
    quiet.values[7] = 0.3;
    let mut crisp = Crisp::<Single>::default();
    let mut other = Crisp::<Single>::default();
    let mut loud_buffer = sound(2, 70);
    let mut quiet_buffer = loud_buffer.clone();
    process(&mut crisp, &mut loud_buffer, &mut unity);
    process(&mut other, &mut quiet_buffer, &mut quiet);
    for c in 0..2 {
        for i in 0..70 {
            assert_eq!(quiet_buffer[c][i], loud_buffer[c][i] * 0.3);
        }
    }
    assert_same_state(&crisp, &other);
}

#[test]
fn half_waves_add_up_and_opposite_noise_negates() {
    for sample in [0.75, -0.75, 0.0] {
        for noise in [0.5f32, -0.3] {
            let ring_mod = |mode: Mode, noise: f32| {
                let knobs = Knobs::still(mode, StereoMode::Mono);
                Crisp::<Single>::default().do_ring_mod(sample, 0, noise, &knobs)
            };
            let full = ring_mod(Mode::Crispy, noise);
            let upper = ring_mod(Mode::EvenCrispier, noise);
            let lower = ring_mod(Mode::EvenCrispierNegated, noise);
            assert_eq!(full, upper + lower);
            assert!(upper == 0.0 || lower == 0.0);
            for mode in [Mode::Crispy, Mode::EvenCrispier, Mode::EvenCrispierNegated] {
                assert_eq!(ring_mod(mode, -noise), -ring_mod(mode, noise));
                assert_eq!(ring_mod(mode, 0.0), 0.0);
            }
        }
    }
}

#[test]
fn both_channels_draw_from_one_random_sequence() {
    let mut left = Crisp::<Single>::default();
    let mut right = Crisp::<Single>::default();
    for _ in 0..5 {
        assert_eq!(left.gen_noise(0), right.gen_noise(1));
        assert_eq!(left.prng, right.prng);
    }
}

#[test]
fn a_second_update_at_rest_changes_nothing() {
    let knobs = Knobs::still(Mode::Crispy, StereoMode::Mono);
    let mut crisp = Crisp::<Single>::default();
    let knobs = crisp.update_rm_input_lpf(knobs);
    let knobs = crisp.update_noise_hpf(knobs);
    let knobs = crisp.update_noise_lpf(knobs);
    let mut other = Crisp::<Single>::default();
    let other_knobs = other.update_rm_input_lpf(knobs);
    let other_knobs = other.update_rm_input_lpf(other_knobs);
    let other_knobs = other.update_noise_hpf(other_knobs);
    let other_knobs = other.update_noise_hpf(other_knobs);
    let other_knobs = other.update_noise_lpf(other_knobs);
    other.update_noise_lpf(other_knobs);
    assert_same_state(&crisp, &other);
}

#[test]
fn a_second_reset_changes_nothing() {
    let mut crisp = Crisp::<Single>::default();
    crisp.reset();
    assert_same_state(&crisp, &Crisp::default());
    let mut knobs = Knobs::still(Mode::Crispy, StereoMode::Stereo);
    process(&mut crisp, &mut sound(2, 20), &mut knobs);
    crisp.reset();
    let mut other = Crisp::<Single>::default();
    process(&mut other, &mut sound(2, 20), &mut knobs);
    other.reset();
    other.reset();
    assert_same_state(&crisp, &other);
}

#[test]
fn a_filter_forgets_on_reset() {
    let mut filter = Biquad::<Single>::default();
    filter.coefficients = (2.0, 1.0);
    assert_eq!(filter.process(1.0), 2.0);
    assert_eq!(filter.process(1.0), 4.0);
    filter.reset();
    assert_eq!(filter.coefficients, (2.0, 1.0));
    assert_eq!(filter.process(1.0), 2.0);
    let copy = filter.clone();
    assert_eq!(copy.memory, 2.0);
}
