use crisp::{
    CrispParams, FilterKind, FloatParam, Formatter, FrequencyInput, Mode, Quantity, Range, Reader,
    Smoothing, StereoMode, Typed,
};

fn whole(value: u32) -> Quantity {
    Quantity::Ratio { numerator: value, denominator: 1 }
}

fn assert_frequency(param: &FloatParam, kind: FilterKind, default: u32) {
    assert_eq!(param.default, whole(default));
    assert_eq!(param.range, Range::Skewed { min: whole(5), max: whole(22_000), skew: -1 });
    assert_eq!(param.smoothing, Smoothing::Logarithmic { milliseconds: 100 });
    assert_eq!(param.unit, "");
    assert_eq!(param.value_to_string, Formatter::Frequency(kind));
    assert_eq!(param.string_to_value, Reader::Frequency(kind));
}

fn assert_resonance(param: &FloatParam) {
    assert_eq!(param.default, Quantity::HalfRootTwo);
    assert_eq!(
        param.range,
        Range::Skewed { min: Quantity::HalfRootTwo, max: whole(10), skew: -1 }
    );
    assert_eq!(param.smoothing, Smoothing::Logarithmic { milliseconds: 100 });
    assert_eq!(param.unit, "");
    assert_eq!(param.value_to_string, Formatter::Rounded { digits: 2 });
    assert_eq!(param.string_to_value, Reader::Number);
}

#[test]
fn the_amount_is_a_percentage() {
    let amount = CrispParams::default().amount;
    assert_eq!(amount.id, "amount");
    assert_eq!(amount.name, "Amount");
    assert_eq!(amount.default, Quantity::Ratio { numerator: 35, denominator: 100 });
    assert_eq!(amount.range, Range::Linear { min: whole(0), max: whole(1) });
    assert_eq!(amount.smoothing, Smoothing::Linear { milliseconds: 10 });
    assert_eq!(amount.unit, "%");
    assert_eq!(amount.value_to_string, Formatter::Percentage { digits: 0 });
    assert_eq!(amount.string_to_value, Reader::Percentage);
}

#[test]
fn the_modes_have_their_defaults() {
    let params = CrispParams::default();
    assert_eq!(params.mode.id, "mode");
    assert_eq!(params.mode.name, "Mode");
    assert_eq!(params.mode.default, Mode::EvenCrispier);
    assert_eq!(params.stereo_mode.id, "stereo");
    assert_eq!(params.stereo_mode.name, "Stereo Mode");
    assert_eq!(params.stereo_mode.default, StereoMode::Stereo);
}

#[test]
fn the_filters_start_out_disabled() {
    let params = CrispParams::default();
    assert_eq!(params.rm_input_lpf_freq.id, "rmlpff");
    assert_eq!(params.rm_input_lpf_freq.name, "RM LP Frequency");
    assert_frequency(&params.rm_input_lpf_freq, FilterKind::LowPass, 22_000);
    assert_eq!(params.noise_hpf_freq.id, "nzhpff");
    assert_eq!(params.noise_hpf_freq.name, "Noise HP Frequency");
    assert_frequency(&params.noise_hpf_freq, FilterKind::HighPass, 5);
    assert_eq!(params.noise_lpf_freq.id, "nzlpff");
    assert_eq!(params.noise_lpf_freq.name, "Noise LP Frequency");
    assert_frequency(&params.noise_lpf_freq, FilterKind::LowPass, 22_000);
}

#[test]
fn the_filters_start_out_without_a_peak() {
    let params = CrispParams::default();
    assert_eq!(params.rm_input_lpf_q.id, "rmlpfq");
    assert_eq!(params.rm_input_lpf_q.name, "RM LP Resonance");
    assert_resonance(&params.rm_input_lpf_q);
    assert_eq!(params.noise_hpf_q.id, "nzhpfq");
    assert_eq!(params.noise_hpf_q.name, "Noise HP Resonance");
    assert_resonance(&params.noise_hpf_q);
    assert_eq!(params.noise_lpf_q.id, "nzlpfq");
    assert_eq!(params.noise_lpf_q.name, "Noise LP Resonance");
    assert_resonance(&params.noise_lpf_q);
}

#[test]
fn the_output_gain_is_shown_in_decibels() {
    let output = CrispParams::default().output_gain;
    assert_eq!(output.id, "output");
    assert_eq!(output.name, "Output");
    assert_eq!(output.default, whole(1));
    assert_eq!(
        output.range,
        Range::Linear { min: Quantity::GainOfDecibels(-24), max: Quantity::GainOfDecibels(0) }
    );
    assert_eq!(output.smoothing, Smoothing::Logarithmic { milliseconds: 10 });
    assert_eq!(output.unit, " dB");
    assert_eq!(output.value_to_string, Formatter::Decibels { digits: 2 });
    assert_eq!(output.string_to_value, Reader::Decibels);
}

#[test]
fn the_ids_are_distinct() {
    let params = CrispParams::default();
    let ids = [
        params.amount.id,
        params.mode.id,
        params.stereo_mode.id,
        params.rm_input_lpf_freq.id,
        params.rm_input_lpf_q.id,
        params.noise_hpf_freq.id,
        params.noise_hpf_q.id,
        params.noise_lpf_freq.id,
        params.noise_lpf_q.id,
        params.output_gain.id,
    ];
    for i in 0..ids.len() {
        for j in 0..i {
            assert_ne!(ids[i], ids[j]);
        }
    }
}

#[test]
fn the_defaults_lie_in_range() {
    let value = |quantity: Quantity| match quantity {
        Quantity::Ratio { numerator, denominator } => numerator as f32 / denominator as f32,
        Quantity::HalfRootTwo => 2.0f32.sqrt() / 2.0,
        Quantity::GainOfDecibels(decibels) => 10.0f32.powf(decibels as f32 * 0.05),
    };
    let params = CrispParams::default();
    for param in [
        params.amount,
        params.rm_input_lpf_freq,
        params.rm_input_lpf_q,
        params.noise_hpf_freq,
        params.noise_hpf_q,
        params.noise_lpf_freq,
        params.noise_lpf_q,
        params.output_gain,
    ] {
        let (min, max) = match param.range {
            Range::Linear { min, max } => (min, max),
            Range::Skewed { min, max, .. } => (min, max),
        };
        assert!(value(min) <= value(param.default));
        assert!(value(param.default) <= value(max));
    }
}

fn show(param: &FloatParam, value: f32) -> String {
    let written = format!("{:.*}", param.value_to_string.digits(), value);
    param.value_to_string.show(value.to_bits(), &written)
}

fn read_frequency(param: &FloatParam, text: &str) -> f32 {
    match param.string_to_value.read(text) {
        Typed::Frequency(FrequencyInput::Disabled(frequency)) => frequency as f32,
        Typed::Frequency(FrequencyInput::Number(number)) => number.parse().unwrap(),
        Typed::Number(_) => unreachable!(),
    }
}

fn read_number(param: &FloatParam, text: &str) -> String {
    match param.string_to_value.read(text) {
        Typed::Number(number) => number,
        Typed::Frequency(_) => unreachable!(),
    }
}

#[test]
fn digits_after_the_point() {
    let params = CrispParams::default();
    assert_eq!(params.amount.value_to_string.digits(), 0);
    assert_eq!(params.rm_input_lpf_freq.value_to_string.digits(), 0);
    assert_eq!(params.noise_hpf_q.value_to_string.digits(), 2);
    assert_eq!(params.output_gain.value_to_string.digits(), 2);
}

#[test]
fn frequencies_survive_but_for_rounding() {
    let params = CrispParams::default();
    for param in [&params.rm_input_lpf_freq, &params.noise_hpf_freq, &params.noise_lpf_freq] {
        for value in [5.0f32, 6.0, 440.0, 440.4, 999.51, 21_999.0, 22_000.0] {
            let read = read_frequency(param, &show(param, value));
            assert!((read - value).abs() <= 0.5);
            if value.fract() == 0.0 {
                assert_eq!(read, value);
            }
        }
    }
    assert_eq!(show(&params.rm_input_lpf_freq, 22_000.0), "Disabled");
    assert_eq!(show(&params.noise_hpf_freq, 22_000.0), "22000 Hz");
    assert_eq!(show(&params.noise_hpf_freq, 5.0), "Disabled");
    assert_eq!(show(&params.noise_lpf_freq, 440.4), "440 Hz");
}

#[test]
fn decibels_read_back_with_and_without_the_unit() {
    let gain = CrispParams::default().output_gain;
    let shown = show(&gain, -12.345);
    assert_eq!(shown, "-12.35");
    assert_eq!(read_number(&gain, &shown), "-12.35");
    assert_eq!(read_number(&gain, &format!("{}{}", shown, gain.unit)), "-12.35");
}

#[test]
fn other_numbers_are_read_as_they_are_typed() {
    let params = CrispParams::default();
    assert_eq!(show(&params.noise_lpf_q, 0.707), "0.71");
    assert_eq!(read_number(&params.noise_lpf_q, " 1.5 dB"), " 1.5 dB");
    assert_eq!(read_number(&params.amount, "35%"), "35%");
}
