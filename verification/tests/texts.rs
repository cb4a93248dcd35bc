use crisp::float_bits::{is_at_max_frequency, is_at_min_frequency};
use crisp::{
    frequency_to_string, string_to_decibels, string_to_frequency, FilterKind, FrequencyInput,
};

fn number(kind: FilterKind, text: &str) -> String {
    match string_to_frequency(kind, text) {
        FrequencyInput::Number(number) => number,
        FrequencyInput::Disabled(_) => panic!("read as disabled"),
    }
}

fn disabling(kind: FilterKind, text: &str) -> u32 {
    match string_to_frequency(kind, text) {
        FrequencyInput::Number(_) => panic!("read as a number"),
        FrequencyInput::Disabled(frequency) => frequency,
    }
}

fn show(kind: FilterKind, frequency: f32) -> String {
    frequency_to_string(kind, frequency.to_bits(), &format!("{:.0}", frequency))
}

#[test]
fn frequencies_are_shown_in_hertz() {
    assert_eq!(show(FilterKind::LowPass, 440.0), "440 Hz");
    assert_eq!(show(FilterKind::LowPass, 21_999.0), "21999 Hz");
    assert_eq!(show(FilterKind::LowPass, 5.0), "5 Hz");
    assert_eq!(show(FilterKind::HighPass, 440.4), "440 Hz");
    assert_eq!(show(FilterKind::HighPass, 5.01), "5 Hz");
    assert_eq!(show(FilterKind::HighPass, 22_000.0), "22000 Hz");
}

#[test]
fn disabled_filters_are_shown_as_such() {
    assert_eq!(show(FilterKind::LowPass, 22_000.0), "Disabled");
    assert_eq!(show(FilterKind::LowPass, 30_000.0), "Disabled");
    assert_eq!(show(FilterKind::LowPass, f32::INFINITY), "Disabled");
    assert_eq!(show(FilterKind::HighPass, 5.0), "Disabled");
    assert_eq!(show(FilterKind::HighPass, 0.0), "Disabled");
    assert_eq!(show(FilterKind::HighPass, -1.0), "Disabled");
    assert_eq!(show(FilterKind::HighPass, f32::NEG_INFINITY), "Disabled");
}

#[test]
fn what_is_no_number_is_not_disabled() {
    assert_eq!(frequency_to_string(FilterKind::LowPass, f32::NAN.to_bits(), "NaN"), "NaN Hz");
    assert_eq!(frequency_to_string(FilterKind::HighPass, f32::NAN.to_bits(), "NaN"), "NaN Hz");
}

#[test]
fn bit_patterns_compare_like_numbers() {
    let near_max = 22_000.0f32.to_bits();
    let near_min = 5.0f32.to_bits();
    let mut patterns = vec![
        0, 1, 0x007F_FFFF, 0x0080_0000, 0x7F7F_FFFF, 0x7F80_0000, 0x7F80_0001, 0x7FFF_FFFF,
        0x8000_0000, 0x8000_0001, 0xFF7F_FFFF, 0xFF80_0000, 0xFF80_0001, 0xFFFF_FFFF,
    ];
    for pattern in [near_max, near_min] {
        for offset in 0..5 {
            patterns.push(pattern + offset);
            patterns.push(pattern - offset);
            patterns.push((pattern + offset) | 0x8000_0000);
        }
    }
    for pattern in patterns {
        let value = f32::from_bits(pattern);
        assert_eq!(is_at_max_frequency(pattern), value >= 22_000.0);
        assert_eq!(is_at_min_frequency(pattern), value <= 5.0);
    }
}

#[test]
fn disabled_is_read_as_the_end_of_the_range() {
    assert_eq!(disabling(FilterKind::LowPass, "Disabled"), 22_000);
    assert_eq!(disabling(FilterKind::HighPass, "Disabled"), 5);
}

#[test]
fn only_the_exact_word_disables() {
    assert_eq!(number(FilterKind::LowPass, "disabled"), "disabled");
    assert_eq!(number(FilterKind::LowPass, " Disabled"), "Disabled");
    assert_eq!(number(FilterKind::LowPass, "Disabled Hz"), "Disabled");
    assert_eq!(number(FilterKind::LowPass, ""), "");
}

#[test]
fn frequencies_are_read_with_and_without_a_unit() {
    assert_eq!(number(FilterKind::LowPass, "440 Hz"), "440");
    assert_eq!(number(FilterKind::LowPass, "440"), "440");
    assert_eq!(number(FilterKind::HighPass, "12.5 Hz"), "12.5");
    assert_eq!(number(FilterKind::HighPass, "440Hz"), "440Hz");
    assert_eq!(number(FilterKind::HighPass, "440 Hz Hz"), "440");
    assert_eq!(number(FilterKind::HighPass, "440 hz"), "440 hz");
    assert_eq!(number(FilterKind::HighPass, "Hz"), "Hz");
}

#[test]
fn white_space_around_a_frequency_is_ignored() {
    assert_eq!(number(FilterKind::LowPass, "  440 Hz\t\n"), "440");
    assert_eq!(number(FilterKind::LowPass, "\u{3000}440\u{a0}"), "440");
    assert_eq!(number(FilterKind::LowPass, "440  Hz"), "440 ");
    assert_eq!(number(FilterKind::LowPass, "\u{200b}440"), "\u{200b}440");
    assert_eq!(number(FilterKind::LowPass, " \t "), "");
}

#[test]
fn what_is_shown_is_read_back() {
    for kind in [FilterKind::LowPass, FilterKind::HighPass] {
        for frequency in [6.0f32, 99.5, 1_000.0, 21_000.0] {
            let rounded = format!("{:.0}", frequency);
            assert_eq!(number(kind, &show(kind, frequency)), rounded);
        }
    }
    let shown = show(FilterKind::LowPass, 22_000.0);
    assert_eq!(disabling(FilterKind::LowPass, &shown), 22_000);
    let shown = show(FilterKind::HighPass, 5.0);
    assert_eq!(disabling(FilterKind::HighPass, &shown), 5);
}

#[test]
fn gains_are_read_with_and_without_a_unit() {
    assert_eq!(string_to_decibels("-6.00 dB"), "-6.00");
    assert_eq!(string_to_decibels("-6"), "-6");
    assert_eq!(string_to_decibels("  0 dB "), "0");
    assert_eq!(string_to_decibels("3dB"), "3dB");
    assert_eq!(string_to_decibels("1 Hz"), "1 Hz");
}
