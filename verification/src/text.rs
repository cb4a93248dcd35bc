//! How frequencies and gains are shown to and read from a user.

use crate::config::{FilterKind, MAX_FILTER_FREQUENCY, MIN_FILTER_FREQUENCY};
use crate::float_bits::{is_at_max_frequency, is_at_min_frequency};
use vstd::prelude::*;

verus! {

/// What a user typed for a cutoff frequency.
pub enum FrequencyInput {
    /// The filter is to be disabled, which this frequency does, in hertz.
    Disabled(u32),
    /// This text is to be read as a number of hertz.
    Number(String),
}

/// The characters that Unicode gives the property `White_Space`.
pub open spec fn is_white_space(c: char) -> bool {
    let code = c as u32;
    ||| 0x0009 <= code <= 0x000D
    ||| code == 0x0020
    ||| code == 0x0085
    ||| code == 0x00A0
    ||| code == 0x1680
    ||| 0x2000 <= code <= 0x200A
    ||| code == 0x2028
    ||| code == 0x2029
    ||| code == 0x202F
    ||| code == 0x205F
    ||| code == 0x3000
}

/// A text without the white space at its ends.
pub open spec fn trimmed(text: Seq<char>) -> Seq<char>
    decreases text.len(),
{
    if text.len() > 0 && is_white_space(text.first()) {
        trimmed(text.drop_first())
    } else if text.len() > 0 && is_white_space(text.last()) {
        trimmed(text.drop_last())
    } else {
        text
    }
}

/// Whether a text ends with `suffix`.
pub open spec fn ends_with(text: Seq<char>, suffix: Seq<char>) -> bool {
    suffix.len() <= text.len() && text.skip(text.len() - suffix.len()) == suffix
}

/// A text without `suffix` at its end, as often as it stands there.
pub open spec fn without_suffixes(text: Seq<char>, suffix: Seq<char>) -> Seq<char>
    decreases text.len(),
{
    if suffix.len() > 0 && ends_with(text, suffix) {
        without_suffixes(text.take(text.len() - suffix.len()), suffix)
    } else {
        text
    }
}

/// The text of a number that was typed with or without a unit.
pub open spec fn number_text(text: Seq<char>, unit: Seq<char>) -> Seq<char> {
    without_suffixes(trimmed(text), unit)
}

/// `str::trim` takes the white space off both ends of a text.
pub assume_specification[ str::trim ](text: &str) -> (rest: &str)
    ensures
        rest@ == trimmed(text@),
;

/// `str::trim_end_matches` takes a text off the end of another, as often as it stands there.
#[verifier::external_body]
fn trim_end_matches<'a>(text: &'a str, suffix: &str) -> (rest: &'a str)
    requires
        suffix@.len() > 0,
    ensures
        rest@ == without_suffixes(text@, suffix@),
{
    text.trim_end_matches(suffix)
}

/// Whether a filter with this cutoff frequency is disabled: a low-pass filter at the top of the
/// range, a high-pass filter at its bottom.
pub open spec fn disables(kind: FilterKind, frequency_bits: u32) -> bool {
    match kind {
        FilterKind::LowPass => crate::float_bits::at_least(
            frequency_bits,
            MAX_FILTER_FREQUENCY as nat,
        ),
        FilterKind::HighPass => crate::float_bits::at_most(
            frequency_bits,
            MIN_FILTER_FREQUENCY as nat,
        ),
    }
}

/// The cutoff frequency that disables a filter, in hertz.
pub open spec fn disabling_frequency(kind: FilterKind) -> u32 {
    match kind {
        FilterKind::LowPass => MAX_FILTER_FREQUENCY,
        FilterKind::HighPass => MIN_FILTER_FREQUENCY,
    }
}

/// What a cutoff frequency is shown as.
pub open spec fn frequency_text(
    kind: FilterKind,
    frequency_bits: u32,
    rounded: Seq<char>,
) -> Seq<char> {
    if disables(kind, frequency_bits) {
        "Disabled"@
    } else {
        rounded + " Hz"@
    }
}

/// What `input` stands for is what `text` says about the cutoff frequency of a filter.
pub open spec fn reads_frequency(
    kind: FilterKind,
    text: Seq<char>,
    input: FrequencyInput,
) -> bool {
    match input {
        FrequencyInput::Disabled(frequency) => text == "Disabled"@ && frequency
            == disabling_frequency(kind),
        FrequencyInput::Number(number) => text != "Disabled"@ && number@ == number_text(
            text,
            " Hz"@,
        ),
    }
}

/// Shows a cutoff frequency, given as the bit pattern of a single precision number and as the text
/// of that number, rounded to hertz. The unit is baked into the text so that a disabled filter can
/// be shown as such.
pub fn frequency_to_string(kind: FilterKind, frequency_bits: u32, rounded: &str) -> (text: String)
    ensures
        text@ == frequency_text(kind, frequency_bits, rounded@),
{
    let disabled = match kind {
        FilterKind::LowPass => is_at_max_frequency(frequency_bits),
        FilterKind::HighPass => is_at_min_frequency(frequency_bits),
    };
    if disabled {
        "Disabled".to_owned()
    } else {
        rounded.to_owned().concat(" Hz")
    }
}

/// Reads a cutoff frequency.
pub fn string_to_frequency(kind: FilterKind, text: &str) -> (input: FrequencyInput)
    ensures
        reads_frequency(kind, text@, input),
        input is Disabled <==> text@ == "Disabled"@,
{
    if text.to_owned() == "Disabled".to_owned() {
        let frequency: u32 = match kind {
            FilterKind::LowPass => MAX_FILTER_FREQUENCY,
            FilterKind::HighPass => MIN_FILTER_FREQUENCY,
        };
        FrequencyInput::Disabled(frequency)
    } else {
        proof {
            reveal_strlit(" Hz");
        }
        FrequencyInput::Number(trim_end_matches(text.trim(), " Hz").to_owned())
    }
}

/// Reads a gain: the text of the number of decibels.
pub fn string_to_decibels(text: &str) -> (number: String)
    ensures
        number@ == number_text(text@, " dB"@),
{
    proof {
        reveal_strlit(" dB");
    }
    trim_end_matches(text.trim(), " dB").to_owned()
}

/// A filter that is shown as disabled is disabled again by what is shown, and what disables it is
/// shown as such.
pub proof fn law_disabled_reads_back(
    kind: FilterKind,
    frequency_bits: u32,
    rounded: Seq<char>,
    input: FrequencyInput,
)
    requires
        disables(kind, frequency_bits),
        reads_frequency(kind, frequency_text(kind, frequency_bits, rounded), input),
    ensures
        input == FrequencyInput::Disabled(disabling_frequency(kind)),
        forall|bits: u32|
            !crate::float_bits::is_nan(bits) && #[trigger] crate::float_bits::value(bits)
                == crate::float_bits::whole(disabling_frequency(kind) as nat) ==> disables(
                kind,
                bits,
            ),
{
}

/// What is shown of a filter that is not disabled reads back as the number that was shown.
pub proof fn law_frequency_reads_back(
    kind: FilterKind,
    frequency_bits: u32,
    rounded: Seq<char>,
    input: FrequencyInput,
)
    requires
        !disables(kind, frequency_bits),
        rounded.len() > 0,
        !is_white_space(rounded.first()),
        !ends_with(rounded, " Hz"@),
        reads_frequency(kind, frequency_text(kind, frequency_bits, rounded), input),
    ensures
        input matches FrequencyInput::Number(number) && number@ == rounded,
{
    reveal_strlit(" Hz");
    reveal_strlit("Disabled");
    law_unit_is_taken_off(rounded, " Hz"@);
}

/// The unit need not be typed: a number reads as itself.
pub proof fn law_unit_is_optional(number: Seq<char>, unit: Seq<char>)
    requires
        number.len() > 0,
        !is_white_space(number.first()),
        !is_white_space(number.last()),
        !ends_with(number, unit),
    ensures
        number_text(number, unit) == number,
{
}

/// A number reads as itself when its unit is typed behind it.
pub proof fn law_unit_is_taken_off(number: Seq<char>, unit: Seq<char>)
    requires
        number.len() > 0,
        unit.len() > 0,
        !is_white_space(number.first()),
        !is_white_space(unit.last()),
        !ends_with(number, unit),
    ensures
        number_text(number + unit, unit) == number,
{
    reveal_with_fuel(without_suffixes, 2);
    let text = number + unit;
    assert(text.skip(text.len() - unit.len()) =~= unit);
    assert(text.take(text.len() - unit.len()) =~= number);
}

/// It does not matter whether the unit is typed: what is read is the same.
pub proof fn law_unit_does_not_matter(text: Seq<char>, unit: Seq<char>)
    requires
        text.len() > 0,
        unit.len() > 0,
        !is_white_space(text.first()),
        !is_white_space(text.last()),
        !is_white_space(unit.last()),
    ensures
        number_text(text + unit, unit) == number_text(text, unit),
{
    reveal_with_fuel(without_suffixes, 2);
    let typed = text + unit;
    assert(typed.skip(typed.len() - unit.len()) =~= unit);
    assert(typed.take(typed.len() - unit.len()) =~= text);
}

/// White space around what is typed for a number does not matter.
pub proof fn law_padding_does_not_matter(
    left: Seq<char>,
    text: Seq<char>,
    right: Seq<char>,
    unit: Seq<char>,
)
    requires
        forall|i: int| 0 <= i < left.len() ==> is_white_space(#[trigger] left[i]),
        forall|i: int| 0 <= i < right.len() ==> is_white_space(#[trigger] right[i]),
    ensures
        number_text(left + text + right, unit) == number_text(text, unit),
    decreases left.len() + right.len(),
{
    let padded = left + text + right;
    if left.len() > 0 {
        assert(padded.drop_first() =~= left.drop_first() + text + right);
        law_padding_does_not_matter(left.drop_first(), text, right, unit);
    } else if right.len() > 0 {
        assert(padded.drop_last() =~= left + text + right.drop_last());
        law_padding_does_not_matter(left, text, right.drop_last(), unit);
        lemma_trimming_starts_at_either_end(padded);
    }
}

/// It does not matter from which end white space is taken off first.
proof fn lemma_trimming_starts_at_either_end(text: Seq<char>)
    requires
        text.len() > 0,
        is_white_space(text.last()),
    ensures
        trimmed(text) == trimmed(text.drop_last()),
    decreases text.len(),
{
    if is_white_space(text.first()) {
        let rest = text.drop_first();
        if rest.len() > 0 {
            lemma_trimming_starts_at_either_end(rest);
            assert(rest.drop_last() =~= text.drop_last().drop_first());
        } else {
            assert(text.drop_last() =~= rest);
        }
    }
}

} // verus!
