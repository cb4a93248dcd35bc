//! What is shown to a user, and what is read of what a user types.

use crate::config::FilterKind;
use crate::params::{Formatter, Reader, Typed};
use crate::text::FrequencyInput;
use vstd::prelude::*;

verus! {

/// All characters are white space.
pub open spec fn is_padding(text: Seq<char>) -> bool {
    forall|i: int| 0 <= i < text.len() ==> crate::text::is_white_space(#[trigger] text[i])
}

/// There is no white space at the ends of the text.
pub open spec fn is_bare(text: Seq<char>) -> bool {
    text.len() > 0 ==> !crate::text::is_white_space(text.first()) && !crate::text::is_white_space(
        text.last(),
    )
}

/// A text `n` times in a row.
pub open spec fn repeated(text: Seq<char>, n: nat) -> Seq<char>
    decreases n,
{
    if n == 0 {
        seq![]
    } else {
        repeated(text, (n - 1) as nat) + text
    }
}

/// A text is white space, a bare text, and white space again.
proof fn lemma_trimmed_stands_in_padding(text: Seq<char>) -> (padding: (Seq<char>, Seq<char>))
    ensures
        text == padding.0 + crate::text::trimmed(text) + padding.1,
        is_padding(padding.0),
        is_padding(padding.1),
        is_bare(crate::text::trimmed(text)),
    decreases text.len(),
{
    let rest = crate::text::trimmed(text);
    if text.len() > 0 && crate::text::is_white_space(text.first()) {
        let (left, right) = lemma_trimmed_stands_in_padding(text.drop_first());
        let padding = (seq![text.first()] + left, right);
        assert(text =~= padding.0 + rest + padding.1) by {
            assert(text =~= seq![text.first()] + text.drop_first());
        }
        padding
    } else if text.len() > 0 && crate::text::is_white_space(text.last()) {
        let (left, right) = lemma_trimmed_stands_in_padding(text.drop_last());
        let padding = (left, right.push(text.last()));
        assert(text =~= padding.0 + rest + padding.1) by {
            assert(text =~= text.drop_last().push(text.last()));
        }
        padding
    } else {
        let padding = (Seq::<char>::empty(), Seq::<char>::empty());
        assert(text =~= padding.0 + rest + padding.1);
        padding
    }
}

/// A text is what is left without a suffix, and that suffix as often as it was taken off.
proof fn lemma_suffixes_stand_behind(text: Seq<char>, suffix: Seq<char>) -> (n: nat)
    requires
        suffix.len() > 0,
    ensures
        text == crate::text::without_suffixes(text, suffix) + repeated(suffix, n),
        !crate::text::ends_with(crate::text::without_suffixes(text, suffix), suffix),
    decreases text.len(),
{
    let rest = crate::text::without_suffixes(text, suffix);
    if crate::text::ends_with(text, suffix) {
        let head = text.take(text.len() - suffix.len());
        let n = lemma_suffixes_stand_behind(head, suffix);
        assert(text =~= head + text.skip(text.len() - suffix.len()));
        assert(text =~= rest + repeated(suffix, n + 1));
        n + 1
    } else {
        assert(text =~= rest + repeated(suffix, 0));
        0
    }
}

/// How often the unit was typed, and the white space around the rest.
pub struct Surroundings {
    pub left: Seq<char>,
    pub units: nat,
    pub right: Seq<char>,
}

/// A text is read as disabling a filter only if it is the word for that, and then as the frequency
/// that disables it.
pub proof fn law_only_one_word_disables(kind: FilterKind, text: &str, input: FrequencyInput)
    requires
        call_ensures(crate::text::string_to_frequency, (kind, text), input),
    ensures
        input is Disabled <==> text@ == "Disabled"@,
        input is Disabled && kind == FilterKind::LowPass ==> input == FrequencyInput::Disabled(
            22_000,
        ),
        input is Disabled && kind == FilterKind::HighPass ==> input == FrequencyInput::Disabled(5),
{
}

/// A number that is typed for a frequency, for either kind of filter, is read as that very number:
/// with the unit behind it or without, and with white space around it or without.
pub proof fn law_typed_frequency_is_read(
    kind: FilterKind,
    text: &str,
    input: FrequencyInput,
    left: Seq<char>,
    number: Seq<char>,
    right: Seq<char>,
)
    requires
        call_ensures(crate::text::string_to_frequency, (kind, text), input),
        text@ != "Disabled"@,
        is_padding(left),
        is_padding(right),
        number.len() > 0,
        is_bare(number),
        !crate::text::ends_with(number, " Hz"@),
        text@ == left + number + right || text@ == left + (number + " Hz"@) + right,
    ensures
        input matches FrequencyInput::Number(read) && read@ == number,
{
    reveal_strlit(" Hz");
    crate::text::law_padding_does_not_matter(left, number, right, " Hz"@);
    crate::text::law_padding_does_not_matter(left, number + " Hz"@, right, " Hz"@);
    crate::text::law_unit_is_optional(number, " Hz"@);
    crate::text::law_unit_is_taken_off(number, " Hz"@);
}

/// A text that has no white space at its ends, does not end in the unit and is not the word that
/// disables a filter is read as a number with that very text.
pub proof fn law_bare_frequency_is_read_as_it_is(
    kind: FilterKind,
    text: &str,
    input: FrequencyInput,
)
    requires
        call_ensures(crate::text::string_to_frequency, (kind, text), input),
        text@ != "Disabled"@,
        is_bare(text@),
        !crate::text::ends_with(text@, " Hz"@),
    ensures
        input matches FrequencyInput::Number(read) && read@ == text@,
{
}

/// Whatever is typed for a frequency and is not the word that disables a filter is white space, the
/// text that is read, the unit any number of times, and white space. Nothing more can be taken off.
pub proof fn law_frequency_is_what_is_left(
    kind: FilterKind,
    text: &str,
    input: FrequencyInput,
) -> (around: Surroundings)
    requires
        call_ensures(crate::text::string_to_frequency, (kind, text), input),
        text@ != "Disabled"@,
    ensures
        input matches FrequencyInput::Number(read) && {
            &&& text@ == around.left + (read@ + repeated(" Hz"@, around.units)) + around.right
            &&& is_bare(read@ + repeated(" Hz"@, around.units))
            &&& !crate::text::ends_with(read@, " Hz"@)
        },
        is_padding(around.left),
        is_padding(around.right),
{
    reveal_strlit(" Hz");
    let (left, right) = lemma_trimmed_stands_in_padding(text@);
    let units = lemma_suffixes_stand_behind(crate::text::trimmed(text@), " Hz"@);
    Surroundings { left, units, right }
}

/// Both kinds of filters read the same numbers.
pub proof fn law_kinds_read_the_same_numbers(
    text: &str,
    low: FrequencyInput,
    high: FrequencyInput,
)
    requires
        call_ensures(crate::text::string_to_frequency, (FilterKind::LowPass, text), low),
        call_ensures(crate::text::string_to_frequency, (FilterKind::HighPass, text), high),
    ensures
        low is Disabled <==> high is Disabled,
        low matches FrequencyInput::Number(a) ==> high matches FrequencyInput::Number(b) && a@ == b@,
{
}

/// A number that is typed for a gain is read as that very number: with the unit behind it or without,
/// and with white space around it or without.
pub proof fn law_typed_decibels_are_read(
    text: &str,
    read: String,
    left: Seq<char>,
    number: Seq<char>,
    right: Seq<char>,
)
    requires
        call_ensures(crate::text::string_to_decibels, (text,), read),
        is_padding(left),
        is_padding(right),
        number.len() > 0,
        is_bare(number),
        !crate::text::ends_with(number, " dB"@),
        text@ == left + number + right || text@ == left + (number + " dB"@) + right,
    ensures
        read@ == number,
{
    reveal_strlit(" dB");
    crate::text::law_padding_does_not_matter(left, number, right, " dB"@);
    crate::text::law_padding_does_not_matter(left, number + " dB"@, right, " dB"@);
    crate::text::law_unit_is_optional(number, " dB"@);
    crate::text::law_unit_is_taken_off(number, " dB"@);
}

/// Whatever is typed for a gain is white space, the text that is read, the unit any number of times,
/// and white space. Nothing more can be taken off.
pub proof fn law_decibels_are_what_is_left(text: &str, read: String) -> (around: Surroundings)
    requires
        call_ensures(crate::text::string_to_decibels, (text,), read),
    ensures
        text@ == around.left + (read@ + repeated(" dB"@, around.units)) + around.right,
        is_bare(read@ + repeated(" dB"@, around.units)),
        !crate::text::ends_with(read@, " dB"@),
        is_padding(around.left),
        is_padding(around.right),
{
    reveal_strlit(" dB");
    let (left, right) = lemma_trimmed_stands_in_padding(text@);
    let units = lemma_suffixes_stand_behind(crate::text::trimmed(text@), " dB"@);
    Surroundings { left, units, right }
}

/// A number tells whether it is at least the highest cutoff frequency: those from the bit pattern of
/// `22000` up to that of infinity are, and no others.
pub proof fn law_max_frequency_is_told_from_bits(bits: u32, told: bool)
    requires
        call_ensures(crate::float_bits::is_at_max_frequency, (bits,), told),
    ensures
        told <==> 0x46AB_E000 <= bits <= 0x7F80_0000,
{
    crate::float_bits::lemma_frequency_bits();
    lemma_whole_is_positive(22_000);
    if bits < 0x46AB_E000 {
        crate::float_bits::lemma_magnitude_is_monotonic(bits, 0x46AB_E000);
    } else if 0x46AB_E000 < bits < 0x8000_0000 {
        crate::float_bits::lemma_magnitude_is_monotonic(0x46AB_E000, bits);
    }
}

/// A number tells whether it is at most the lowest cutoff frequency: those up to the bit pattern of
/// `5` are, and all negative ones, and no others.
pub proof fn law_min_frequency_is_told_from_bits(bits: u32, told: bool)
    requires
        call_ensures(crate::float_bits::is_at_min_frequency, (bits,), told),
    ensures
        told <==> bits <= 0x40A0_0000 || 0x8000_0000 <= bits <= 0xFF80_0000,
{
    crate::float_bits::lemma_frequency_bits();
    lemma_whole_is_positive(5);
    if bits < 0x40A0_0000 {
        crate::float_bits::lemma_magnitude_is_monotonic(bits, 0x40A0_0000);
    } else if 0x40A0_0000 < bits < 0x8000_0000 {
        crate::float_bits::lemma_magnitude_is_monotonic(0x40A0_0000, bits);
    }
}

proof fn lemma_whole_is_positive(n: nat)
    requires
        n > 0,
    ensures
        crate::float_bits::whole(n) > 0,
{
    vstd::arithmetic::power2::lemma_pow2_pos(149);
    let unit = vstd::arithmetic::power2::pow2(149);
    assert(n * unit > 0) by (nonlinear_arith)
        requires
            n > 0,
            unit > 0,
    ;
}

/// What a frequency is shown as: a low-pass filter from 22000 hertz on and a high-pass filter up to 5
/// hertz as disabled, and every other one as its number with the unit.
pub proof fn law_frequency_is_shown(
    kind: FilterKind,
    bits: u32,
    rounded: &str,
    text: String,
)
    requires
        call_ensures(crate::text::frequency_to_string, (kind, bits, rounded), text),
    ensures
        text@ == (if kind == FilterKind::LowPass && 0x46AB_E000 <= bits <= 0x7F80_0000 {
            "Disabled"@
        } else if kind == FilterKind::HighPass && (bits <= 0x40A0_0000 || 0x8000_0000 <= bits
            <= 0xFF80_0000) {
            "Disabled"@
        } else {
            rounded@ + " Hz"@
        }),
{
    crate::float_bits::lemma_frequency_bits();
    lemma_whole_is_positive(22_000);
    lemma_whole_is_positive(5);
    if bits < 0x46AB_E000 {
        crate::float_bits::lemma_magnitude_is_monotonic(bits, 0x46AB_E000);
    } else if 0x46AB_E000 < bits < 0x8000_0000 {
        crate::float_bits::lemma_magnitude_is_monotonic(0x46AB_E000, bits);
    }
    if bits < 0x40A0_0000 {
        crate::float_bits::lemma_magnitude_is_monotonic(bits, 0x40A0_0000);
    } else if 0x40A0_0000 < bits < 0x8000_0000 {
        crate::float_bits::lemma_magnitude_is_monotonic(0x40A0_0000, bits);
    }
}

/// What is shown of a frequency reads back: as disabling if it was shown so, and as the number that
/// was written otherwise.
pub proof fn law_shown_frequency_is_read_back(
    kind: FilterKind,
    bits: u32,
    rounded: &str,
    shown: String,
    text: &str,
    input: FrequencyInput,
)
    requires
        call_ensures(crate::text::frequency_to_string, (kind, bits, rounded), shown),
        text@ == shown@,
        call_ensures(crate::text::string_to_frequency, (kind, text), input),
        rounded@.len() > 0,
        is_bare(rounded@),
        !crate::text::ends_with(rounded@, " Hz"@),
    ensures
        shown@ == "Disabled"@ ==> input is Disabled,
        shown@ != "Disabled"@ ==> (input matches FrequencyInput::Number(read) && read@ == rounded@),
{
    if shown@ != "Disabled"@ {
        let none = Seq::<char>::empty();
        assert(text@ =~= none + (rounded@ + " Hz"@) + none);
        law_typed_frequency_is_read(kind, text, input, none, rounded@, none);
    }
}

/// How many digits are written out behind the point.
pub proof fn law_digits_are_those_of_the_formatter(formatter: &Formatter, digits: usize)
    requires
        call_ensures(Formatter::digits, (formatter,), digits),
    ensures
        match *formatter {
            Formatter::Percentage { digits: n } => digits == n,
            Formatter::Rounded { digits: n } => digits == n,
            Formatter::Frequency(_) => digits == 0,
            Formatter::Decibels { digits: n } => digits == n,
        },
{
}

/// A number is shown as it was written out, but for a frequency, which is shown with its unit or as
/// disabled.
pub proof fn law_values_are_shown(formatter: &Formatter, bits: u32, written: &str, text: String)
    requires
        call_ensures(Formatter::show, (formatter, bits, written), text),
    ensures
        *formatter !is Frequency ==> text@ == written@,
        *formatter == Formatter::Frequency(FilterKind::LowPass) ==> text@ == (if 0x46AB_E000 <= bits
            <= 0x7F80_0000 {
            "Disabled"@
        } else {
            written@ + " Hz"@
        }),
        *formatter == Formatter::Frequency(FilterKind::HighPass) ==> text@ == (if bits <= 0x40A0_0000
            || 0x8000_0000 <= bits <= 0xFF80_0000 {
            "Disabled"@
        } else {
            written@ + " Hz"@
        }),
{
    crate::float_bits::lemma_frequency_bits();
    lemma_whole_is_positive(22_000);
    lemma_whole_is_positive(5);
    if bits < 0x46AB_E000 {
        crate::float_bits::lemma_magnitude_is_monotonic(bits, 0x46AB_E000);
    } else if 0x46AB_E000 < bits < 0x8000_0000 {
        crate::float_bits::lemma_magnitude_is_monotonic(0x46AB_E000, bits);
    }
    if bits < 0x40A0_0000 {
        crate::float_bits::lemma_magnitude_is_monotonic(bits, 0x40A0_0000);
    } else if 0x40A0_0000 < bits < 0x8000_0000 {
        crate::float_bits::lemma_magnitude_is_monotonic(0x40A0_0000, bits);
    }
}

/// What is typed is read by the kind of its parameter: a number with or without its unit for a
/// frequency and for decibels, and as it stands for the others.
pub proof fn law_typed_values_are_read(
    reader: &Reader,
    text: &str,
    typed: Typed,
    left: Seq<char>,
    number: Seq<char>,
    right: Seq<char>,
)
    requires
        call_ensures(Reader::read, (reader, text), typed),
        is_padding(left),
        is_padding(right),
        number.len() > 0,
        is_bare(number),
    ensures
        *reader is Number || *reader is Percentage ==> (typed matches Typed::Number(read) && read@
            == text@),
        *reader is Decibels && !crate::text::ends_with(number, " dB"@) && (text@ == left + number
            + right || text@ == left + (number + " dB"@) + right) ==> (typed matches Typed::Number(
            read,
        ) && read@ == number),
        *reader is Frequency && text@ != "Disabled"@ && !crate::text::ends_with(number, " Hz"@) && (
        text@ == left + number + right || text@ == left + (number + " Hz"@) + right) ==> (
        typed matches Typed::Frequency(FrequencyInput::Number(read)) && read@ == number),
        *reader is Frequency && text@ == "Disabled"@ ==> typed == Typed::Frequency(
            FrequencyInput::Disabled(
                if reader->Frequency_0 == FilterKind::LowPass {
                    22_000
                } else {
                    5
                },
            ),
        ),
{
    reveal_strlit(" Hz");
    reveal_strlit(" dB");
    crate::text::law_padding_does_not_matter(left, number, right, " Hz"@);
    crate::text::law_padding_does_not_matter(left, number + " Hz"@, right, " Hz"@);
    crate::text::law_padding_does_not_matter(left, number, right, " dB"@);
    crate::text::law_padding_does_not_matter(left, number + " dB"@, right, " dB"@);
    if !crate::text::ends_with(number, " Hz"@) {
        crate::text::law_unit_is_optional(number, " Hz"@);
        crate::text::law_unit_is_taken_off(number, " Hz"@);
    }
    if !crate::text::ends_with(number, " dB"@) {
        crate::text::law_unit_is_optional(number, " dB"@);
        crate::text::law_unit_is_taken_off(number, " dB"@);
    }
}

} // verus!
