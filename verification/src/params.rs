//! The parameters of the effect, as a host is to offer them.

use crate::config::{FilterKind, Mode, StereoMode, MAX_FILTER_FREQUENCY, MIN_FILTER_FREQUENCY};
use crate::text::{frequency_to_string, string_to_decibels, string_to_frequency, FrequencyInput};
use vstd::arithmetic::power::pow;
use vstd::prelude::*;

verus! {

/// A number that a parameter starts from or is bounded by.
#[derive(Clone, Copy, Debug, PartialEq, Eq, Structural)]
pub enum Quantity {
    /// A fraction.
    Ratio { numerator: u32, denominator: u32 },
    /// Half the square root of two, the resonance at which a filter has no peak.
    HalfRootTwo,
    /// The voltage gain of this many decibels.
    GainOfDecibels(i32),
}

/// How the values of a parameter are spread over its range. The ends belong to the range.
#[derive(Clone, Copy, Debug, PartialEq, Eq, Structural)]
pub enum Range {
    /// Evenly.
    Linear { min: Quantity, max: Quantity },
    /// Skewed by two to the power of `skew`, so that negative values make the start wider.
    Skewed { min: Quantity, max: Quantity, skew: i32 },
}

/// How a parameter moves to a value that it is set to.
#[derive(Clone, Copy, Debug, PartialEq, Eq, Structural)]
pub enum Smoothing {
    /// At a constant rate, in this many milliseconds.
    Linear { milliseconds: u32 },
    /// By a constant factor per sample, in this many milliseconds.
    Logarithmic { milliseconds: u32 },
}

/// How the value of a parameter is shown.
#[derive(Clone, Copy, Debug, PartialEq, Eq, Structural)]
pub enum Formatter {
    /// As a percentage with this many digits after the point.
    Percentage { digits: usize },
    /// With this many digits after the point.
    Rounded { digits: usize },
    /// As the cutoff frequency of a filter.
    Frequency(FilterKind),
    /// As the decibels of a voltage gain, with this many digits after the point.
    Decibels { digits: usize },
}

/// How a value that a user typed is read.
#[derive(Clone, Copy, Debug, PartialEq, Eq, Structural)]
pub enum Reader {
    /// As a plain number.
    Number,
    /// As a percentage.
    Percentage,
    /// As the cutoff frequency of a filter.
    Frequency(FilterKind),
    /// As the decibels of a voltage gain.
    Decibels,
}

impl Formatter {
    /// With how many digits after the point the number is written out.
    pub open spec fn spec_digits(self) -> usize {
        match self {
            Formatter::Percentage { digits } => digits,
            Formatter::Rounded { digits } => digits,
            Formatter::Frequency(_) => 0,
            Formatter::Decibels { digits } => digits,
        }
    }

    /// With how many digits after the point the number is written out.
    pub fn digits(&self) -> (digits: usize)
        ensures
            digits == self.spec_digits(),
    {
        match self {
            Formatter::Percentage { digits } => *digits,
            Formatter::Rounded { digits } => *digits,
            Formatter::Frequency(_) => 0,
            Formatter::Decibels { digits } => *digits,
        }
    }

    /// What a value is shown as, before its unit. `bits` is the bit pattern of the value, and
    /// `written` the number as it is written out.
    pub open spec fn shown(self, bits: u32, written: Seq<char>) -> Seq<char> {
        match self {
            Formatter::Frequency(kind) => crate::text::frequency_text(kind, bits, written),
            _ => written,
        }
    }

    /// Shows a value whose number has been written out.
    pub fn show(&self, bits: u32, written: &str) -> (text: String)
        ensures
            text@ == self.shown(bits, written@),
    {
        match self {
            Formatter::Frequency(kind) => frequency_to_string(*kind, bits, written),
            _ => written.to_owned(),
        }
    }
}

/// What a user typed for a parameter.
pub enum Typed {
    /// A cutoff frequency.
    Frequency(FrequencyInput),
    /// The text of a number: that of the decibels, of the percentage or of the value itself.
    Number(String),
}

impl Reader {
    /// What `typed` stands for is what `text` says.
    pub open spec fn reads(self, text: Seq<char>, typed: Typed) -> bool {
        match (self, typed) {
            (Reader::Frequency(kind), Typed::Frequency(input)) => crate::text::reads_frequency(
                kind,
                text,
                input,
            ),
            (Reader::Decibels, Typed::Number(number)) => number@ == crate::text::number_text(
                text,
                " dB"@,
            ),
            (Reader::Percentage, Typed::Number(number)) => number@ == text,
            (Reader::Number, Typed::Number(number)) => number@ == text,
            _ => false,
        }
    }

    /// Reads what a user typed.
    pub fn read(&self, text: &str) -> (typed: Typed)
        ensures
            self.reads(text@, typed),
    {
        match self {
            Reader::Frequency(kind) => Typed::Frequency(string_to_frequency(*kind, text)),
            Reader::Decibels => Typed::Number(string_to_decibels(text)),
            Reader::Percentage => Typed::Number(text.to_owned()),
            Reader::Number => Typed::Number(text.to_owned()),
        }
    }
}

/// A parameter that ranges over numbers.
#[derive(Clone, Copy, Debug)]
pub struct FloatParam {
    /// What the parameter is stored under.
    pub id: &'static str,
    /// What the parameter is called.
    pub name: &'static str,
    pub default: Quantity,
    pub range: Range,
    pub smoothing: Smoothing,
    /// What is shown behind the value.
    pub unit: &'static str,
    pub value_to_string: Formatter,
    pub string_to_value: Reader,
}

/// A parameter that ranges over the variants of an enum.
#[derive(Debug)]
pub struct EnumParam<T> {
    /// What the parameter is stored under.
    pub id: &'static str,
    /// What the parameter is called.
    pub name: &'static str,
    pub default: T,
}

/// The parameters of the effect.
#[derive(Debug)]
pub struct CrispParams {
    /// On a range of `[0, 1]`, how much of the modulated sound to mix in.
    pub amount: FloatParam,
    /// What kind of modulation to apply.
    pub mode: EnumParam<Mode>,
    /// How to handle stereo signals. See [`StereoMode`].
    pub stereo_mode: EnumParam<StereoMode>,
    /// The cutoff frequency for the low-pass filter applied to the input before it is modulated.
    pub rm_input_lpf_freq: FloatParam,
    /// The resonance of the low-pass filter applied to the input before it is modulated.
    pub rm_input_lpf_q: FloatParam,
    /// The cutoff frequency for the high-pass filter applied to the noise.
    pub noise_hpf_freq: FloatParam,
    /// The resonance of the high-pass filter applied to the noise.
    pub noise_hpf_q: FloatParam,
    /// The cutoff frequency for the low-pass filter applied to the noise.
    pub noise_lpf_freq: FloatParam,
    /// The resonance of the low-pass filter applied to the noise.
    pub noise_lpf_q: FloatParam,
    /// Output gain, as voltage gain. Displayed in decibels.
    pub output_gain: FloatParam,
}

impl Quantity {
    /// A whole number.
    pub open spec fn whole(value: u32) -> Self {
        Quantity::Ratio { numerator: value, denominator: 1 }
    }
}

/// A whole number.
fn whole(value: u32) -> (quantity: Quantity)
    ensures
        quantity == Quantity::whole(value),
{
    Quantity::Ratio { numerator: value, denominator: 1 }
}

impl FloatParam {
    /// The parameter is the cutoff frequency of a filter of this kind. It starts where the filter
    /// is disabled.
    pub open spec fn is_frequency(self, kind: FilterKind) -> bool {
        &&& self.default == Quantity::whole(crate::text::disabling_frequency(kind))
        &&& self.range == (Range::Skewed {
            min: Quantity::whole(MIN_FILTER_FREQUENCY),
            max: Quantity::whole(MAX_FILTER_FREQUENCY),
            skew: -1i32,
        })
        &&& self.smoothing == (Smoothing::Logarithmic { milliseconds: 100 })
        &&& self.unit@ == ""@
        &&& self.value_to_string == Formatter::Frequency(kind)
        &&& self.string_to_value == Reader::Frequency(kind)
    }

    /// The parameter is the resonance of a filter. It starts where the filter has no peak.
    pub open spec fn is_resonance(self) -> bool {
        &&& self.default == Quantity::HalfRootTwo
        &&& self.range == (Range::Skewed {
            min: Quantity::HalfRootTwo,
            max: Quantity::whole(10),
            skew: -1i32,
        })
        &&& self.smoothing == (Smoothing::Logarithmic { milliseconds: 100 })
        &&& self.unit@ == ""@
        &&& self.value_to_string == (Formatter::Rounded { digits: 2 })
        &&& self.string_to_value == Reader::Number
    }

    fn frequency(id: &'static str, name: &'static str, kind: FilterKind) -> (param: Self)
        ensures
            param.id == id,
            param.name == name,
            param.is_frequency(kind),
    {
        let default: u32 = match kind {
            FilterKind::LowPass => MAX_FILTER_FREQUENCY,
            FilterKind::HighPass => MIN_FILTER_FREQUENCY,
        };
        FloatParam {
            id,
            name,
            default: whole(default),
            range: Range::Skewed {
                min: whole(MIN_FILTER_FREQUENCY),
                max: whole(MAX_FILTER_FREQUENCY),
                skew: -1,
            },
            smoothing: Smoothing::Logarithmic { milliseconds: 100 },
            unit: "",
            value_to_string: Formatter::Frequency(kind),
            string_to_value: Reader::Frequency(kind),
        }
    }

    fn resonance(id: &'static str, name: &'static str) -> (param: Self)
        ensures
            param.id == id,
            param.name == name,
            param.is_resonance(),
    {
        FloatParam {
            id,
            name,
            default: Quantity::HalfRootTwo,
            range: Range::Skewed { min: Quantity::HalfRootTwo, max: whole(10), skew: -1 },
            smoothing: Smoothing::Logarithmic { milliseconds: 100 },
            unit: "",
            value_to_string: Formatter::Rounded { digits: 2 },
            string_to_value: Reader::Number,
        }
    }
}

impl CrispParams {
    /// What the parameters are stored under.
    pub open spec fn has_ids(self) -> bool {
        &&& self.amount.id@ == "amount"@
        &&& self.mode.id@ == "mode"@
        &&& self.stereo_mode.id@ == "stereo"@
        &&& self.rm_input_lpf_freq.id@ == "rmlpff"@
        &&& self.rm_input_lpf_q.id@ == "rmlpfq"@
        &&& self.noise_hpf_freq.id@ == "nzhpff"@
        &&& self.noise_hpf_q.id@ == "nzhpfq"@
        &&& self.noise_lpf_freq.id@ == "nzlpff"@
        &&& self.noise_lpf_q.id@ == "nzlpfq"@
        &&& self.output_gain.id@ == "output"@
    }

    /// What the parameters are called.
    pub open spec fn has_names(self) -> bool {
        &&& self.amount.name@ == "Amount"@
        &&& self.mode.name@ == "Mode"@
        &&& self.stereo_mode.name@ == "Stereo Mode"@
        &&& self.rm_input_lpf_freq.name@ == "RM LP Frequency"@
        &&& self.rm_input_lpf_q.name@ == "RM LP Resonance"@
        &&& self.noise_hpf_freq.name@ == "Noise HP Frequency"@
        &&& self.noise_hpf_q.name@ == "Noise HP Resonance"@
        &&& self.noise_lpf_freq.name@ == "Noise LP Frequency"@
        &&& self.noise_lpf_q.name@ == "Noise LP Resonance"@
        &&& self.output_gain.name@ == "Output"@
    }

    /// What the amount ranges over, and how it is shown and read.
    pub open spec fn has_amount(self) -> bool {
        &&& self.amount.default == (Quantity::Ratio { numerator: 35, denominator: 100 })
        &&& self.amount.range == (Range::Linear { min: Quantity::whole(0), max: Quantity::whole(1) })
        &&& self.amount.smoothing == (Smoothing::Linear { milliseconds: 10 })
        &&& self.amount.unit@ == "%"@
        &&& self.amount.value_to_string == (Formatter::Percentage { digits: 0 })
        &&& self.amount.string_to_value == Reader::Percentage
    }

    /// What the output gain ranges over, and how it is shown and read.
    pub open spec fn has_output_gain(self) -> bool {
        &&& self.output_gain.default == Quantity::whole(1)
        &&& self.output_gain.range == (Range::Linear {
            min: Quantity::GainOfDecibels(-24i32),
            max: Quantity::GainOfDecibels(0),
        })
        &&& self.output_gain.smoothing == (Smoothing::Logarithmic { milliseconds: 10 })
        &&& self.output_gain.unit@ == " dB"@
        &&& self.output_gain.value_to_string == (Formatter::Decibels { digits: 2 })
        &&& self.output_gain.string_to_value == Reader::Decibels
    }

    /// The parameters that the effect has.
    pub open spec fn as_offered(self) -> bool {
        &&& self.has_ids()
        &&& self.has_names()
        &&& self.has_amount()
        &&& self.mode.default == Mode::EvenCrispier
        &&& self.stereo_mode.default == StereoMode::Stereo
        &&& self.rm_input_lpf_freq.is_frequency(FilterKind::LowPass)
        &&& self.rm_input_lpf_q.is_resonance()
        &&& self.noise_hpf_freq.is_frequency(FilterKind::HighPass)
        &&& self.noise_hpf_q.is_resonance()
        &&& self.noise_lpf_freq.is_frequency(FilterKind::LowPass)
        &&& self.noise_lpf_q.is_resonance()
        &&& self.has_output_gain()
    }
}

impl Default for CrispParams {
    fn default() -> (params: Self)
        ensures
            params.as_offered(),
    {
        CrispParams {
            amount: FloatParam {
                id: "amount",
                name: "Amount",
                default: Quantity::Ratio { numerator: 35, denominator: 100 },
                range: Range::Linear { min: whole(0), max: whole(1) },
                smoothing: Smoothing::Linear { milliseconds: 10 },
                unit: "%",
                value_to_string: Formatter::Percentage { digits: 0 },
                string_to_value: Reader::Percentage,
            },
            mode: EnumParam { id: "mode", name: "Mode", default: Mode::EvenCrispier },
            stereo_mode: EnumParam {
                id: "stereo",
                name: "Stereo Mode",
                default: StereoMode::Stereo,
            },
            rm_input_lpf_freq: FloatParam::frequency(
                "rmlpff",
                "RM LP Frequency",
                FilterKind::LowPass,
            ),
            rm_input_lpf_q: FloatParam::resonance("rmlpfq", "RM LP Resonance"),
            noise_hpf_freq: FloatParam::frequency(
                "nzhpff",
                "Noise HP Frequency",
                FilterKind::HighPass,
            ),
            noise_hpf_q: FloatParam::resonance("nzhpfq", "Noise HP Resonance"),
            noise_lpf_freq: FloatParam::frequency(
                "nzlpff",
                "Noise LP Frequency",
                FilterKind::LowPass,
            ),
            noise_lpf_q: FloatParam::resonance("nzlpfq", "Noise LP Resonance"),
            output_gain: FloatParam {
                id: "output",
                name: "Output",
                default: whole(1),
                // Because the gain is shown as decibels the range is already logarithmic
                range: Range::Linear {
                    min: Quantity::GainOfDecibels(-24),
                    max: Quantity::GainOfDecibels(0),
                },
                smoothing: Smoothing::Logarithmic { milliseconds: 10 },
                unit: " dB",
                value_to_string: Formatter::Decibels { digits: 2 },
                string_to_value: Reader::Decibels,
            },
        }
    }
}

/// The voltage gain of `decibels` is at least the fraction `a / b`: the twentieth power of the gain is
/// the power of ten with that exponent.
pub open spec fn gain_reaches(decibels: i32, a: u32, b: u32) -> bool {
    if decibels >= 0 {
        pow(a as int, 20) <= pow(10, decibels as nat) * pow(b as int, 20)
    } else {
        pow(a as int, 20) * pow(10, (-decibels) as nat) <= pow(b as int, 20)
    }
}

/// The voltage gain of `decibels` is at most the fraction `a / b`.
pub open spec fn gain_stays_within(decibels: i32, a: u32, b: u32) -> bool {
    if decibels >= 0 {
        pow(10, decibels as nat) * pow(b as int, 20) <= pow(a as int, 20)
    } else {
        pow(b as int, 20) <= pow(a as int, 20) * pow(10, (-decibels) as nat)
    }
}

impl Quantity {
    /// The quantity is not larger than the other one. Half the root of two is told from a fraction by
    /// the squares of both. It lies between the gains of minus four and of minus three decibels.
    pub open spec fn no_larger(self, other: Self) -> bool {
        match (self, other) {
            (
                Quantity::Ratio { numerator: a, denominator: b },
                Quantity::Ratio { numerator: c, denominator: d },
            ) => a * d <= c * b,
            (Quantity::Ratio { numerator: a, denominator: b }, Quantity::HalfRootTwo) => 2 * a * a
                <= b * b,
            (
                Quantity::Ratio { numerator: a, denominator: b },
                Quantity::GainOfDecibels(decibels),
            ) => gain_reaches(decibels, a, b),
            (Quantity::HalfRootTwo, Quantity::Ratio { numerator: a, denominator: b }) => b * b <= 2
                * a * a,
            (Quantity::HalfRootTwo, Quantity::HalfRootTwo) => true,
            (Quantity::HalfRootTwo, Quantity::GainOfDecibels(decibels)) => decibels >= -3,
            (
                Quantity::GainOfDecibels(decibels),
                Quantity::Ratio { numerator: a, denominator: b },
            ) => gain_stays_within(decibels, a, b),
            (Quantity::GainOfDecibels(decibels), Quantity::HalfRootTwo) => decibels <= -4,
            (Quantity::GainOfDecibels(a), Quantity::GainOfDecibels(b)) => a <= b,
        }
    }
}

impl Range {
    /// The quantity lies in the range.
    pub open spec fn contains(self, quantity: Quantity) -> bool {
        match self {
            Range::Linear { min, max } => min.no_larger(quantity) && quantity.no_larger(max),
            Range::Skewed { min, max, .. } => min.no_larger(quantity) && quantity.no_larger(max),
        }
    }
}

impl CrispParams {
    /// What the parameters are stored under, in order.
    pub open spec fn ids(self) -> Seq<Seq<char>> {
        seq![
            self.amount.id@,
            self.mode.id@,
            self.stereo_mode.id@,
            self.rm_input_lpf_freq.id@,
            self.rm_input_lpf_q.id@,
            self.noise_hpf_freq.id@,
            self.noise_hpf_q.id@,
            self.noise_lpf_freq.id@,
            self.noise_lpf_q.id@,
            self.output_gain.id@,
        ]
    }
}

/// No two parameters are stored under the same name.
pub proof fn law_ids_are_distinct(params: CrispParams)
    requires
        params.as_offered(),
    ensures
        params.ids().no_duplicates(),
{
    reveal_strlit("amount");
    reveal_strlit("mode");
    reveal_strlit("stereo");
    reveal_strlit("rmlpff");
    reveal_strlit("rmlpfq");
    reveal_strlit("nzhpff");
    reveal_strlit("nzhpfq");
    reveal_strlit("nzlpff");
    reveal_strlit("nzlpfq");
    reveal_strlit("output");
    let ids = params.ids();
    assert forall|i: int, j: int| 0 <= i < ids.len() && 0 <= j < ids.len() && i != j implies ids[i]
        != ids[j] by {
        // Length, or one of the letters at these places, tells any two of them apart.
        assert(ids[i].len() != ids[j].len() || ids[i][0] != ids[j][0] || ids[i][1] != ids[j][1]
            || ids[i][2] != ids[j][2] || ids[i][5] != ids[j][5]);
    }
}

/// Every parameter starts at a value within its range.
pub proof fn law_defaults_lie_in_range(params: CrispParams)
    requires
        params.as_offered(),
    ensures
        params.amount.range.contains(params.amount.default),
        params.rm_input_lpf_freq.range.contains(params.rm_input_lpf_freq.default),
        params.rm_input_lpf_q.range.contains(params.rm_input_lpf_q.default),
        params.noise_hpf_freq.range.contains(params.noise_hpf_freq.default),
        params.noise_hpf_q.range.contains(params.noise_hpf_q.default),
        params.noise_lpf_freq.range.contains(params.noise_lpf_freq.default),
        params.noise_lpf_q.range.contains(params.noise_lpf_q.default),
        params.output_gain.range.contains(params.output_gain.default),
{
    vstd::arithmetic::power::lemma1_pow(20);
    vstd::arithmetic::power::lemma_pow0(10);
    vstd::arithmetic::power::lemma_pow_positive(10, 24);
}

/// The frequency that was typed, in units of `2^-149` hertz. `number` tells what the text of a number
/// stands for.
pub open spec fn typed_frequency(number: spec_fn(Seq<char>) -> int, input: FrequencyInput) -> int {
    match input {
        FrequencyInput::Disabled(frequency) => crate::float_bits::whole(frequency as nat) as int,
        FrequencyInput::Number(text) => number(text@),
    }
}

/// What a cutoff frequency within its range is shown as reads back as that frequency, but for the
/// rounding: where the number that is written out is at most half a hertz away, so is the frequency
/// that is read, and where nothing was rounded the very frequency is read. `number` tells what the
/// text of a number stands for, in units of `2^-149`.
pub proof fn law_frequency_survives_but_for_rounding(
    param: FloatParam,
    kind: FilterKind,
    number: spec_fn(Seq<char>) -> int,
    bits: u32,
    written: Seq<char>,
    typed: Typed,
)
    requires
        param.is_frequency(kind),
        crate::float_bits::at_least(bits, MIN_FILTER_FREQUENCY as nat),
        crate::float_bits::at_most(bits, MAX_FILTER_FREQUENCY as nat),
        written.len() > 0,
        !crate::text::is_white_space(written.first()),
        !crate::text::ends_with(written, " Hz"@),
        -crate::float_bits::whole(1) <= 2 * (number(written) - crate::float_bits::value(bits))
            <= crate::float_bits::whole(1),
        param.string_to_value.reads(param.value_to_string.shown(bits, written), typed),
    ensures
        typed matches Typed::Frequency(input) && {
            let distance = typed_frequency(number, input) - crate::float_bits::value(bits);
            &&& -crate::float_bits::whole(1) <= 2 * distance <= crate::float_bits::whole(1)
            &&& number(written) == crate::float_bits::value(bits) ==> distance == 0
        },
{
    let input = typed->Frequency_0;
    if crate::text::disables(kind, bits) {
        crate::text::law_disabled_reads_back(kind, bits, written, input);
    } else {
        crate::text::law_frequency_reads_back(kind, bits, written, input);
    }
}

/// What the output gain is shown as reads back as the decibels that were written, with the unit or
/// without it.
pub proof fn law_decibels_read_back(
    params: CrispParams,
    bits: u32,
    written: Seq<char>,
    typed: Typed,
    typed_with_unit: Typed,
)
    requires
        params.as_offered(),
        written.len() > 0,
        !crate::text::is_white_space(written.first()),
        !crate::text::is_white_space(written.last()),
        !crate::text::ends_with(written, " dB"@),
        params.output_gain.string_to_value.reads(
            params.output_gain.value_to_string.shown(bits, written),
            typed,
        ),
        params.output_gain.string_to_value.reads(
            params.output_gain.value_to_string.shown(bits, written) + params.output_gain.unit@,
            typed_with_unit,
        ),
    ensures
        typed matches Typed::Number(number) && number@ == written,
        typed_with_unit matches Typed::Number(number) && number@ == written,
{
    reveal_strlit(" dB");
    crate::text::law_unit_is_optional(written, " dB"@);
    crate::text::law_unit_is_taken_off(written, " dB"@);
}

} // verus!
