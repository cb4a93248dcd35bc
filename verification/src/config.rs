//! The fixed figures of the effect and the plain settings that it is driven by.

use vstd::prelude::*;

verus! {

/// The number of channels that the effect works on.
pub const NUM_CHANNELS: u32 = 2;

/// The number of frames that go through the modulation before they are mixed.
pub const BLOCK_SIZE: usize = 64;

/// A full amount scales the gain of the modulated sound to a bit above unity, to make the effect
/// even less subtle.
pub const AMOUNT_GAIN_MULTIPLIER: i8 = 2;

/// The lowest cutoff frequency, in hertz. A high-pass filter is disabled there.
pub const MIN_FILTER_FREQUENCY: u32 = 5;

/// The highest cutoff frequency, in hertz. A low-pass filter is disabled there.
pub const MAX_FILTER_FREQUENCY: u32 = 22_000;

/// How many channels a host offers.
#[derive(Clone, Copy, Debug, PartialEq, Eq, Structural)]
pub struct BusConfig {
    pub num_input_channels: u32,
    pub num_output_channels: u32,
}

/// How a host will call the effect.
#[derive(Debug)]
pub struct BufferConfig<S> {
    pub sample_rate: S,
}

/// What a call of `process` tells the host.
#[derive(Clone, Copy, Debug, PartialEq, Eq, Structural)]
pub enum ProcessStatus {
    /// Carry on as usual.
    Normal,
}

/// Controls the type of modulation to apply.
#[derive(Clone, Copy, Debug, PartialEq, Eq, Structural)]
pub enum Mode {
    /// Modulate the entire waveform.
    Crispy,
    /// Modulate only the positive part of the waveform.
    EvenCrispier,
    /// Modulate only the negative part of the waveform.
    EvenCrispierNegated,
}

/// Controls how to handle stereo input.
#[derive(Clone, Copy, Debug, PartialEq, Eq, Structural)]
pub enum StereoMode {
    /// Use the same noise for both channels.
    Mono,
    /// Use a different noise source per channel.
    Stereo,
}

/// The two kinds of filters in the signal path.
#[derive(Clone, Copy, Debug, PartialEq, Eq, Structural)]
pub enum FilterKind {
    /// Lets through what is below the cutoff frequency.
    LowPass,
    /// Lets through what is above the cutoff frequency.
    HighPass,
}

/// The parameters whose changes are smoothed out over time.
#[derive(Clone, Copy, Debug, PartialEq, Eq, Structural)]
pub enum SmoothedParam {
    Amount,
    RmInputLpfFreq,
    RmInputLpfQ,
    NoiseHpfFreq,
    NoiseHpfQ,
    NoiseLpfFreq,
    NoiseLpfQ,
    OutputGain,
}

} // verus!
