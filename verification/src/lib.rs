//! The signal path, the parameters and the text formats of Crisp, an effect that layers a sound
//! with a copy of itself that was ring modulated with filtered noise.

pub mod config;
pub mod crisp;
pub mod dsp;
pub mod float_bits;
pub mod flow;
pub mod frame_laws;
pub mod generator_laws;
pub mod hearing_laws;
pub mod independence;
pub mod laws;
pub mod operation_laws;
pub mod params;
pub mod pcg;
pub mod signal_laws;
pub mod text;
pub mod text_laws;

pub use config::{
    BufferConfig, BusConfig, FilterKind, Mode, ProcessStatus, SmoothedParam, StereoMode,
    AMOUNT_GAIN_MULTIPLIER, BLOCK_SIZE, MAX_FILTER_FREQUENCY, MIN_FILTER_FREQUENCY, NUM_CHANNELS,
};
pub use crisp::Crisp;
pub use dsp::{advance, Biquad, Controls, Dsp};
pub use params::{
    CrispParams, EnumParam, FloatParam, Formatter, Quantity, Range, Reader, Smoothing, Typed,
};
pub use pcg::{initial_prng_seed, Pcg32iState};
pub use text::{frequency_to_string, string_to_decibels, string_to_frequency, FrequencyInput};
