//! What the signal path is built from: sample arithmetic, filters and parameter values.

use crate::config::{Mode, SmoothedParam, StereoMode};
use vstd::prelude::*;

verus! {

/// Arithmetic on samples and filters.
///
/// Nothing is assumed of an implementation. Every contract that involves one says which operations
/// were carried out, on which operands and with which results.
pub trait Dsp {
    /// A sample, or a quantity that samples are computed with.
    type Sample: Copy;

    /// The coefficients of a biquad filter.
    type Coefficients: Copy;

    /// What a biquad filter remembers of the samples that went through it.
    type Memory: Copy;

    /// A small whole number.
    fn constant(value: i8) -> Self::Sample;

    /// A number between zero and one, spread evenly as `word` ranges over all words.
    fn uniform(word: u32) -> Self::Sample;

    /// `a + b`.
    fn plus(a: Self::Sample, b: Self::Sample) -> Self::Sample;

    /// `a - b`.
    fn minus(a: Self::Sample, b: Self::Sample) -> Self::Sample;

    /// `a * b`.
    fn times(a: Self::Sample, b: Self::Sample) -> Self::Sample;

    /// The larger of two samples.
    fn max(a: Self::Sample, b: Self::Sample) -> Self::Sample;

    /// The smaller of two samples.
    fn min(a: Self::Sample, b: Self::Sample) -> Self::Sample;

    /// The coefficients of a filter that was not designed yet.
    fn default_coefficients() -> Self::Coefficients;

    /// The coefficients of a low-pass filter.
    fn lowpass(
        sample_rate: Self::Sample,
        frequency: Self::Sample,
        q: Self::Sample,
    ) -> Self::Coefficients;

    /// The coefficients of a high-pass filter.
    fn highpass(
        sample_rate: Self::Sample,
        frequency: Self::Sample,
        q: Self::Sample,
    ) -> Self::Coefficients;

    /// The memory of a filter that no sample went through.
    fn cleared_memory() -> Self::Memory;

    /// Sends a sample through a filter: what the filter remembers afterwards, and what comes out.
    fn filter_step(
        coefficients: Self::Coefficients,
        memory: Self::Memory,
        sample: Self::Sample,
    ) -> (Self::Memory, Self::Sample);
}

/// The parameters, as a host and a user set them.
///
/// The effect does not copy the controls: it takes them, hands them on from each step to the next,
/// and gives them back. The contracts tell the steps, and what was said in between, in the order in
/// which they happened. So the steps of an implementation that refers to a position kept elsewhere
/// are told as well, as long as nobody else moves the parameters meanwhile. Nothing is assumed of
/// what the controls say, and what they say may change from one position to the next.
pub trait Controls<S>: Sized {
    /// Moves a smoothed parameter one step further on its way: its next value.
    fn next_value(&mut self, param: SmoothedParam) -> S;

    /// Whether a smoothed parameter is still on its way to the value it was set to.
    fn is_smoothing(&self, param: SmoothedParam) -> bool;

    /// The type of modulation.
    fn mode(&self) -> Mode;

    /// The handling of stereo input.
    fn stereo_mode(&self) -> StereoMode;
}

/// Moves a smoothed parameter one step further: its next value, and the controls as they are then.
/// There is one call of [`Controls::next_value`], which takes the controls from the one position to
/// the other.
pub fn advance<S, C: Controls<S>>(controls: C, param: SmoothedParam) -> (step: (S, C))
    ensures
        exists|moved: &mut C| #[trigger]
            call_ensures(C::next_value, (moved, param), step.0) && *moved == controls
                && *final(moved) == step.1,
{
    let mut controls = controls;
    let value = controls.next_value(param);
    let step = (value, controls);
    assert(step.0 == value);
    step
}

/// A biquad filter.
pub struct Biquad<D: Dsp> {
    pub coefficients: D::Coefficients,
    pub memory: D::Memory,
}

impl<D: Dsp> Clone for Biquad<D> {
    fn clone(&self) -> (filter: Self)
        ensures
            filter == *self,
    {
        *self
    }
}

impl<D: Dsp> Copy for Biquad<D> {

}

impl<D: Dsp> Biquad<D> {
    /// Sending `sample` through this filter yields `output` and leaves the filter `after`.
    pub open spec fn filters(self, sample: D::Sample, output: D::Sample, after: Self) -> bool {
        &&& after.coefficients == self.coefficients
        &&& call_ensures(
            D::filter_step,
            (self.coefficients, self.memory, sample),
            (after.memory, output),
        )
    }

    /// Sends a sample through the filter.
    pub fn process(&mut self, sample: D::Sample) -> (output: D::Sample)
        ensures
            old(self).filters(sample, output, *final(self)),
    {
        let (memory, output) = D::filter_step(self.coefficients, self.memory, sample);
        self.memory = memory;
        output
    }

    /// Makes the filter forget the samples that went through it.
    pub fn reset(&mut self)
        ensures
            final(self).coefficients == old(self).coefficients,
            call_ensures(D::cleared_memory, (), final(self).memory),
    {
        self.memory = D::cleared_memory();
    }
}

impl<D: Dsp> Default for Biquad<D> {
    fn default() -> (filter: Self)
        ensures
            call_ensures(D::default_coefficients, (), filter.coefficients),
            call_ensures(D::cleared_memory, (), filter.memory),
    {
        Biquad { coefficients: D::default_coefficients(), memory: D::cleared_memory() }
    }
}

} // verus!
