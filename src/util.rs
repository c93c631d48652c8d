//! Helper Utilities
use vstd::prelude::*;

verus! {

/// Discrete-time implementation of a simple RC low-pass filter to calculate the exponential
/// weighted moving average.
///
/// The smoothing factor α is held as the exact fraction `numerator / denominator`.
#[derive(Debug, Clone, Copy)]
pub struct ExponentialWeightedMovingAverage {
    /// The smoothed last output.
    pub last_output: i32,
    /// Numerator of the smoothing factor α.
    pub numerator: u64,
    /// Denominator of the smoothing factor α.
    pub denominator: u64,
}

/// `d * numerator / denominator`, rounded towards zero.
pub open spec fn scale_toward_zero(d: int, numerator: int, denominator: int) -> int {
    if d >= 0 {
        d * numerator / denominator
    } else {
        -((-d) * numerator / denominator)
    }
}

impl ExponentialWeightedMovingAverage {
    /// The smoothing factor is a fraction in `0..=1`.
    pub open spec fn wf(&self) -> bool {
        0 < self.denominator && self.numerator <= self.denominator && self.denominator
            <= u32::MAX as nat * 2
    }

    /// The next smoothed value for `input`: `last_output + α · (input - last_output)`, the
    /// product rounded towards zero.
    pub open spec fn smoothen_spec(&self, input: i32) -> i32 {
        (self.last_output + scale_toward_zero(
            input - self.last_output,
            self.numerator as int,
            self.denominator as int,
        )) as i32
    }

    /// A filter with time constant `1 / inverse_time_constant_hz` seconds, sampled at
    /// `sample_rate_hz`, starting from 0.
    pub fn new(inverse_time_constant_hz: u32, sample_rate_hz: u32) -> (r: Self)
        requires
            inverse_time_constant_hz > 0,
        ensures
            r.wf(),
            r.last_output == 0,
            r.numerator == inverse_time_constant_hz,
            r.denominator == inverse_time_constant_hz + sample_rate_hz,
    {
        let last_output: i32 = 0;
        let (numerator, denominator) = Self::calculate_smoothing_factor(
            inverse_time_constant_hz,
            sample_rate_hz,
        );
        ExponentialWeightedMovingAverage { last_output, numerator, denominator }
    }

    /// Calculate the smoothing factor.
    ///
    /// Using the time constant RC and the sample rate f_s, this calculates the smoothing factor
    /// α as the fraction (numerator, denominator):
    ///
    /// Δ_T = 1/f_s
    /// α = Δ_T / (RC + Δ_T) = (1/RC) / (1/RC + f_s)
    ///
    /// where Δ_T is the sampling period.
    fn calculate_smoothing_factor(inverse_time_constant_hz: u32, sample_rate_hz: u32) -> (r: (
        u64,
        u64,
    ))
        ensures
            r.0 == inverse_time_constant_hz,
            r.1 == inverse_time_constant_hz + sample_rate_hz,
    {
        (inverse_time_constant_hz as u64, inverse_time_constant_hz as u64 + sample_rate_hz as u64)
    }

    /// Calculate the difference between the current input and last output value.
    pub fn difference_to(&self, input: i32) -> (r: i64)
        ensures
            r == input - self.last_output,
    {
        input as i64 - self.last_output as i64
    }

    /// Calculate the next smoothed value.
    ///
    /// This calculates the next smoothed value yᵢ using the previous smoothed value yᵢ₋₁, the
    /// current unsmoothed value xᵢ and the smoothing factor α:
    ///
    /// yᵢ = α ⋅ xᵢ + (1 − α) ⋅ yᵢ₋₁ = yᵢ₋₁ + α ⋅ (xᵢ − yᵢ₋₁)
    ///
    /// The result lies between the last output and the input.
    pub fn smoothen(&self, input: i32) -> (r: i32)
        requires
            self.wf(),
        ensures
            r == self.smoothen_spec(input),
            self.last_output <= input ==> self.last_output <= r <= input,
            input <= self.last_output ==> input <= r <= self.last_output,
    {
        let difference = self.difference_to(input);
        let magnitude: u64 = if difference >= 0 {
            difference as u64
        } else {
            (-difference) as u64
        };
        let numerator = self.numerator;
        let denominator = self.denominator;
        assert(magnitude as u128 * numerator as u128 <= 0x1_0000_0000_0000_0000_0000)
            by (nonlinear_arith)
            requires
                magnitude <= 0x1_0000_0000,
                numerator <= 0x2_0000_0000,
        ;
        let scaled: u128 = magnitude as u128 * numerator as u128 / denominator as u128;
        proof {
            lemma_scaled_below(magnitude as int, numerator as int, denominator as int);
        }
        if difference >= 0 {
            (self.last_output as i64 + scaled as i64) as i32
        } else {
            (self.last_output as i64 - scaled as i64) as i32
        }
    }

    /// Calculate the next smoothed value and store it.
    pub fn process(&mut self, input: i32) -> (r: i32)
        requires
            old(self).wf(),
        ensures
            *final(self) == (ExponentialWeightedMovingAverage {
                last_output: old(self).smoothen_spec(input),
                ..*old(self)
            }),
            r == final(self).last_output,
    {
        self.last_output = self.smoothen(input);
        self.last_output
    }
}

proof fn lemma_scaled_below(m: int, numerator: int, denominator: int)
    requires
        0 <= m,
        0 <= numerator,
        0 < denominator,
        numerator <= denominator,
    ensures
        m * numerator / denominator <= m,
        0 <= m * numerator / denominator,
{
    assert(m * numerator <= m * denominator) by (nonlinear_arith)
        requires
            0 <= m,
            numerator <= denominator,
    ;
    assert(m * numerator / denominator <= m) by (nonlinear_arith)
        requires
            m * numerator <= m * denominator,
            0 < denominator,
    ;
    assert(0 <= m * numerator / denominator) by (nonlinear_arith)
        requires
            0 <= m,
            0 <= numerator,
            0 < denominator,
    ;
}

} // verus!
