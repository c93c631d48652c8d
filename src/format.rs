//! Descriptions of timecode signals.
use crate::lfsr::{fits, invertible};
use vstd::prelude::*;

verus! {

/// A timecode signal: the LFSR whose sequence it carries, and the frequency of its carrier.
#[derive(Debug, Clone, Copy)]
pub struct TimecodeFormat {
    /// Width of the LFSR in bits.
    pub size: usize,
    /// The first state of the sequence.
    pub seed: u32,
    /// The tap mask of the LFSR's feedback polynomial.
    pub taps: u32,
    /// Frequency of the carrier wave in Hz.
    pub signal_frequency_hz: u32,
}

impl TimecodeFormat {
    /// A format from which a decoder can be built: a register of 2 to 31 bits with a nonzero
    /// `size`-bit seed and nonzero taps.
    pub open spec fn wf(&self) -> bool {
        &&& 2 <= self.size <= 31
        &&& fits(self.size, self.seed)
        &&& self.seed != 0
        &&& self.taps != 0
    }

    /// Whether a decoder can be built from this format.
    pub fn is_valid(&self) -> (r: bool)
        ensures
            r == self.wf(),
    {
        2 <= self.size && self.size <= 31 && self.seed >> self.size == 0 && self.seed != 0
            && self.taps != 0
    }

    /// Whether a generator can be built from this format: a decoder can, and stepping its
    /// register back and forth is lossless.
    pub fn is_generatable(&self) -> (r: bool)
        ensures
            r == (self.wf() && invertible(self.size, self.taps)),
    {
        self.is_valid() && self.taps >> self.size == 0 && self.taps & 1 == 1
    }
}

/// Serato Control CD 1.0.0
///
/// The Serato Control CD can be downloaded free of cost from the Serato website as zipped WAV
/// file or ISO image.
pub fn serato_control_cd_1_0_0() -> (r: TimecodeFormat)
    ensures
        r.wf(),
        r.size == 20,
        r.seed == 0b1001_0001_0100_1010_1011,
        r.taps == 0b0011_0100_1101_0101_0101,
        r.signal_frequency_hz == 1000,
{
    let r = TimecodeFormat {
        size: 20,
        seed: 0b1001_0001_0100_1010_1011,
        // LFSR feedback polynomial:
        // x^20 + x^18 + x^16 + x^14 + x^12 + x^10 + x^9 + x^6 + x^4 + x^3 + 1
        taps: 0b0011_0100_1101_0101_0101,
        signal_frequency_hz: 1000,
    };
    assert(0b1001_0001_0100_1010_1011u32 >> 20u32 == 0) by (bit_vector);
    r
}

} // verus!
