//! The generator of a timecode signal, the inverse of the decoder: it steps the LFSR once per
//! cycle of the carrier and says, for each sample, where in the cycle it falls and which bits the
//! two channels carry there. The amplitude of a channel's wave encodes its bit.
use crate::bits::insert_msb_spec;
use crate::format::TimecodeFormat;
use crate::lfsr::{
    fits, invertible, lemma_advance_undoes_revert, lemma_next_state_fits, next_state_spec,
    parity_spec, previous_state_spec, FibonacciLfsr,
};
use crate::timecode::bit_value;
use vstd::prelude::*;

verus! {

/// One sample of the generated signal, before it is turned into a waveform.
///
/// The sample lies `phase / sample_rate_hz` cycles after the start of the signal. The primary
/// channel is a sine and the secondary a cosine of that phase; a channel's wave is at full
/// amplitude where its bit is 1 and at three quarters of it where its bit is 0.
#[derive(Debug, Clone, Copy)]
pub struct SampleFrame {
    pub phase: u128,
    pub sample_rate_hz: u32,
    pub primary_bit: bool,
    pub secondary_bit: bool,
}

/// What a [`TimecodeAudioGenerator`] is.
pub struct GeneratorView {
    pub lfsr: FibonacciLfsr,
    pub sample_rate_hz: u32,
    pub signal_frequency_hz: u32,
    pub previous_bit: bool,
    pub cycle_index: u128,
    pub index: u64,
}

/// Bit `size - 1` of `state`.
pub open spec fn top_bit(size: usize, state: u32) -> bool {
    (state >> ((size - 1) as u32)) & 1 == 1
}

impl GeneratorView {
    /// The phase of the next sample, in units of `1 / sample_rate_hz` cycles.
    pub open spec fn phase(self) -> int {
        self.index * self.signal_frequency_hz
    }

    /// The next sample lies in the last quarter of its cycle.
    pub open spec fn in_last_quarter(self) -> bool {
        4 * (self.phase() % self.sample_rate_hz as int) >= 3 * self.sample_rate_hz
    }

    /// The LFSR steps once per cycle, at the first sample in the last quarter of the cycle that
    /// the generator is waiting for.
    pub open spec fn steps(self) -> bool {
        self.phase() / self.sample_rate_hz as int == self.cycle_index && self.in_last_quarter()
    }

    /// The generator after the next sample, and the frame of that sample.
    pub open spec fn next_frame(self) -> (GeneratorView, SampleFrame) {
        let stepped = if self.steps() {
            GeneratorView {
                lfsr: FibonacciLfsr {
                    state: next_state_spec(self.lfsr.size, self.lfsr.state, self.lfsr.taps),
                    ..self.lfsr
                },
                previous_bit: top_bit(self.lfsr.size, self.lfsr.state),
                cycle_index: (self.cycle_index + 1) as u128,
                ..self
            }
        } else {
            self
        };
        let secondary_bit = top_bit(stepped.lfsr.size, stepped.lfsr.state);
        let primary_bit = if self.in_last_quarter() {
            stepped.previous_bit
        } else {
            secondary_bit
        };
        (
            GeneratorView { index: (self.index + 1) as u64, ..stepped },
            SampleFrame {
                phase: self.phase() as u128,
                sample_rate_hz: self.sample_rate_hz,
                primary_bit,
                secondary_bit,
            },
        )
    }
}

/// The top bit of the state that the register steps to, which the generator puts on the wave
/// for the cycle that follows, is the bit that moves a decoder's window forwards from the old
/// state to the new one.
pub proof fn lemma_carried_bit_moves_decoder_window(size: usize, state: u32, taps: u32)
    requires
        2 <= size <= 31,
        fits(size, state),
    ensures
        insert_msb_spec(
            size,
            state,
            bit_value(top_bit(size, next_state_spec(size, state, taps))),
        ) == next_state_spec(size, state, taps),
{
    let n = size as u32;
    let k = (size - 1) as u32;
    let b = parity_spec(state & taps);
    let s1 = next_state_spec(size, state, taps);
    let v = bit_value(top_bit(size, s1));
    assert(s1 == ((b & 1u32) << k) | (state >> 1u32));
    assert(top_bit(size, s1) == ((s1 >> k) & 1u32 == 1u32));
    assert(v == if (s1 >> k) & 1u32 == 1u32 { 1u32 } else { 0u32 });
    assert(n == k + 1 && n <= 31 && state >> n == 0 && s1 == ((b & 1u32) << k) | (state >> 1u32)
        && v == if (s1 >> k) & 1u32 == 1u32 { 1u32 } else { 0u32 } ==> ((v & 1u32) << k) | (state
        >> 1u32) == s1) by (bit_vector);
}

/// Generator of a timecode signal.
pub struct TimecodeAudioGenerator {
    lfsr: FibonacciLfsr,
    sample_rate_hz: u32,
    signal_frequency_hz: u32,
    previous_bit: bool,
    cycle_index: u128,
    index: u64,
}

impl View for TimecodeAudioGenerator {
    type V = GeneratorView;

    closed spec fn view(&self) -> GeneratorView {
        GeneratorView {
            lfsr: self.lfsr,
            sample_rate_hz: self.sample_rate_hz,
            signal_frequency_hz: self.signal_frequency_hz,
            previous_bit: self.previous_bit,
            cycle_index: self.cycle_index,
            index: self.index,
        }
    }
}

impl TimecodeAudioGenerator {
    /// The LFSR is a `size`-bit register of 2 to 31 bits, and the sample rate is nonzero.
    pub open spec fn wf(&self) -> bool {
        &&& 2 <= self@.lfsr.size <= 31
        &&& fits(self@.lfsr.size, self@.lfsr.state)
        &&& self@.sample_rate_hz > 0
    }

    /// A generator of `format` sampled at `sample_rate_hz`, at the seed of the format.
    ///
    /// The bit that the primary channel carries before the first step is read from the state
    /// that precedes the seed.
    pub fn new(format: &TimecodeFormat, sample_rate_hz: u32) -> (r: Self)
        requires
            format.wf(),
            invertible(format.size, format.taps),
            sample_rate_hz > 0,
        ensures
            r.wf(),
            r@.lfsr == (FibonacciLfsr { size: format.size, state: format.seed, taps: format.taps }),
            r@.sample_rate_hz == sample_rate_hz,
            r@.signal_frequency_hz == format.signal_frequency_hz,
            r@.previous_bit == ((previous_state_spec(format.size, format.seed, format.taps) >> ((
            format.size - 2) as u32)) & 1 == 1),
            r@.cycle_index == 0,
            r@.index == 0,
    {
        let mut lfsr = FibonacciLfsr { size: format.size, state: format.seed, taps: format.taps };
        let signal_frequency_hz = format.signal_frequency_hz;
        lfsr.revert();
        let previous_bit = (lfsr.state >> (lfsr.size - 2)) & 1 == 1;
        proof {
            lemma_advance_undoes_revert(format.size, format.seed, format.taps);
        }
        lfsr.advance();

        Self {
            lfsr,
            sample_rate_hz,
            signal_frequency_hz,
            cycle_index: 0,
            previous_bit,
            index: 0,
        }
    }

    /// The frame of the next sample; the LFSR steps where a new cycle's last quarter begins.
    pub fn next_frame(&mut self) -> (r: SampleFrame)
        requires
            old(self).wf(),
            old(self)@.index < u64::MAX,
        ensures
            final(self).wf(),
            (final(self)@, r) == old(self)@.next_frame(),
    {
        let sample_rate_hz = self.sample_rate_hz as u128;
        assert(self.index as u128 * self.signal_frequency_hz as u128
            <= 0x1_0000_0000_0000_0000_0000_0000) by (nonlinear_arith)
            requires
                self.index <= 0xffff_ffff_ffff_ffff,
                self.signal_frequency_hz <= 0xffff_ffff,
        ;
        let phase: u128 = self.index as u128 * self.signal_frequency_hz as u128;
        let cycle_index: u128 = phase / sample_rate_hz;
        assert(cycle_index <= phase) by (nonlinear_arith)
            requires
                cycle_index == phase / sample_rate_hz,
                sample_rate_hz >= 1,
        ;
        let in_last_quarter = 4 * (phase % sample_rate_hz) >= 3 * sample_rate_hz;

        if cycle_index == self.cycle_index && in_last_quarter {
            self.cycle_index = cycle_index + 1;
            self.previous_bit = (self.lfsr.state >> (self.lfsr.size - 1)) & 1 == 1;
            proof {
                lemma_next_state_fits(self.lfsr.size, self.lfsr.state, self.lfsr.taps);
            }
            self.lfsr.advance();
        }
        let secondary_bit = (self.lfsr.state >> (self.lfsr.size - 1)) & 1 == 1;
        let primary_bit = if in_last_quarter {
            self.previous_bit
        } else {
            secondary_bit
        };
        self.index = self.index + 1;
        SampleFrame { phase, sample_rate_hz: self.sample_rate_hz, primary_bit, secondary_bit }
    }

    /// The current state of the LFSR.
    pub fn state(&self) -> (r: u32)
        ensures
            r == self@.lfsr.state,
    {
        self.lfsr.state
    }

    /// The number of samples generated so far.
    pub fn index(&self) -> (r: u64)
        ensures
            r == self@.index,
    {
        self.index
    }
}

} // verus!
