//! The decoder: turns a stream of stereo sample pairs into bits, positions and a playback
//! direction.
use crate::bitstream::{Bitstream, BitstreamView};
use crate::format::TimecodeFormat;
use crate::lfsr::fits;
use crate::util::ExponentialWeightedMovingAverage;
use vstd::prelude::*;

verus! {

/// The half of its cycle that a channel's wave is in.
#[derive(Debug, Clone, Copy, PartialEq, Eq, Structural)]
pub enum WaveCycleStatus {
    Positive,
    Negative,
}

/// The playback direction of the timecode.
#[derive(Debug, Clone, Copy, PartialEq, Eq, Structural)]
pub enum TimecodeDirection {
    Forwards,
    Backwards,
}

/// Inverse of the time constant (0.1 ms) of the baseline filter of each channel, in Hz.
pub const INVERSE_TIME_CONSTANT_HZ: u32 = 10_000;

/// A 16-bit sample promoted to the 32-bit scale of the decoder.
pub open spec fn promote(sample: i16) -> i32 {
    (sample * 65536) as i32
}

/// Promote a 16-bit sample to 32 bits by shifting it left by 16 bits, which leaves headroom for
/// the arithmetic of the decoder.
pub fn sample_to_i32(sample: i16) -> (r: i32)
    ensures
        r == promote(sample),
        r == sample * 65536,
{
    (sample as i32) * 65536
}

pub open spec fn toggled(status: WaveCycleStatus) -> WaveCycleStatus {
    match status {
        WaveCycleStatus::Negative => WaveCycleStatus::Positive,
        WaveCycleStatus::Positive => WaveCycleStatus::Negative,
    }
}

/// What a [`TimecodeChannel`] is: its baseline filter, the half cycle its wave is in, and the
/// largest amplitude seen at a bit so far.
pub struct ChannelView {
    pub ewma: ExponentialWeightedMovingAverage,
    pub status: WaveCycleStatus,
    pub peak_threshold: u64,
}

impl ChannelView {
    /// The sample lies on the other side of the baseline than the current half cycle.
    pub open spec fn crosses(self, sample: i32) -> bool {
        match self.status {
            WaveCycleStatus::Negative => sample > self.ewma.last_output,
            WaveCycleStatus::Positive => sample < self.ewma.last_output,
        }
    }

    /// The channel after `sample`: the half cycle flips at a crossing and the baseline follows
    /// the sample.
    pub open spec fn after_sample(self, sample: i32) -> ChannelView {
        ChannelView {
            ewma: ExponentialWeightedMovingAverage {
                last_output: self.ewma.smoothen_spec(sample),
                ..self.ewma
            },
            status: if self.crosses(sample) {
                toggled(self.status)
            } else {
                self.status
            },
            ..self
        }
    }

    /// The distance of `sample` from the baseline.
    pub open spec fn amplitude(self, sample: i32) -> int {
        let d = sample - self.ewma.last_output;
        if d >= 0 {
            d
        } else {
            -d
        }
    }

    /// The peak threshold raised to the amplitude of `sample` where that is larger.
    pub open spec fn raised_peak(self, sample: i32) -> int {
        if self.amplitude(sample) > self.peak_threshold {
            self.amplitude(sample)
        } else {
            self.peak_threshold as int
        }
    }

    /// The bit read from `sample`: its amplitude is above 90 % of the raised peak threshold.
    pub open spec fn bit(self, sample: i32) -> bool {
        self.amplitude(sample) > self.raised_peak(sample) * 9 / 10
    }

    /// The channel after a bit was read from `sample`.
    pub open spec fn after_bit(self, sample: i32) -> ChannelView {
        ChannelView { peak_threshold: self.raised_peak(sample) as u64, ..self }
    }
}

/// One channel of the timecode signal: detects zero crossings against a moving baseline and reads
/// bits from the amplitude of the wave.
#[derive(Debug)]
pub struct TimecodeChannel {
    ewma: ExponentialWeightedMovingAverage,
    wave_cycle_status: WaveCycleStatus,
    peak_threshold: u64,
}

impl View for TimecodeChannel {
    type V = ChannelView;

    closed spec fn view(&self) -> ChannelView {
        ChannelView {
            ewma: self.ewma,
            status: self.wave_cycle_status,
            peak_threshold: self.peak_threshold,
        }
    }
}

impl TimecodeChannel {
    const INITIAL_PEAK_THRESHOLD: u64 = 0;

    pub closed spec fn wf(&self) -> bool {
        self.ewma.wf()
    }

    /// A channel for a signal sampled at `sample_rate_hz`, in its positive half cycle.
    pub fn new(sample_rate_hz: u32) -> (r: Self)
        ensures
            r.wf(),
            r@.ewma.last_output == 0,
            r@.ewma.numerator == INVERSE_TIME_CONSTANT_HZ,
            r@.ewma.denominator == INVERSE_TIME_CONSTANT_HZ + sample_rate_hz,
            r@.status == WaveCycleStatus::Positive,
            r@.peak_threshold == 0,
    {
        let ewma = ExponentialWeightedMovingAverage::new(INVERSE_TIME_CONSTANT_HZ, sample_rate_hz);

        let wave_cycle_status = WaveCycleStatus::Positive;
        let peak_threshold = Self::INITIAL_PEAK_THRESHOLD;

        TimecodeChannel { ewma, wave_cycle_status, peak_threshold }
    }

    /// Returns true if the wave has crossed zero.
    pub fn has_crossed_zero(&self, sample: i32) -> (r: bool)
        ensures
            r == self@.crosses(sample),
    {
        match self.wave_cycle_status {
            WaveCycleStatus::Negative => sample > self.ewma.last_output,
            WaveCycleStatus::Positive => sample < self.ewma.last_output,
        }
    }

    /// Process a sample and detect zero crossing.
    pub fn process_sample(&mut self, sample: i32) -> (r: bool)
        requires
            old(self).wf(),
        ensures
            final(self).wf(),
            final(self)@ == old(self)@.after_sample(sample),
            r == old(self)@.crosses(sample),
    {
        let crossed_zero = self.has_crossed_zero(sample);
        if crossed_zero {
            self.wave_cycle_status = match self.wave_cycle_status {
                WaveCycleStatus::Negative => WaveCycleStatus::Positive,
                WaveCycleStatus::Positive => WaveCycleStatus::Negative,
            };
        }

        self.ewma.process(sample);

        crossed_zero
    }

    /// Reads a bit from the sample and adjust the threshold.
    ///
    /// The peak threshold only ever rises, to the largest amplitude seen; a bit is 1 where the
    /// amplitude is above 90 % of it.
    pub fn bit_from_sample(&mut self, sample: i32) -> (r: bool)
        requires
            old(self).wf(),
        ensures
            final(self).wf(),
            final(self)@ == old(self)@.after_bit(sample),
            r == old(self)@.bit(sample),
    {
        let difference = self.ewma.difference_to(sample);
        let amplitude: u64 = if difference >= 0 {
            difference as u64
        } else {
            (-difference) as u64
        };
        if amplitude > self.peak_threshold {
            self.peak_threshold = amplitude;
        }
        let threshold: u64 = self.peak_threshold / 10 * 9 + self.peak_threshold % 10 * 9 / 10;
        proof {
            let p = self.peak_threshold as int;
            assert(p / 10 * 9 + p % 10 * 9 / 10 == p * 9 / 10) by (nonlinear_arith)
                requires
                    p >= 0,
            ;
        }
        amplitude > threshold
    }
}

/// What a [`Timecode`] decoder is.
pub struct TimecodeView {
    pub bitstream: BitstreamView,
    pub primary: ChannelView,
    pub secondary: ChannelView,
    pub direction: TimecodeDirection,
    pub primary_crossed_zero: bool,
    pub secondary_crossed_zero: bool,
}

pub open spec fn bit_value(bit: bool) -> u32 {
    if bit {
        1
    } else {
        0
    }
}

impl TimecodeView {
    /// Both channels rest on a zero baseline in their positive half cycle.
    pub open spec fn is_at_rest(self) -> bool {
        &&& self.primary.ewma.wf()
        &&& self.secondary.ewma.wf()
        &&& self.primary.ewma.last_output == 0
        &&& self.secondary.ewma.last_output == 0
        &&& self.primary.status == WaveCycleStatus::Positive
        &&& self.secondary.status == WaveCycleStatus::Positive
    }

    /// The decoder after the sample pair `(primary_sample, secondary_sample)`, and the bit event
    /// that the pair produced, if any: the bit read and the position after it.
    pub open spec fn process_channels(self, primary_sample: i16, secondary_sample: i16) -> (
        TimecodeView,
        Option<(bool, Option<u32>)>,
    ) {
        let x = promote(primary_sample);
        let y = promote(secondary_sample);
        let pz = self.primary.crosses(x);
        let sz = self.secondary.crosses(y);
        let primary = self.primary.after_sample(x);
        let secondary = self.secondary.after_sample(y);
        let same = primary.status == secondary.status;
        // Where both channels cross zero in the same sample, the secondary channel decides.
        let direction = if sz {
            if !same {
                TimecodeDirection::Forwards
            } else {
                TimecodeDirection::Backwards
            }
        } else if pz {
            if same {
                TimecodeDirection::Forwards
            } else {
                TimecodeDirection::Backwards
            }
        } else {
            self.direction
        };
        let moved = TimecodeView {
            primary,
            secondary,
            direction,
            primary_crossed_zero: pz,
            secondary_crossed_zero: sz,
            ..self
        };
        if sz && primary.status == WaveCycleStatus::Positive {
            let bit = primary.bit(x);
            let bitstream = if direction == TimecodeDirection::Forwards {
                self.bitstream.process_bit(bit_value(bit))
            } else {
                self.bitstream.process_bit_backward(bit_value(bit))
            };
            (
                TimecodeView { primary: primary.after_bit(x), bitstream, ..moved },
                Some((bit, bitstream.position())),
            )
        } else {
            (moved, None)
        }
    }
}

/// A decoder at rest that is fed silence emits no bit event and stays at rest; a new decoder is
/// at rest, so silence never yields a bit.
pub proof fn lemma_silence_emits_no_bits(t: TimecodeView)
    requires
        t.is_at_rest(),
    ensures
        t.process_channels(0, 0).1 is None,
        t.process_channels(0, 0).0.is_at_rest(),
{
}

/// Decoder of a timecode signal.
pub struct Timecode {
    bitstream: Bitstream,
    primary_channel: TimecodeChannel,
    secondary_channel: TimecodeChannel,
    direction: TimecodeDirection,
    primary_crossed_zero: bool,
    secondary_crossed_zero: bool,
}

impl View for Timecode {
    type V = TimecodeView;

    closed spec fn view(&self) -> TimecodeView {
        TimecodeView {
            bitstream: self.bitstream@,
            primary: self.primary_channel@,
            secondary: self.secondary_channel@,
            direction: self.direction,
            primary_crossed_zero: self.primary_crossed_zero,
            secondary_crossed_zero: self.secondary_crossed_zero,
        }
    }
}

impl Timecode {
    pub closed spec fn wf(&self) -> bool {
        &&& self.bitstream.wf()
        &&& self.primary_channel.wf()
        &&& self.secondary_channel.wf()
    }

    /// A decoder for `format` sampled at `sample_rate_hz`, positioned at the seed of the format.
    pub fn new(format: &TimecodeFormat, sample_rate_hz: u32) -> (r: Self)
        requires
            format.wf(),
        ensures
            r.wf(),
            r@.bitstream == (BitstreamView {
                size: format.size,
                seed: format.seed,
                taps: format.taps,
                window: format.seed,
                valid_bits: format.size,
            }),
            r@.primary == r@.secondary,
            r@.primary.ewma.last_output == 0,
            r@.primary.ewma.numerator == INVERSE_TIME_CONSTANT_HZ,
            r@.primary.ewma.denominator == INVERSE_TIME_CONSTANT_HZ + sample_rate_hz,
            r@.primary.status == WaveCycleStatus::Positive,
            r@.primary.peak_threshold == 0,
            r@.direction == TimecodeDirection::Forwards,
            !r@.primary_crossed_zero,
            !r@.secondary_crossed_zero,
            r@.is_at_rest(),
    {
        let bitstream = Bitstream::new(format.size, format.seed, format.taps);
        let primary_channel = TimecodeChannel::new(sample_rate_hz);
        let secondary_channel = TimecodeChannel::new(sample_rate_hz);

        Self {
            bitstream,
            primary_channel,
            secondary_channel,
            direction: TimecodeDirection::Forwards,
            primary_crossed_zero: false,
            secondary_crossed_zero: false,
        }
    }

    /// Returns the current state of the bitstream
    pub fn state(&self) -> (r: u32)
        ensures
            r == self@.bitstream.window,
    {
        self.bitstream.state()
    }

    /// Replace the current state of the bitstream.
    pub fn set_state(&mut self, state: u32)
        requires
            old(self).wf(),
            fits(old(self)@.bitstream.size, state),
        ensures
            final(self).wf(),
            final(self)@ == (TimecodeView {
                bitstream: old(self)@.bitstream.with_window(state),
                ..old(self)@
            }),
    {
        self.bitstream.set_state(state);
    }

    /// The number of bits of the state of the bitstream.
    pub fn size(&self) -> (r: usize)
        ensures
            r == self@.bitstream.size,
    {
        self.bitstream.size()
    }

    /// The playback direction detected at the last zero crossing.
    pub fn direction(&self) -> (r: TimecodeDirection)
        ensures
            r == self@.direction,
    {
        self.direction
    }

    /// Whether the primary channel crossed zero at the last sample pair.
    pub fn primary_crossed_zero(&self) -> (r: bool)
        ensures
            r == self@.primary_crossed_zero,
    {
        self.primary_crossed_zero
    }

    /// Whether the secondary channel crossed zero at the last sample pair.
    pub fn secondary_crossed_zero(&self) -> (r: bool)
        ensures
            r == self@.secondary_crossed_zero,
    {
        self.secondary_crossed_zero
    }

    /// Process one stereo sample pair.
    ///
    /// Returns `None` where the pair produced no bit event; else the bit that was read and the
    /// position that the bitstream has after it, where that is known.
    pub fn process_channels(&mut self, primary_sample: i16, secondary_sample: i16) -> (r: Option<
        (bool, Option<u32>),
    >)
        requires
            old(self).wf(),
        ensures
            final(self).wf(),
            (final(self)@, r) == old(self)@.process_channels(primary_sample, secondary_sample),
    {
        let primary_sample = sample_to_i32(primary_sample);
        let secondary_sample = sample_to_i32(secondary_sample);
        self.primary_crossed_zero = self.primary_channel.process_sample(primary_sample);
        self.secondary_crossed_zero = self.secondary_channel.process_sample(secondary_sample);

        // Detect the playback direction of the timecode.
        //
        //                         Assuming the primary channel crossed zero:
        //  ──╮   ╭───╮   ╭(4)╮    If both the primary wave and the secondary
        //    │  (2)  │   │   │    wave are negative (1) or both are positive
        //  ─────────────────────  (2), then the timecode is playing forwards,
        //   (1)  │   │   │   │    otherwise it's playing backwards.
        //    ╰───╯   ╰(3)╯   ╰──
        //                         Assuming the secondary channel crossed zero:
        //  ╮   ╭(2)╮   ╭───╮   ╭  If the primary wave is negative and the
        //  │   │   │  (3)  │   │  secondary wave is positive (3) or if the
        //  ─────────────────────  primary wave is positive and the secondary
        //  │   │   │   │  (4)  │  wave is positive (4), the timecode is playing
        //  ╰(1)╯   ╰───╯   ╰───╯  forwards, otherwise it's playing backwards.
        //
        // Where both channels cross zero in the same sample, the secondary channel is looked at
        // last and decides.
        let same_status = self.primary_channel.wave_cycle_status
            == self.secondary_channel.wave_cycle_status;
        if self.primary_crossed_zero {
            self.direction = if same_status {
                TimecodeDirection::Forwards
            } else {
                TimecodeDirection::Backwards
            };
        }
        if self.secondary_crossed_zero {
            self.direction = if !same_status {
                TimecodeDirection::Forwards
            } else {
                TimecodeDirection::Backwards
            };
        }

        // Read a bit from the timecode.
        //
        // The timecode waveform has a constant frequency with a variable
        // amplitude. The variations in the amplitude encode the binary data
        // stream. The primary channel's amplitude is read as a bit when
        // the secondary channel's waveform crosses 0 and the primary
        // channel's waveform is positive. Peaks with a larger amplitude
        // are bit 1 (diagram positions 1 and 3) and peaks with a lower
        // amplitude are bit 0 (diagram position 2).
        //
        //    "1"             "1"
        //   ╭───╮    "0"    ╭───╮
        //   │   │   ╭───╮   │   │
        // ───(1)─────(2)─────(3)───  primary channel
        //   │   ╰───╯   │   │   │
        // ──╯           ╰───╯   ╰──
        //
        // ╭───╮           ╭───╮   ╭
        // │   │   ╭───╮   │   │   │
        // ───(1)─────(2)─────(3)───  secondary channel
        // │   ╰───╯   │   │   │   │
        // ╯           ╰───╯   ╰───╯
        //
        if self.secondary_crossed_zero && self.primary_channel.wave_cycle_status
            == WaveCycleStatus::Positive {
            let bit = self.primary_channel.bit_from_sample(primary_sample);
            let bit_value: u32 = if bit {
                1
            } else {
                0
            };
            if self.direction == TimecodeDirection::Forwards {
                self.bitstream.process_bit(bit_value);
            } else {
                self.bitstream.process_bit_backward(bit_value);
            }
            return Some((bit, self.bitstream.position()));
        }
        None
    }
}

} // verus!
