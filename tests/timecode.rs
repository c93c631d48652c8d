use vinylla::timecode::{sample_to_i32, TimecodeChannel, TimecodeDirection};
use vinylla::util::ExponentialWeightedMovingAverage;
use vinylla::{serato_control_cd_1_0_0, Timecode, TimecodeFormat};

fn small_format() -> TimecodeFormat {
    TimecodeFormat {
        size: 8,
        seed: 0b00000001,
        taps: 0b00011101,
        signal_frequency_hz: 1000,
    }
}

#[test]
fn silence_yields_no_bit_events() {
    let sample_rate_hz = 44100;
    let mut timecode = Timecode::new(&serato_control_cd_1_0_0(), sample_rate_hz);
    let initial_state = timecode.state();
    for _ in 0..10 * sample_rate_hz {
        assert_eq!(timecode.process_channels(0, 0), None);
    }
    assert_eq!(timecode.state(), initial_state);
    assert!(!timecode.primary_crossed_zero());
    assert!(!timecode.secondary_crossed_zero());
}

#[test]
fn sample_promotion_shifts_by_sixteen_bits() {
    assert_eq!(sample_to_i32(0), 0);
    assert_eq!(sample_to_i32(1), 65536);
    assert_eq!(sample_to_i32(-1), -65536);
    assert_eq!(sample_to_i32(i16::MAX), 32767 << 16);
    assert_eq!(sample_to_i32(i16::MIN), i32::MIN);
}

#[test]
fn moving_average_steps_by_smoothing_factor() {
    let mut ewma = ExponentialWeightedMovingAverage::new(10_000, 44100);
    assert_eq!(ewma.numerator, 10_000);
    assert_eq!(ewma.denominator, 54_100);
    assert_eq!(ewma.smoothen(54_100), 10_000);
    assert_eq!(ewma.smoothen(-54_100), -10_000);
    assert_eq!(ewma.smoothen(100), 18);
    assert_eq!(ewma.smoothen(-100), -18);
    assert_eq!(ewma.process(6_553_600), 1_211_386);
    assert_eq!(ewma.last_output, 1_211_386);
    assert_eq!(ewma.difference_to(1_211_386), 0);
    assert_eq!(ewma.difference_to(i32::MIN), i32::MIN as i64 - 1_211_386);
}

#[test]
fn moving_average_handles_full_scale_swings() {
    let mut ewma = ExponentialWeightedMovingAverage::new(10_000, 44100);
    ewma.last_output = i32::MIN;
    let next = ewma.process(i32::MAX);
    assert!(next > i32::MIN);
    assert_eq!(next as i64, i32::MIN as i64 + (u32::MAX as i64 * 10_000 / 54_100));
}

#[test]
fn channel_detects_zero_crossings_against_baseline() {
    let mut channel = TimecodeChannel::new(44100);
    assert!(!channel.has_crossed_zero(0));
    assert!(!channel.has_crossed_zero(1));
    assert!(channel.has_crossed_zero(-1));
    assert!(channel.process_sample(-65536));
    // Now in the negative half cycle, with the baseline at -12113.
    assert!(!channel.has_crossed_zero(-20000));
    assert!(channel.has_crossed_zero(0));
    assert!(!channel.process_sample(-65536));
}

#[test]
fn channel_reads_bits_against_ninety_percent_of_peak() {
    let mut channel = TimecodeChannel::new(44100);
    assert!(channel.bit_from_sample(1000));
    assert!(channel.bit_from_sample(950));
    assert!(!channel.bit_from_sample(900));
    assert!(!channel.bit_from_sample(800));
    assert!(channel.bit_from_sample(-1000));
    assert!(channel.bit_from_sample(2000));
    assert!(!channel.bit_from_sample(1000));
}

#[test]
fn forward_bit_event_advances_position() {
    let mut timecode = Timecode::new(&small_format(), 44100);
    assert_eq!(timecode.size(), 8);
    assert_eq!(timecode.process_channels(100, -100), Some((true, Some(1))));
    assert_eq!(timecode.direction(), TimecodeDirection::Forwards);
    assert!(!timecode.primary_crossed_zero());
    assert!(timecode.secondary_crossed_zero());
    assert_eq!(timecode.state(), 0b10000000);
}

#[test]
fn backward_bit_event_inserts_at_low_end() {
    let mut timecode = Timecode::new(&small_format(), 44100);
    timecode.process_channels(100, -100);
    assert_eq!(timecode.process_channels(100, 100), Some((false, None)));
    assert_eq!(timecode.direction(), TimecodeDirection::Backwards);
    assert_eq!(timecode.state(), 0);
}

#[test]
fn primary_crossing_sets_direction_without_bit_event() {
    let mut timecode = Timecode::new(&small_format(), 44100);
    assert_eq!(timecode.process_channels(-100, 0), None);
    assert!(timecode.primary_crossed_zero());
    assert!(!timecode.secondary_crossed_zero());
    assert_eq!(timecode.direction(), TimecodeDirection::Backwards);
}

#[test]
fn secondary_crossing_decides_when_both_cross() {
    let mut timecode = Timecode::new(&small_format(), 44100);
    // Both channels leave the positive half cycle together: both are then negative, which a
    // primary crossing reads as forwards and a secondary crossing as backwards.
    assert_eq!(timecode.process_channels(-100, -100), None);
    assert!(timecode.primary_crossed_zero());
    assert!(timecode.secondary_crossed_zero());
    assert_eq!(timecode.direction(), TimecodeDirection::Backwards);
}

#[test]
fn set_state_replaces_window() {
    let mut timecode = Timecode::new(&small_format(), 44100);
    timecode.set_state(0b01000000);
    assert_eq!(timecode.state(), 0b01000000);
}

#[test]
fn serato_format_values() {
    let format = serato_control_cd_1_0_0();
    assert_eq!(format.size, 20);
    assert_eq!(format.seed, 0x914AB);
    assert_eq!(format.taps, 0x34D55);
    assert_eq!(format.signal_frequency_hz, 1000);
    let timecode = Timecode::new(&format, 48000);
    assert_eq!(timecode.state(), 0x914AB);
}
