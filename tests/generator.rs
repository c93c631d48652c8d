use vinylla::lfsr::FibonacciLfsr;
use vinylla::{
    serato_control_cd_1_0_0, SampleFrame, Timecode, TimecodeAudioGenerator, TimecodeFormat,
};

/// Turns a frame into the 16-bit stereo sample pair of the signal.
fn synthesize(frame: SampleFrame) -> (i16, i16) {
    let cycle = frame.phase as f64 / f64::from(frame.sample_rate_hz);
    let angle = 2.0 * std::f64::consts::PI * cycle;
    let (mut primary, mut secondary) = angle.sin_cos();
    if !frame.primary_bit {
        primary *= 0.75;
    }
    if !frame.secondary_bit {
        secondary *= 0.75;
    }
    if cycle < 1.0 {
        primary *= cycle;
        secondary *= cycle;
    }
    let scale = |sample: f64| (sample * f64::from(i16::MAX) * 0.5).round() as i16;
    (scale(primary), scale(secondary))
}

fn next_sample(generator: &mut TimecodeAudioGenerator) -> (i16, i16) {
    synthesize(generator.next_frame())
}

fn test_format(format: &TimecodeFormat, sample_rate_hz: u32) {
    let mut generator = TimecodeAudioGenerator::new(format, sample_rate_hz);
    let mut timecode = Timecode::new(format, sample_rate_hz);
    let initial_state = generator.state();
    let mut previous_timecode_state = timecode.state();
    let mut state_changed = false;
    assert_eq!(timecode.state(), initial_state);
    assert_eq!(timecode.state(), generator.state());

    // Skip the first few samples until the bit detection works properly
    for _ in 0..20 {
        let (left, right) = next_sample(&mut generator);
        timecode.process_channels(left, right);
    }
    timecode.set_state(generator.state());

    loop {
        let (left, right) = next_sample(&mut generator);
        timecode.process_channels(left, right);
        if timecode.state() != previous_timecode_state {
            assert_eq!(timecode.state(), generator.state());
            previous_timecode_state = timecode.state();
            state_changed = true;
        }

        if state_changed && generator.state() == initial_state {
            break;
        }
    }
}

#[test]
fn test_serato_control_cd_1_0_0_44100hz() {
    test_format(&serato_control_cd_1_0_0(), 44100);
}

#[test]
fn test_serato_control_cd_1_0_0_48000hz() {
    test_format(&serato_control_cd_1_0_0(), 48000);
}

#[test]
fn test_generator() {
    let mut generator = TimecodeAudioGenerator::new(&serato_control_cd_1_0_0(), 44100);
    let initial_state = generator.state();
    loop {
        generator.next_frame();
        if generator.state() == initial_state {
            break;
        }
    }
}

#[test]
fn generator_steps_at_last_quarter_of_each_cycle() {
    let format = serato_control_cd_1_0_0();
    let mut generator = TimecodeAudioGenerator::new(&format, 44100);
    let mut lfsr = FibonacciLfsr {
        size: format.size,
        state: format.seed,
        taps: format.taps,
    };
    // The seed's top bit is 1.
    let first = generator.next_frame();
    assert_eq!(first.phase, 0);
    assert_eq!(first.sample_rate_hz, 44100);
    assert!(first.primary_bit);
    assert!(first.secondary_bit);
    // 33 * 1000 % 44100 is below three quarters of 44100, 34 * 1000 is not.
    for _ in 1..34 {
        let frame = generator.next_frame();
        assert_eq!(frame.primary_bit, frame.secondary_bit);
        assert_eq!(generator.state(), format.seed);
    }
    assert_eq!(generator.index(), 34);
    let stepped = generator.next_frame();
    assert_eq!(stepped.phase, 34_000);
    let next = lfsr.advance();
    assert_eq!(generator.state(), next);
    assert!(stepped.primary_bit);
    assert_eq!(stepped.secondary_bit, next >> 19 == 1);
    // The rest of the cycle keeps the state.
    for _ in 35..45 {
        generator.next_frame();
        assert_eq!(generator.state(), next);
    }
    // The next step comes in the last quarter of the second cycle: 78 * 1000 % 44100 >= 33075.
    for _ in 45..78 {
        generator.next_frame();
        assert_eq!(generator.state(), next);
    }
    generator.next_frame();
    assert_eq!(generator.state(), lfsr.advance());
}

#[test]
fn generated_frames_fade_in_over_first_cycle() {
    let mut generator = TimecodeAudioGenerator::new(&serato_control_cd_1_0_0(), 44100);
    assert_eq!(next_sample(&mut generator), (0, 0));
    let (primary, secondary) = next_sample(&mut generator);
    assert!(primary > 0);
    assert!(secondary > 0);
}
