use vinylla::bitstream::Bitstream;

#[test]
fn test_lookup_table() {
    let mut timecode = Bitstream::new(8, 0b00000001, 0b00011101);
    assert_eq!(timecode.position(), Some(0));
    assert_eq!(timecode.valid_bits(), 8);

    // old state:  0b00000001
    // taps:       0b00011101
    // next input: 0b00000001.count_ones() mod 2 = 1
    timecode.process_bit(1);
    // new state:  0b10000000

    assert_eq!(timecode.position(), Some(1));
    assert_eq!(timecode.valid_bits(), 9);

    // old state:  0b10000000
    // taps:       0b00011101
    // next input: 0b00000000.count_ones() mod 2 = 0
    timecode.process_bit(0);
    // new state:  0b01000000

    assert_eq!(timecode.position(), Some(2));
    assert_eq!(timecode.valid_bits(), 10);

    // old state:  0b01000000
    // taps:       0b00011101
    // next input: 0b00000000.count_ones() mod 2 = 0
    timecode.process_bit(0);
    // new state:  0b00100000

    assert_eq!(timecode.position(), Some(3));
    assert_eq!(timecode.valid_bits(), 11);

    // old state:  0b00100000
    // taps:       0b00011101
    // next input: 0b00000000.count_ones() mod 2 = 0
    timecode.process_bit(0);
    // new state:  0b00011000

    assert_eq!(timecode.position(), Some(4));
    assert_eq!(timecode.valid_bits(), 12);

    // old state:  0b00010000
    // taps:       0b00011101
    // next input: 0b00010000.count_ones() mod 2 = 1
    //
    // Here, we simulate skipping, resulting in an invalid bitstream until at least 8 bits were
    // processed. Hence, we push 0 even though the next bit is expected to be 0.
    timecode.process_bit(0);
    assert_eq!(timecode.position(), None);
    assert_eq!(timecode.valid_bits(), 1);

    timecode.process_bit(0);
    assert_eq!(timecode.position(), None);
    assert_eq!(timecode.valid_bits(), 2);

    timecode.process_bit(1);
    assert_eq!(timecode.position(), None);
    assert_eq!(timecode.valid_bits(), 3);

    timecode.process_bit(1);
    assert_eq!(timecode.position(), None);
    assert_eq!(timecode.valid_bits(), 4);

    timecode.process_bit(0);
    assert_eq!(timecode.position(), None);
    assert_eq!(timecode.valid_bits(), 5);

    timecode.process_bit(0);
    assert_eq!(timecode.position(), None);
    assert_eq!(timecode.valid_bits(), 6);

    timecode.process_bit(1);
    assert_eq!(timecode.position(), None);
    assert_eq!(timecode.valid_bits(), 7);

    timecode.process_bit(1);

    // At this point, 8 consecutive bits were processed, so bitstream is valid again
    assert_eq!(timecode.state(), 0b11001100);
    assert_eq!(timecode.position(), Some(182));
    assert_eq!(timecode.valid_bits(), 8);

    // old state:  0b11001100
    // taps:       0b00011101
    // next input: 0b00001100.count_ones() mod 2 = 0
    timecode.process_bit(0);
    // new state:  0b01100110

    assert_eq!(timecode.position(), Some(183));
    assert_eq!(timecode.valid_bits(), 9);

    // old state:  0b01100110
    // taps:       0b00011101
    // next input: 0b00000100.count_ones() mod 2 = 1
    timecode.process_bit(1);
    // new state:  0b10110011

    assert_eq!(timecode.position(), Some(184));
    assert_eq!(timecode.valid_bits(), 10);

    // old state:  0b10110011
    // taps:       0b00011101
    // next input: 0b00010001.count_ones() mod 2 = 0
    timecode.process_bit(0);
    // new state:  0b01011001

    assert_eq!(timecode.position(), Some(185));
    assert_eq!(timecode.valid_bits(), 11);

    timecode.process_bit_backward(1);
    assert_eq!(timecode.position(), Some(184));
    assert_eq!(timecode.valid_bits(), 12);

    timecode.process_bit_backward(0);
    assert_eq!(timecode.position(), Some(183));
    assert_eq!(timecode.valid_bits(), 13);

    timecode.process_bit(1);
    assert_eq!(timecode.position(), Some(184));
    assert_eq!(timecode.valid_bits(), 14);
}

#[test]
fn test_exactly_1_bit_produces_consecutive_positions() {
    // At any point in time, you can either process a 1 or a 0.
    //
    // Let a be the position before processing bit x and b be the position after processing
    // bit x. Then a and b should be consecutive positions for exactly one x in {0, 1}.

    // Process bit 0 and check if positions are consecutive
    let mut timecode0 = Bitstream::new(8, 0b11110000, 0b00011101);
    let position0_a = timecode0.position();
    timecode0.process_bit(0);
    let position0_b = timecode0.position();
    let consecutive0 = if let (Some(a), Some(b)) = (position0_a, position0_b) {
        a + 1 == b
    } else {
        false
    };

    // Now do the same for bit 1
    let mut timecode1 = Bitstream::new(8, 0b11110000, 0b00011101);
    let position1_a = timecode1.position();
    timecode1.process_bit(1);
    let position1_b = timecode1.position();
    let consecutive1 = if let (Some(a), Some(b)) = (position1_a, position1_b) {
        a + 1 == b
    } else {
        false
    };

    assert_ne!(consecutive0, consecutive1);
}

#[test]
fn feedback_bit_continues_and_other_bit_breaks() {
    let mut continued = Bitstream::new(8, 0b00000001, 0b00011101);
    continued.process_bit(1);
    assert_eq!(continued.position(), Some(1));

    // The other bit leads to the all-zero window, which no position has; the count of valid
    // bits is kept.
    let mut broken = Bitstream::new(8, 0b00000001, 0b00011101);
    broken.process_bit(0);
    assert_eq!(broken.state(), 0);
    assert_eq!(broken.position(), None);
    assert_eq!(broken.valid_bits(), 9);
    assert!(broken.is_valid());

    // From a window in the middle of the sequence, the wrong bit is a discontinuity.
    let mut broken = Bitstream::new(8, 0b01000000, 0b00011101);
    broken.process_bit(1);
    assert_eq!(broken.position(), None);
    assert_eq!(broken.valid_bits(), 1);
    assert!(!broken.is_valid());
}

#[test]
fn every_window_of_a_maximum_length_register_has_a_distinct_position() {
    let size = 8;
    let bitstream = Bitstream::new(size, 0b00000001, 0b00011101);
    let mut seen = vec![false; 255];
    let mut probe = Bitstream::new(size, 0b00000001, 0b00011101);
    for window in 1..256u32 {
        probe.set_state(window);
        let position = probe.position().expect("window without a position") as usize;
        assert!(position < 255);
        assert!(!seen[position]);
        seen[position] = true;
    }
    probe.set_state(0);
    assert_eq!(probe.position(), None);
    assert!(seen.iter().all(|&s| s));
    assert_eq!(bitstream.size(), 8);
}

#[test]
fn backward_bits_walk_back_from_seed_window() {
    let mut bitstream = Bitstream::new(5, 0b10101, 0b00101);
    // The state before 0b10101 in this sequence is 0b01011, at the last position.
    bitstream.process_bit_backward(1);
    assert_eq!(bitstream.state(), 0b01011);
    assert_eq!(bitstream.position(), None);
    assert_eq!(bitstream.valid_bits(), 1);
}

#[test]
fn backward_step_within_sequence_stays_valid() {
    let mut bitstream = Bitstream::new(5, 0b10101, 0b00101);
    bitstream.process_bit(0);
    assert_eq!(bitstream.state(), 0b01010);
    assert_eq!(bitstream.position(), Some(1));
    bitstream.process_bit_backward(1);
    assert_eq!(bitstream.state(), 0b10101);
    assert_eq!(bitstream.position(), Some(0));
    assert_eq!(bitstream.valid_bits(), 7);
}
