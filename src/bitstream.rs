//! The [`Bitstream`] processes decoded bits and maps the most recent window of them to a
//! position in the maximum-length sequence of an LFSR.
use crate::bits::{insert_lsb, insert_lsb_spec, insert_msb, insert_msb_spec, mask};
use crate::lfsr::{
    fits, invertible, is_maximum_length, lemma_fits_iff_below,
    lemma_maximum_length_visits_every_state, lemma_next_state_fits, lemma_orbit_states_distinct,
    next_state_spec,
    nth_state, parity_spec, FibonacciLfsr,
};
use vstd::arithmetic::power2::{lemma2_to64, lemma_pow2_pos, lemma_pow2_strictly_increases, pow2};
use vstd::prelude::*;

verus! {

/// The number of positions of a `size`-bit sequence: 2^size - 1.
pub open spec fn sequence_length(size: usize) -> nat {
    (pow2(size as nat) - 1) as nat
}

/// The position of `window` among the first `k` states of the register started at `seed`: the
/// last step `i < k` at which the register holds `window`.
pub open spec fn lookup_spec(size: usize, seed: u32, taps: u32, k: nat, window: u32) -> Option<
    u32,
>
    decreases k,
{
    if k == 0 {
        None
    } else if nth_state(size, seed, taps, (k - 1) as nat) == window {
        Some((k - 1) as u32)
    } else {
        lookup_spec(size, seed, taps, (k - 1) as nat, window)
    }
}

/// `valid_bits + 1`, held at `usize::MAX`.
pub open spec fn count_bit(valid_bits: usize) -> usize {
    if valid_bits < usize::MAX {
        (valid_bits + 1) as usize
    } else {
        valid_bits
    }
}

/// The positions before and after a forward step are both known and not consecutive.
pub open spec fn breaks_forward(before: Option<u32>, after: Option<u32>) -> bool {
    match (before, after) {
        (Some(p), Some(q)) => p + 1 != q,
        _ => false,
    }
}

/// The positions before and after a backward step are both known and not consecutive.
pub open spec fn breaks_backward(before: Option<u32>, after: Option<u32>) -> bool {
    match (before, after) {
        (Some(p), Some(q)) => p != q + 1,
        _ => false,
    }
}

/// What a [`Bitstream`] is: the register its table was built from, the current window of the
/// last `size` bits, and the number of bits processed since the last discontinuity.
pub struct BitstreamView {
    pub size: usize,
    pub seed: u32,
    pub taps: u32,
    pub window: u32,
    pub valid_bits: usize,
}

impl BitstreamView {
    pub open spec fn is_valid(self) -> bool {
        self.valid_bits >= self.size
    }

    /// The position of the current window, once enough consistent bits have been seen.
    pub open spec fn position(self) -> Option<u32> {
        if self.is_valid() {
            lookup_spec(self.size, self.seed, self.taps, sequence_length(self.size), self.window)
        } else {
            None
        }
    }

    pub open spec fn with_window(self, window: u32) -> BitstreamView {
        BitstreamView { window, ..self }
    }

    /// The bitstream after `bit` was processed in forwards direction.
    pub open spec fn process_bit(self, bit: u32) -> BitstreamView {
        let moved = self.with_window(insert_msb_spec(self.size, self.window, bit));
        let kept = if breaks_forward(self.position(), moved.position()) {
            0
        } else {
            self.valid_bits
        };
        BitstreamView { valid_bits: count_bit(kept), ..moved }
    }

    /// The bitstream after `bit` was processed in backwards direction.
    pub open spec fn process_bit_backward(self, bit: u32) -> BitstreamView {
        let moved = self.with_window(insert_lsb_spec(self.size, self.window, bit));
        let kept = if breaks_backward(self.position(), moved.position()) {
            0
        } else {
            self.valid_bits
        };
        BitstreamView { valid_bits: count_bit(kept), ..moved }
    }
}

/// Maps a bitstream to a position in the underlying lookup table.
///
/// The `Bitstream` uses an n-bit LFSR to populate a lookup table, which can then be used to
/// retrieve a position for some n-bit sequence. The table is dense: it is indexed by the window
/// itself.
pub struct Bitstream {
    lookup_table: Vec<Option<u32>>,
    size: usize,
    bitstream: u32,
    valid_bits: usize,
    seed: Ghost<u32>,
    taps: Ghost<u32>,
}

impl View for Bitstream {
    type V = BitstreamView;

    closed spec fn view(&self) -> BitstreamView {
        BitstreamView {
            size: self.size,
            seed: self.seed@,
            taps: self.taps@,
            window: self.bitstream,
            valid_bits: self.valid_bits,
        }
    }
}

impl Bitstream {
    /// The window is a `size`-bit value and the table holds, for each such value, its position.
    pub closed spec fn wf(&self) -> bool {
        &&& 2 <= self.size <= 31
        &&& fits(self.size, self.bitstream)
        &&& self.lookup_table@.len() == pow2(self.size as nat)
        &&& forall|w: u32|
            fits(self.size, w) ==> #[trigger] self.lookup_table@[w as int] == lookup_spec(
                self.size,
                self.seed@,
                self.taps@,
                sequence_length(self.size),
                w,
            )
    }

    /// Create a timecode bitstream from the `size`-bit LFSR with the given `seed` and `taps`.
    ///
    /// The table gives each state that the register reaches in its first 2^size - 1 steps the
    /// last of those steps at which it is reached; for a register of maximum length the state
    /// `i` steps after the seed has position `i`.
    pub fn new(size: usize, seed: u32, taps: u32) -> (r: Self)
        requires
            2 <= size <= 31,
            fits(size, seed),
            seed != 0,
            taps != 0,
        ensures
            r.wf(),
            r@ == (BitstreamView { size, seed, taps, window: seed, valid_bits: size }),
    {
        proof {
            lemma_sequence_length_bound(size);
        }
        let capacity = mask(size);
        let len = capacity as usize + 1;
        let mut lookup_table: Vec<Option<u32>> = Vec::new();
        while lookup_table.len() < len
            invariant
                lookup_table@.len() <= len,
                forall|j: int| 0 <= j < lookup_table@.len() ==> lookup_table@[j] is None,
            decreases len - lookup_table@.len(),
        {
            lookup_table.push(None);
        }
        proof {
            assert forall|w: u32| fits(size, w) implies #[trigger] lookup_table@[w as int]
                == lookup_spec(size, seed, taps, 0, w) by {
                lemma_fits_iff_below(size, w);
            }
        }
        let mut lfsr = FibonacciLfsr { size, state: seed, taps };
        let mut i: u32 = 0;
        while i < capacity
            invariant
                2 <= size <= 31,
                lfsr.size == size,
                lfsr.taps == taps,
                capacity as nat == sequence_length(size),
                lookup_table@.len() == pow2(size as nat),
                i <= capacity,
                lfsr.state == nth_state(size, seed, taps, i as nat),
                fits(size, lfsr.state),
                forall|w: u32|
                    fits(size, w) ==> #[trigger] lookup_table@[w as int] == lookup_spec(
                        size,
                        seed,
                        taps,
                        i as nat,
                        w,
                    ),
            decreases capacity - i,
        {
            proof {
                lemma_fits_iff_below(size, lfsr.state);
            }
            lookup_table[lfsr.state as usize] = Some(i);
            proof {
                lemma_next_state_fits(size, lfsr.state, taps);
                assert forall|w: u32| fits(size, w) implies #[trigger] lookup_table@[w as int]
                    == lookup_spec(size, seed, taps, (i + 1) as nat, w) by {
                    lemma_fits_iff_below(size, w);
                }
            }
            lfsr.advance();
            i = i + 1;
        }
        Bitstream {
            lookup_table,
            size,
            bitstream: seed,
            valid_bits: size,
            seed: Ghost(seed),
            taps: Ghost(taps),
        }
    }

    /// Process a single bit in forwards direction.
    ///
    /// If the positions before and after inserting the bit are not consecutive, the bitstream
    /// is marked as invalid. Processing more bits will let the bitstream become valid again.
    pub fn process_bit(&mut self, bit: u32)
        requires
            old(self).wf(),
        ensures
            final(self).wf(),
            final(self)@ == old(self)@.process_bit(bit),
    {
        let prev_position = self.position();
        proof {
            lemma_fits_window_moves(self.size, self.bitstream, bit);
        }
        self.bitstream = insert_msb(self.size, self.bitstream, bit);
        if let Some(prev_position) = prev_position {
            let next_position = self.position();
            if let Some(next_position) = next_position {
                if prev_position + 1 != next_position {
                    // Discard all previously processed bits
                    self.valid_bits = 0;
                }
            }
        }
        self.valid_bits = self.valid_bits.saturating_add(1);
    }

    /// Process a single bit in backwards direction.
    ///
    /// If the positions before and after inserting the bit are not consecutive, the bitstream
    /// is marked as invalid. Processing more bits will let the bitstream become valid again.
    pub fn process_bit_backward(&mut self, bit: u32)
        requires
            old(self).wf(),
        ensures
            final(self).wf(),
            final(self)@ == old(self)@.process_bit_backward(bit),
    {
        let prev_position = self.position();
        proof {
            lemma_fits_window_moves(self.size, self.bitstream, bit);
        }
        self.bitstream = insert_lsb(self.size, self.bitstream, bit);
        if let Some(prev_position) = prev_position {
            let next_position = self.position();
            if let Some(next_position) = next_position {
                if prev_position != next_position + 1 {
                    // Discard all previously processed bits
                    self.valid_bits = 0;
                }
            }
        }
        self.valid_bits = self.valid_bits.saturating_add(1);
    }

    /// Returns `true` if the position is considered valid.
    pub fn is_valid(&self) -> (r: bool)
        ensures
            r == self@.is_valid(),
    {
        self.valid_bits >= self.size
    }

    /// Retrieve the Position from the current bitstream.
    ///
    /// Returns None if the bitstream is considered invalid.
    pub fn position(&self) -> (r: Option<u32>)
        requires
            self.wf(),
        ensures
            r == self@.position(),
            r matches Some(p) ==> p < sequence_length(self@.size) && p < 0x7fff_ffff,
    {
        proof {
            lemma_fits_iff_below(self.size, self.bitstream);
            lemma_sequence_length_bound(self.size);
            lemma_lookup_below(
                self.size,
                self.seed@,
                self.taps@,
                sequence_length(self.size),
                self.bitstream,
            );
        }
        if !self.is_valid() {
            return None;
        }
        self.lookup_table[self.bitstream as usize]
    }

    /// The current window of the last `size` bits.
    pub fn state(&self) -> (r: u32)
        ensures
            r == self@.window,
    {
        self.bitstream
    }

    /// Replace the window of the last `size` bits, e.g. to resynchronise with a known signal.
    pub fn set_state(&mut self, state: u32)
        requires
            old(self).wf(),
            fits(old(self)@.size, state),
        ensures
            final(self).wf(),
            final(self)@ == old(self)@.with_window(state),
    {
        self.bitstream = state;
    }

    /// The number of bits processed since the last discontinuity.
    pub fn valid_bits(&self) -> (r: usize)
        ensures
            r == self@.valid_bits,
    {
        self.valid_bits
    }

    /// The number of bits of a window.
    pub fn size(&self) -> (r: usize)
        ensures
            r == self@.size,
    {
        self.size
    }
}

/// A sequence of a register of at most 31 bits has fewer than 2^31 - 1 positions.
proof fn lemma_sequence_length_bound(size: usize)
    requires
        1 <= size <= 31,
    ensures
        2 <= pow2(size as nat) <= 0x8000_0000,
        sequence_length(size) < 0x7fff_ffff + 1,
{
    lemma2_to64();
    if size < 31 {
        lemma_pow2_strictly_increases(size as nat, 31);
    }
    if size > 1 {
        lemma_pow2_strictly_increases(1, size as nat);
    }
}

/// Inserting a bit at either end keeps a window within `size` bits.
proof fn lemma_fits_window_moves(size: usize, window: u32, bit: u32)
    requires
        2 <= size <= 31,
        fits(size, window),
    ensures
        fits(size, insert_msb_spec(size, window, bit)),
        fits(size, insert_lsb_spec(size, window, bit)),
{
    let n = size as u32;
    let k = (size - 1) as u32;
    assert(n == k + 1 && n <= 31 && window >> n == 0 ==> (((bit & 1u32) << k) | (window >> 1u32))
        >> n == 0 && (((window << 1u32) & ((((1u32 << n) - 1u32) as u32))) | (bit & 1u32)) >> n
        == 0) by (bit_vector);
}

/// A window that the register holds at exactly one of the first `k` steps is found at that step.
proof fn lemma_lookup_finds(size: usize, seed: u32, taps: u32, k: nat, i: nat)
    requires
        i < k < 0x1_0000_0000,
        forall|j: nat|
            j < k && j != i ==> #[trigger] nth_state(size, seed, taps, j) != nth_state(
                size,
                seed,
                taps,
                i,
            ),
    ensures
        lookup_spec(size, seed, taps, k, nth_state(size, seed, taps, i)) == Some(i as u32),
    decreases k,
{
    if (k - 1) as nat != i {
        lemma_lookup_finds(size, seed, taps, (k - 1) as nat, i);
    }
}

/// For a register of maximum length, the lookup table gives every window that the register
/// reaches exactly one position: the window of step `i` has position `i`, a position found for a
/// window is the step at which the register holds it, and every nonzero `size`-bit window has a
/// position. So the positions cover `0..2^size - 1`.
pub proof fn lemma_reachable_windows_have_unique_positions(size: usize, seed: u32, taps: u32)
    requires
        invertible(size, taps),
        fits(size, seed),
        seed != 0,
        is_maximum_length(size, seed, taps),
    ensures
        forall|i: nat|
            i < sequence_length(size) ==> lookup_spec(
                size,
                seed,
                taps,
                sequence_length(size),
                #[trigger] nth_state(size, seed, taps, i),
            ) == Some(i as u32),
        forall|w: u32|
            #[trigger] lookup_spec(size, seed, taps, sequence_length(size), w) matches Some(p)
                ==> nth_state(size, seed, taps, p as nat) == w,
        forall|w: u32|
            fits(size, w) && w != 0 ==> #[trigger] lookup_spec(
                size,
                seed,
                taps,
                sequence_length(size),
                w,
            ) is Some,
{
    let n = sequence_length(size);
    lemma_sequence_length_bound(size);
    lemma_orbit_states_distinct(size, seed, taps, n);
    assert forall|i: nat| i < n implies lookup_spec(
        size,
        seed,
        taps,
        n,
        #[trigger] nth_state(size, seed, taps, i),
    ) == Some(i as u32) by {
        lemma_lookup_finds(size, seed, taps, n, i);
    }
    assert forall|w: u32| #[trigger] lookup_spec(size, seed, taps, n, w) matches Some(p)
        ==> nth_state(size, seed, taps, p as nat) == w by {
        lemma_lookup_below(size, seed, taps, n, w);
    }
    assert forall|w: u32| fits(size, w) && w != 0 implies #[trigger] lookup_spec(
        size,
        seed,
        taps,
        n,
        w,
    ) is Some by {
        lemma_maximum_length_visits_every_state(size, seed, taps, w);
        let i = choose|i: nat| i < n && nth_state(size, seed, taps, i) == w;
        lemma_lookup_finds(size, seed, taps, n, i);
    }
}

/// At a known position that is not the last of the sequence, exactly one of the two bits moves
/// the bitstream forwards to the next position: the feedback bit of the register.
pub proof fn lemma_exactly_one_bit_continues(bs: BitstreamView, p: u32)
    requires
        invertible(bs.size, bs.taps),
        fits(bs.size, bs.seed),
        bs.seed != 0,
        is_maximum_length(bs.size, bs.seed, bs.taps),
        bs.position() == Some(p),
        p + 1 < sequence_length(bs.size),
    ensures
        (bs.process_bit(0).position() == Some((p + 1) as u32)) != (bs.process_bit(1).position()
            == Some((p + 1) as u32)),
        bs.process_bit(parity_spec(bs.window & bs.taps)).position() == Some((p + 1) as u32),
{
    let size = bs.size;
    let n = sequence_length(size);
    lemma_sequence_length_bound(size);
    let next = (p + 1) as u32;
    lemma_lookup_below(size, bs.seed, bs.taps, n, bs.window);
    lemma_orbit_states_distinct(size, bs.seed, bs.taps, n);
    assert(fits(size, nth_state(size, bs.seed, bs.taps, p as nat)));
    lemma_reachable_windows_have_unique_positions(size, bs.seed, bs.taps);
    let fb = parity_spec(bs.window & bs.taps);
    assert(nth_state(size, bs.seed, bs.taps, (p + 1) as nat) == insert_msb_spec(
        size,
        bs.window,
        fb,
    ));
    assert(lookup_spec(size, bs.seed, bs.taps, n, nth_state(size, bs.seed, bs.taps, (p + 1) as nat))
        == Some(next));
    let ob = (1 - fb) as u32;
    let k = (size - 1) as u32;
    let w = bs.window;
    let n1 = size as u32;
    assert(fb <= 1);
    assert(w >> n1 == 0);
    assert(((fb == 0 && ob == 1) || (fb == 1 && ob == 0)) && k < 31 && n1 == k + 1 && w >> n1 == 0
        ==> ((fb & 1u32) << k) | (w >> 1u32) != ((ob & 1u32) << k) | (w >> 1u32)) by (bit_vector);
    let other = bs.process_bit(ob);
    let moved = bs.with_window(insert_msb_spec(size, w, ob));
    if let Some(q) = moved.position() {
        assert(nth_state(size, bs.seed, bs.taps, q as nat) == insert_msb_spec(size, w, ob));
        if q == next {
            assert(nth_state(size, bs.seed, bs.taps, q as nat) == nth_state(
                size,
                bs.seed,
                bs.taps,
                (p + 1) as nat,
            ));
        }
        assert(q != next);
    }
    assert(other.position() != Some(next));
    assert(fb == 0 || fb == 1);
}

/// A position found in the table is below the number of steps searched, and the register holds
/// the window at that step.
proof fn lemma_lookup_below(size: usize, seed: u32, taps: u32, k: nat, window: u32)
    requires
        k < 0x1_0000_0000,
    ensures
        lookup_spec(size, seed, taps, k, window) matches Some(p) ==> p < k && nth_state(
            size,
            seed,
            taps,
            p as nat,
        ) == window,
    decreases k,
{
    if k > 0 {
        lemma_lookup_below(size, seed, taps, (k - 1) as nat, window);
    }
}

} // verus!
