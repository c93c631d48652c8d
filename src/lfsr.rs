//! Fibonacci Linear Feedback Shift Register (LFSR).
//!
//! An n-bit LFSR generates a bitstream from an n-bit state. For each cycle, the bits of the state
//! that are selected by the tap mask are XOR'ed and the result is fed back into the register as
//! its new most significant bit. The least significant bit that is pushed out of the register is
//! the output bit.
//!
//! With a primitive feedback polynomial the register visits all 2^n - 1 nonzero states before it
//! comes back to its seed, which makes every n-bit window of the output stream unique.
use crate::bits::{
    insert_lsb, insert_lsb_spec, insert_msb, insert_msb_spec, rotate_right, rotate_right_spec,
};
use vstd::arithmetic::power2::{lemma_pow2_pos, pow2};
use vstd::bits::{lemma_u32_pow2_no_overflow, lemma_u32_shl_is_mul};
use vstd::prelude::*;
use vstd::set_lib::{
    lemma_int_range, lemma_len_subset, lemma_map_size, lemma_subset_equality, set_int_range,
};

verus! {

/// The number of set bits of `x`.
pub open spec fn popcount(x: u32) -> nat
    decreases x,
{
    if x == 0 {
        0
    } else {
        proof {
            assert(x != 0 ==> (x >> 1u32) < x) by (bit_vector);
        }
        (x & 1u32) as nat + popcount(x >> 1u32)
    }
}

/// 1 if `x` has an odd number of set bits, else 0.
pub open spec fn parity_spec(x: u32) -> u32 {
    (popcount(x) % 2) as u32
}

/// The state that follows `state`: the parity of the tapped bits enters at the top.
pub open spec fn next_state_spec(size: usize, state: u32, taps: u32) -> u32 {
    insert_msb_spec(size, state, parity_spec(state & taps))
}

/// The state that precedes `state`: the taps turned one bit to the right select the bit that
/// re-enters at the bottom.
pub open spec fn previous_state_spec(size: usize, state: u32, taps: u32) -> u32 {
    insert_lsb_spec(size, state, parity_spec(state & rotate_right_spec(size, taps)))
}

/// The state of the register `i` steps after `seed`.
pub open spec fn nth_state(size: usize, seed: u32, taps: u32, i: nat) -> u32
    decreases i,
{
    if i == 0 {
        seed
    } else {
        next_state_spec(size, nth_state(size, seed, taps, (i - 1) as nat), taps)
    }
}

/// `x` is a `size`-bit value.
pub open spec fn fits(size: usize, x: u32) -> bool {
    x >> (size as u32) == 0
}

/// A register shape for which stepping back undoes stepping forward: the tap mask is a
/// `size`-bit value that taps the lowest bit (the constant term of the feedback polynomial).
pub open spec fn invertible(size: usize, taps: u32) -> bool {
    2 <= size <= 31 && fits(size, taps) && taps & 1 == 1
}

proof fn lemma_popcount_unfold(y: u32)
    ensures
        popcount(y) == (y & 1u32) as nat + popcount(y >> 1u32),
{
    if y == 0 {
        assert(y == 0 ==> y & 1u32 == 0 && y >> 1u32 == 0) by (bit_vector);
    }
}

/// Setting bit `k` of a value below `2^k` adds one set bit.
proof fn lemma_popcount_top(c: u32, k: u32, z: u32)
    requires
        c <= 1,
        k < 32,
        z >> k == 0,
    ensures
        popcount((c << k) | z) == c + popcount(z),
    decreases k,
{
    let y = (c << k) | z;
    if k == 0 {
        assert(z >> 0u32 == 0 && c <= 1 ==> z == 0 && (c << 0u32) | z == c) by (bit_vector);
        lemma_popcount_unfold(c);
        assert(c <= 1 ==> c & 1u32 == c && c >> 1u32 == 0) by (bit_vector);
    } else {
        let k1 = (k - 1) as u32;
        assert(y == (c << k) | z && k == k1 + 1 && k < 32 && z >> k == 0 && c <= 1 ==> y & 1u32
            == z & 1u32 && y >> 1u32 == (c << k1) | (z >> 1u32) && (z >> 1u32) >> k1 == 0)
            by (bit_vector);
        lemma_popcount_top(c, k1, z >> 1u32);
        lemma_popcount_unfold(y);
        lemma_popcount_unfold(z);
    }
}

/// Stepping back from the state that follows `state` gives `state` again, bit for bit.
pub proof fn lemma_revert_undoes_advance(size: usize, state: u32, taps: u32)
    requires
        invertible(size, taps),
        fits(size, state),
    ensures
        previous_state_spec(size, next_state_spec(size, state, taps), taps) == state,
{
    let n = size as u32;
    let k = (size - 1) as u32;
    let u = state & taps;
    let b = parity_spec(u);
    let s1 = next_state_spec(size, state, taps);
    let t1 = rotate_right_spec(size, taps);
    assert(s1 == ((b & 1u32) << k) | (state >> 1u32));
    assert(t1 == ((taps & 1u32 & 1u32) << k) | (taps >> 1u32));
    assert(b <= 1);
    assert(n == k + 1 && 1 <= k <= 30 && state >> n == 0 && taps >> n == 0 && taps & 1u32 == 1
        && b <= 1 && s1 == ((b & 1u32) << k) | (state >> 1u32) && t1 == ((taps & 1u32 & 1u32) << k)
        | (taps >> 1u32) && u == state & taps ==> s1 & t1 == (b << k) | (u >> 1u32) && (u >> 1u32)
        >> k == 0 && u & 1u32 == state & 1u32 && state & 1u32 <= 1) by (bit_vector);
    lemma_popcount_top(b, k, u >> 1u32);
    lemma_popcount_unfold(u);
    let b1 = parity_spec(s1 & t1);
    assert(b1 == state & 1u32);
    assert(n == k + 1 && 1 <= k <= 30 && state >> n == 0 && b <= 1 && s1 == ((b & 1u32) << k) | (
    state >> 1u32) && b1 == state & 1u32 ==> ((s1 << 1u32) & ((((1u32 << n) - 1u32) as u32))) | (b1
        & 1u32) == state) by (bit_vector);
}

/// Stepping forward from the state that precedes `state` gives `state` again, bit for bit.
pub proof fn lemma_advance_undoes_revert(size: usize, state: u32, taps: u32)
    requires
        invertible(size, taps),
        fits(size, state),
    ensures
        next_state_spec(size, previous_state_spec(size, state, taps), taps) == state,
{
    let n = size as u32;
    let k = (size - 1) as u32;
    let t1 = rotate_right_spec(size, taps);
    let h = state >> k;
    let w = state & (taps >> 1u32);
    assert(t1 == ((taps & 1u32 & 1u32) << k) | (taps >> 1u32));
    assert(n == k + 1 && 1 <= k <= 30 && state >> n == 0 && taps >> n == 0 && taps & 1u32 == 1
        && t1 == ((taps & 1u32 & 1u32) << k) | (taps >> 1u32) && h == state >> k && w == state & (
    taps >> 1u32) ==> state & t1 == (h << k) | w && w >> k == 0 && h <= 1) by (bit_vector);
    lemma_popcount_top(h, k, w);
    let b1 = parity_spec(state & t1);
    let s1 = previous_state_spec(size, state, taps);
    assert(s1 == ((state << 1u32) & ((((1u32 << n) - 1u32) as u32))) | (b1 & 1u32));
    assert(b1 <= 1);
    let v = s1 & taps;
    assert(n == k + 1 && 1 <= k <= 30 && state >> n == 0 && taps >> n == 0 && taps & 1u32 == 1
        && b1 <= 1 && s1 == ((state << 1u32) & ((((1u32 << n) - 1u32) as u32))) | (b1 & 1u32) && w
        == state & (taps >> 1u32) && v == s1 & taps ==> v & 1u32 == b1 && v >> 1u32 == w)
        by (bit_vector);
    lemma_popcount_unfold(v);
    let b2 = parity_spec(v);
    assert(b2 == h);
    assert(n == k + 1 && 1 <= k <= 30 && state >> n == 0 && b1 <= 1 && s1 == ((state << 1u32) & ((
    ((1u32 << n) - 1u32) as u32))) | (b1 & 1u32) && b2 == state >> k ==> ((b2 & 1u32) << k) | (s1
        >> 1u32) == state) by (bit_vector);
}

/// The register started at `seed` is back at `seed` after `p` steps, and not before.
pub open spec fn returns_first_after(size: usize, seed: u32, taps: u32, p: nat) -> bool {
    &&& p > 0
    &&& nth_state(size, seed, taps, p) == seed
    &&& forall|j: nat| 0 < j < p ==> nth_state(size, seed, taps, j) != seed
}

/// The register started at `seed` has the longest possible period, 2^size - 1.
pub open spec fn is_maximum_length(size: usize, seed: u32, taps: u32) -> bool {
    returns_first_after(size, seed, taps, (pow2(size as nat) - 1) as nat)
}

/// A `size`-bit value is one below 2^size.
pub proof fn lemma_fits_iff_below(size: usize, x: u32)
    requires
        size < 32,
    ensures
        fits(size, x) <==> (x as nat) < pow2(size as nat),
{
    let n = size as u32;
    lemma_u32_pow2_no_overflow(size as nat);
    lemma_u32_shl_is_mul(1u32, n);
    assert(n < 32 ==> (x >> n == 0 <==> x < (1u32 << n))) by (bit_vector);
}

/// Stepping forward keeps the state within `size` bits.
pub proof fn lemma_next_state_fits(size: usize, state: u32, taps: u32)
    requires
        1 <= size <= 31,
        fits(size, state),
    ensures
        fits(size, next_state_spec(size, state, taps)),
{
    let n = size as u32;
    let k = (size - 1) as u32;
    let b = parity_spec(state & taps);
    let s1 = next_state_spec(size, state, taps);
    assert(s1 == ((b & 1u32) << k) | (state >> 1u32));
    assert(n == k + 1 && n <= 31 && state >> n == 0 && s1 == ((b & 1u32) << k) | (state >> 1u32)
        ==> s1 >> n == 0) by (bit_vector);
}

proof fn lemma_nth_state_fits_nonzero(size: usize, seed: u32, taps: u32, i: nat)
    requires
        invertible(size, taps),
        fits(size, seed),
        seed != 0,
    ensures
        fits(size, nth_state(size, seed, taps, i)),
        nth_state(size, seed, taps, i) != 0,
    decreases i,
{
    if i > 0 {
        let s = nth_state(size, seed, taps, (i - 1) as nat);
        lemma_nth_state_fits_nonzero(size, seed, taps, (i - 1) as nat);
        lemma_next_state_fits(size, s, taps);
        lemma_revert_undoes_advance(size, s, taps);
        let n = size as u32;
        assert(parity_spec(0u32 & rotate_right_spec(size, taps)) == 0) by {
            assert(0u32 & rotate_right_spec(size, taps) == 0) by (bit_vector);
        }
        assert(n <= 31 ==> ((0u32 << 1u32) & ((((1u32 << n) - 1u32) as u32))) | (0u32 & 1u32) == 0)
            by (bit_vector);
        assert(previous_state_spec(size, 0, taps) == 0);
    }
}

/// Two states `d` steps apart along the orbit: stepping both back `i` times keeps them equal.
proof fn lemma_nth_state_cancel(size: usize, seed: u32, taps: u32, i: nat, d: nat)
    requires
        invertible(size, taps),
        fits(size, seed),
        seed != 0,
        nth_state(size, seed, taps, i) == nth_state(size, seed, taps, i + d),
    ensures
        nth_state(size, seed, taps, d) == seed,
    decreases i,
{
    if i > 0 {
        let a = nth_state(size, seed, taps, (i - 1) as nat);
        let b = nth_state(size, seed, taps, (i - 1 + d) as nat);
        lemma_nth_state_fits_nonzero(size, seed, taps, (i - 1) as nat);
        lemma_nth_state_fits_nonzero(size, seed, taps, (i - 1 + d) as nat);
        lemma_revert_undoes_advance(size, a, taps);
        lemma_revert_undoes_advance(size, b, taps);
        assert(nth_state(size, seed, taps, i + d) == next_state_spec(size, b, taps));
        lemma_nth_state_cancel(size, seed, taps, (i - 1) as nat, d);
    }
}

/// `p` distinct nonzero `size`-bit states are at most 2^size - 1; if there are that many, every
/// nonzero `size`-bit value is among them.
proof fn lemma_orbit_counts(size: usize, seed: u32, taps: u32, p: nat)
    requires
        size < 32,
        forall|i: nat|
            i < p ==> #[trigger] nth_state(size, seed, taps, i) != 0 && fits(
                size,
                nth_state(size, seed, taps, i),
            ),
        forall|i: nat, j: nat|
            i < p && j < p && i != j ==> #[trigger] nth_state(size, seed, taps, i) != #[trigger] nth_state(
                size,
                seed,
                taps,
                j,
            ),
    ensures
        p <= pow2(size as nat) - 1,
        p == pow2(size as nat) - 1 ==> forall|w: u32|
            fits(size, w) && w != 0 ==> exists|i: nat|
                i < p && #[trigger] nth_state(size, seed, taps, i) == w,
{
    lemma_pow2_pos(size as nat);
    let dom = set_int_range(0, p as int);
    let f = |i: int| nth_state(size, seed, taps, i as nat) as int;
    let image = dom.map(f);
    let all = set_int_range(1, pow2(size as nat) as int);
    lemma_int_range(0, p as int);
    lemma_int_range(1, pow2(size as nat) as int);
    assert forall|a: int, b: int| dom.contains(a) && dom.contains(b) && #[trigger] f(a) == #[trigger] f(
        b,
    ) implies a == b by {
        assert(nth_state(size, seed, taps, a as nat) == nth_state(size, seed, taps, b as nat));
    }
    lemma_map_size(dom, image, f);
    assert forall|v: int| image.contains(v) implies all.contains(v) by {
        let i = choose|i: int| dom.contains(i) && f(i) == v;
        lemma_fits_iff_below(size, nth_state(size, seed, taps, i as nat));
    }
    lemma_len_subset(image, all);
    if p == pow2(size as nat) - 1 {
        lemma_subset_equality(image, all);
        assert forall|w: u32| fits(size, w) && w != 0 implies exists|i: nat|
            i < p && #[trigger] nth_state(size, seed, taps, i) == w by {
            lemma_fits_iff_below(size, w);
            assert(all.contains(w as int));
            let i = choose|i: int| dom.contains(i) && f(i) == w as int;
            assert(nth_state(size, seed, taps, i as nat) == w);
        }
    }
}

/// The states before the register first returns to a nonzero `seed` are distinct nonzero
/// `size`-bit values; so there are at most 2^size - 1 of them.
pub proof fn lemma_orbit_states_distinct(size: usize, seed: u32, taps: u32, p: nat)
    requires
        invertible(size, taps),
        fits(size, seed),
        seed != 0,
        returns_first_after(size, seed, taps, p),
    ensures
        forall|i: nat|
            i < p ==> #[trigger] nth_state(size, seed, taps, i) != 0 && fits(
                size,
                nth_state(size, seed, taps, i),
            ),
        forall|i: nat, j: nat|
            i < p && j < p && i != j ==> #[trigger] nth_state(size, seed, taps, i) != #[trigger] nth_state(
                size,
                seed,
                taps,
                j,
            ),
        p <= pow2(size as nat) - 1,
{
    assert forall|i: nat| i < p implies #[trigger] nth_state(size, seed, taps, i) != 0 && fits(
        size,
        nth_state(size, seed, taps, i),
    ) by {
        lemma_nth_state_fits_nonzero(size, seed, taps, i);
    }
    assert forall|i: nat, j: nat| i < p && j < p && i != j implies #[trigger] nth_state(
        size,
        seed,
        taps,
        i,
    ) != #[trigger] nth_state(size, seed, taps, j) by {
        if nth_state(size, seed, taps, i) == nth_state(size, seed, taps, j) {
            if i < j {
                lemma_nth_state_cancel(size, seed, taps, i, (j - i) as nat);
            } else {
                lemma_nth_state_cancel(size, seed, taps, j, (i - j) as nat);
            }
        }
    }
    lemma_orbit_counts(size, seed, taps, p);
}

/// A register of maximum length visits every nonzero `size`-bit state once before it comes back
/// to its seed.
pub proof fn lemma_maximum_length_visits_every_state(size: usize, seed: u32, taps: u32, w: u32)
    requires
        invertible(size, taps),
        fits(size, seed),
        seed != 0,
        is_maximum_length(size, seed, taps),
        fits(size, w),
        w != 0,
    ensures
        exists|i: nat| i < pow2(size as nat) - 1 && nth_state(size, seed, taps, i) == w,
{
    let p = (pow2(size as nat) - 1) as nat;
    lemma_orbit_states_distinct(size, seed, taps, p);
    lemma_orbit_counts(size, seed, taps, p);
}

/// The number of set bits of `x`, modulo 2.
fn parity(x: u32) -> (r: u32)
    ensures
        r == parity_spec(x),
{
    let mut y: u32 = x;
    let mut count: u32 = 0;
    let mut shifts: u32 = 0;
    assert(x >> 0u32 == x) by (bit_vector);
    while y != 0
        invariant
            count + popcount(y) == popcount(x),
            y == x >> shifts,
            shifts <= 32,
            count <= shifts,
        decreases y,
    {
        proof {
            assert(y == x >> shifts && y != 0 ==> shifts < 32) by (bit_vector);
            assert(y != 0 ==> (y >> 1u32) < y) by (bit_vector);
            assert(y == x >> shifts && shifts < 32 ==> y >> 1u32 == x >> ((shifts + 1) as u32))
                by (bit_vector);
            assert(y & 1u32 <= 1) by (bit_vector);
        }
        count = count + (y & 1);
        y = y >> 1;
        shifts = shifts + 1;
    }
    count % 2
}

/// Fibonacci Linear Feedback Shift Register (LFSR)
#[derive(Debug, Clone, Copy)]
pub struct FibonacciLfsr {
    pub size: usize,
    pub state: u32,
    pub taps: u32,
}

impl FibonacciLfsr {
    /// Return the next LFSR state (without making any changes).
    pub fn next_state(&self) -> (r: u32)
        requires
            1 <= self.size <= 32,
        ensures
            r == next_state_spec(self.size, self.state, self.taps),
    {
        let next_bit = parity(self.state & self.taps);
        insert_msb(self.size, self.state, next_bit)
    }

    /// Return the previous LFSR state (without making any changes).
    pub fn previous_state(&self) -> (r: u32)
        requires
            1 <= self.size <= 31,
        ensures
            r == previous_state_spec(self.size, self.state, self.taps),
    {
        let taps = rotate_right(self.size, self.taps);
        let previous_bit = parity(self.state & taps);
        insert_lsb(self.size, self.state, previous_bit)
    }

    /// Advance the LFSR state and return it.
    pub fn advance(&mut self) -> (r: u32)
        requires
            1 <= old(self).size <= 32,
        ensures
            final(self).size == old(self).size,
            final(self).taps == old(self).taps,
            final(self).state == next_state_spec(old(self).size, old(self).state, old(self).taps),
            r == final(self).state,
    {
        self.state = self.next_state();
        self.state
    }

    /// Revert the LFSR state and return it.
    pub fn revert(&mut self) -> (r: u32)
        requires
            1 <= old(self).size <= 31,
        ensures
            final(self).size == old(self).size,
            final(self).taps == old(self).taps,
            final(self).state == previous_state_spec(
                old(self).size,
                old(self).state,
                old(self).taps,
            ),
            r == final(self).state,
    {
        self.state = self.previous_state();
        self.state
    }
}

} // verus!
