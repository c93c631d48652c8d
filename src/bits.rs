//! Low level bitwise operations on `size`-bit integers held in a `u32`.
use vstd::arithmetic::power2::pow2;
use vstd::bits::{lemma_u32_pow2_no_overflow, lemma_u32_shl_is_mul};
use vstd::prelude::*;

verus! {

/// The `size`-bit value with every bit set.
pub open spec fn mask_spec(size: usize) -> u32 {
    ((1u32 << (size as u32)) - 1u32) as u32
}

/// `data` shifted right by one bit, with the lowest bit of `bit` as its new bit `size - 1`.
pub open spec fn insert_msb_spec(size: usize, data: u32, bit: u32) -> u32 {
    ((bit & 1u32) << ((size - 1) as u32)) | (data >> 1u32)
}

/// `data` shifted left by one bit and cut to `size` bits, with the lowest bit of `bit` as its
/// new lowest bit.
pub open spec fn insert_lsb_spec(size: usize, data: u32, bit: u32) -> u32 {
    ((data << 1u32) & mask_spec(size)) | (bit & 1u32)
}

/// `data` shifted left by one bit within `size` bits, the old bit `size - 1` coming back in
/// as the lowest bit.
pub open spec fn rotate_left_spec(size: usize, data: u32) -> u32 {
    insert_lsb_spec(size, data, data >> ((size - 1) as u32))
}

/// `data` shifted right by one bit within `size` bits, the old lowest bit coming back in as
/// bit `size - 1`.
pub open spec fn rotate_right_spec(size: usize, data: u32) -> u32 {
    insert_msb_spec(size, data, data & 1u32)
}

/// Return 2^size - 1 that can be used as a bitmask
pub fn mask(size: usize) -> (r: u32)
    requires
        size < 32,
    ensures
        r == mask_spec(size),
        r as nat == pow2(size as nat) - 1,
{
    proof {
        lemma_u32_pow2_no_overflow(size as nat);
        lemma_u32_shl_is_mul(1u32, size as u32);
    }
    (1u32 << size) - 1
}

/// Shift all bits in `size`-bit integer `data` to the right and set `bit` as MSB.
///
/// The LSB of `data` before the shift will be discarded.
pub fn insert_msb(size: usize, data: u32, bit: u32) -> (r: u32)
    requires
        1 <= size <= 32,
    ensures
        r == insert_msb_spec(size, data, bit),
{
    let bit = bit & 1;
    (bit << (size - 1)) | (data >> 1)
}

/// Shift all bits in `size`-bit integer `data` to the left and set `bit` as LSB.
///
/// The MSB of `data` before the shift will be discarded.
pub fn insert_lsb(size: usize, data: u32, bit: u32) -> (r: u32)
    requires
        size < 32,
    ensures
        r == insert_lsb_spec(size, data, bit),
{
    let bit = bit & 1;
    (data << 1) & mask(size) | bit
}

/// Shift all bits in `size`-bit integer `data` to the left and use the old MSB as new LSB.
pub fn rotate_left(size: usize, data: u32) -> (r: u32)
    requires
        1 <= size < 32,
    ensures
        r == rotate_left_spec(size, data),
{
    let msb = data >> (size - 1);
    insert_lsb(size, data, msb)
}

/// Shift all bits in `size`-bit integer `data` to the right and use the old LSB as new MSB.
pub fn rotate_right(size: usize, data: u32) -> (r: u32)
    requires
        1 <= size <= 32,
    ensures
        r == rotate_right_spec(size, data),
{
    let lsb = data & 1;
    insert_msb(size, data, lsb)
}

} // verus!
