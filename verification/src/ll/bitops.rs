//! Nibble packing helpers used by the marker codec: a marker byte is a
//! 4-bit type tag in the high nibble, often combined with a 4-bit size in
//! the low nibble.

use vstd::prelude::*;

verus! {

/// Combines a high nibble and a low nibble into one byte. Each argument is
/// masked to its own nibble first, so only the high 4 bits of `high_nibble`
/// and the low 4 bits of `low_nibble` reach the result.
pub fn combine(high_nibble: u8, low_nibble: u8) -> (r: u8)
    ensures
        r == ((high_nibble & 0xF0) | (low_nibble & 0x0F)),
{
    (high_nibble & 0xF0) | (low_nibble & 0x0F)
}

/// Reports whether `source` has exactly `high_nibble` as its high nibble,
/// where `high_nibble` is given with its low nibble already zeroed.
pub fn high_nibble_equals(source: u8, high_nibble: u8) -> (r: bool)
    ensures
        r == ((source & 0xF0) == high_nibble),
{
    source & 0xF0 == high_nibble
}

/// Reads the embedded size out of the low nibble of a tiny-class marker byte.
pub fn get_tiny_size(source: u8) -> (r: usize)
    ensures
        r == (source & 0x0F) as usize,
        r <= 0x0F,
{
    proof {
        assert((source & 0x0F) <= 0x0F) by (bit_vector);
    }
    (source & 0x0F) as usize
}

} // verus!
