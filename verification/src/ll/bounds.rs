//! Range predicates deciding which integer wire class a value fits in.
//! The encoder checks them in ascending order of width, which makes the
//! chosen representation the smallest one that losslessly holds the value.

use vstd::prelude::*;

verus! {

/// The largest value an inline positive tiny integer can carry.
pub const MAX_PLUS_TINY_INT: u8 = 0x7F;

/// The smallest value an inline negative tiny integer can carry.
pub const MIN_MINUS_TINY_INT: i8 = -16;

/// Does `i` fit in the inline positive tiny class `0x00..=0x7F`?
pub fn is_in_plus_tiny_int_bound(i: i64) -> (r: bool)
    ensures
        r == (0 <= i <= MAX_PLUS_TINY_INT),
{
    i <= MAX_PLUS_TINY_INT as i64 && i >= 0
}

/// Does `i` fit in the inline negative tiny class `-16..=-1`?
pub fn is_in_minus_tiny_int_bound(i: i64) -> (r: bool)
    ensures
        r == (MIN_MINUS_TINY_INT <= i < 0),
{
    i < 0 && i >= MIN_MINUS_TINY_INT as i64
}

/// Does `i` fit in a signed 8-bit value?
pub fn is_in_i8_bound(i: i64) -> (r: bool)
    ensures
        r == (i8::MIN <= i <= i8::MAX),
{
    i >= i8::MIN as i64 && i <= i8::MAX as i64
}

/// Does `i` fit in a signed 16-bit value?
pub fn is_in_i16_bound(i: i64) -> (r: bool)
    ensures
        r == (i16::MIN <= i <= i16::MAX),
{
    i >= i16::MIN as i64 && i <= i16::MAX as i64
}

/// Does `i` fit in a signed 32-bit value?
pub fn is_in_i32_bound(i: i64) -> (r: bool)
    ensures
        r == (i32::MIN <= i <= i32::MAX),
{
    i >= i32::MIN as i64 && i <= i32::MAX as i64
}

} // verus!
