//! A plain byte blob, encoded with the `Bytes8/16/32` marker classes.

use vstd::prelude::*;

verus! {

/// An owned sequence of raw bytes. On the wire it travels as a byte-array
/// value, never as a string or a list.
#[derive(Debug, Clone, PartialEq)]
pub struct Bytes(pub Vec<u8>);

} // verus!
