//! The low-level layer: marker bytes, numeric bounds, nibble packing and the
//! fixed- and variable-width codecs that everything else is built from.

pub mod bitops;
pub mod bounds;
pub mod marker;
pub mod types;
