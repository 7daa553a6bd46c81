//! Codecs for the concrete wire shapes: fixed-width values, size fields and
//! the shared body writer for sized types.

pub mod fixed;
pub mod lengths;
pub mod sized;
