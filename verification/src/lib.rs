//! Hides a byte payload in the two least-significant bits of the colour
//! channels of an RGB raster image, and recovers it again.
//!
//! The payload is followed by a three-byte terminator and written two bits per
//! channel sample, most-significant pair first, in row-major pixel order.

pub mod decoder;
pub mod encoder;
pub mod error;
pub mod protocol;
pub mod raster;
