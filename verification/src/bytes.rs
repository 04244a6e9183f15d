//! Numeric conversions on single samples and on the bytes that carry them.

pub mod conversions;
pub mod endian;
