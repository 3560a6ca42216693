//! The binary point-file format: an ASCII header followed by fixed-size
//! little-endian records.

pub mod header;
pub mod read;
pub mod write;
