//! A binary serialization buffer for a little-endian, length-prefixed,
//! 4-byte-aligned wire format.
//!
//! The library offers a byte container with a cursor (`position`), a
//! read/write boundary (`limit`) and an allocated size (`capacity`), working
//! either against real storage or in a measuring mode that only tallies how
//! many bytes a sequence of writes would consume.

pub mod buffer;
pub mod laws;
pub mod packet;
pub mod wire;
