//! A verified codec for PNG chunk records.
//!
//! A PNG file is a signature followed by a sequence of chunks; each chunk
//! carries a 4-byte big-endian data length, a 4-byte type code, the data
//! bytes, and a CRC-32 checksum over the type code and the data.
//! This crate models that record layout, parses a byte buffer into a
//! validated [`chunk::Chunk`], and serializes a chunk back into the exact
//! byte layout, proving that the two directions invert each other.

pub mod chunk;
pub mod chunk_type;
pub mod crc32;
pub mod text;
