//! Length-prefixed, type-tagged, CRC-checked records in the layout of PNG chunks.

pub mod checksum;
pub mod chunk;
pub mod chunk_type;
pub mod text;
pub mod laws;
