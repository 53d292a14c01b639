//! PNG files at the container level: the chunk stream is parsed, each
//! chunk's checksum and type code are validated, and chunks can be
//! appended, looked up or removed while the byte-exact layout is kept.

pub mod bytes;
pub mod chunk;
pub mod chunk_type;
pub mod commands;
pub mod crc32;
pub mod error;
pub mod png;
mod text;
