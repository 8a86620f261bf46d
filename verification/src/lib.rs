//! A PNG decoding core: chunk-stream parsing with CRC-32 integrity checks,
//! header validation, scanline reconstruction for the five PNG filters, and
//! assembly of the reconstructed rows into 8-bit RGBA pixels.
//!
//! Every function comes with a contract, stated over mathematical models
//! (`Seq<u8>` for byte strings, plain structs for headers and pixels), that
//! pins down its result for every input. Two computations are left to other
//! crates and taken on trust: the CRC-32 checksum (`crc::checksum`, held to
//! the checksum's definition) and zlib decompression (`inflate::inflate`,
//! of which only a name for its result is known).
//!
//! From the leaves up:
//! - `utils`, `pixel`, `error`: big-endian integers, bytes modulo 256, the
//!   errors and their families;
//! - `crc`: the checksum and what it detects;
//! - `chunk`: the chunk reader;
//! - `header`: the image header and the physical pixel dimensions;
//! - `scanline`: reconstruction of filtered scanlines;
//! - `assemble`: from reconstructed rows to pixels;
//! - `inflate`, `profile`: decompression, and the embedded colour profile;
//! - `document`: the image document and how chunks build it up;
//! - `parser`: the parser, `decode`, and what holds of every decode.

pub mod assemble;
pub mod chunk;
pub mod crc;
pub mod document;
pub mod error;
pub mod header;
pub mod inflate;
pub mod parser;
pub mod pixel;
pub mod profile;
pub mod scanline;
pub mod utils;
