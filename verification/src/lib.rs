//! Byte ranges and their extraction from bytes, the CRC32C checksum codec, and the
//! conversion of Zarr V2 array metadata to V3.

pub mod array_metadata;
pub mod byte_range;
pub mod checksum;
pub mod codec;
pub mod crc32c;
pub mod metadata;
