# zarrs (verified part)

Byte ranges and their extraction from bytes, the CRC32C checksum codec, and the conversion
of Zarr V2 array metadata to V3, with contracts and proofs.

- `src/byte_range.rs`: `ByteRange`, its start, end, length and conversions to ranges,
  validation of ranges against a length, and extraction of ranges from bytes.
- `src/checksum.rs`: the CRC-32C (Castagnoli) checksum, defined as a spec function and
  computed by a loop proved against it, with the proof that it detects any one changed byte.
- `src/crc32c.rs`: the CRC32C codec: encoding appends the checksum, decoding checks and
  removes it; creation of the codec from metadata.
- `src/array_metadata.rs`: Zarr V2 and V3 array metadata, and the conversion from V2 to V3;
  the data type, endianness, fill value and blosc conversions come in as values.
- `src/metadata.rs`, `src/codec.rs`: the metadata, error and representation types the
  codec works with.
- `tests/`: tests of the library.
- `app/`: error types with `Display`, serde forms of metadata, configurations and array
  metadata (with parsing from JSON), and the registration of the codec plugin with `inventory`.
