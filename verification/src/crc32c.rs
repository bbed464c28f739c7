//! The CRC32C checksum codec.
//!
//! Encoding appends the little-endian CRC-32C checksum of the bytes; decoding checks the
//! trailing checksum against the other bytes and removes it.

use vstd::prelude::*;

use crate::checksum::{crc32c, crc32c_checksum, lemma_checksum_residue, lemma_single_byte_change};

use crate::codec::{BytesRepresentation, Codec, CodecError, PluginCreateError};
use crate::metadata::{
    configuration_view, ConfigurationInvalidError, Metadata, MetadataConfiguration,
};

verus! {

/// The name of the codec.
pub const IDENTIFIER: &'static str = "crc32c";

/// The size in bytes of the checksum.
pub const CHECKSUM_SIZE: usize = 4;

/// The message of the error for an input shorter than a checksum.
pub const SHORT_INPUT_MESSAGE: &'static str = "CRC32C checksum decoder expects a 32 bit input";

/// The bytes of a checksum as stored after the data (little endian).
pub open spec fn checksum_bytes(checksum: u32) -> Seq<u8> {
    seq![
        (checksum & 0xff) as u8,
        ((checksum >> 8) & 0xff) as u8,
        ((checksum >> 16) & 0xff) as u8,
        ((checksum >> 24) & 0xff) as u8,
    ]
}

/// Different checksums are stored as different bytes.
pub proof fn lemma_checksum_bytes_injective(a: u32, b: u32)
    requires
        checksum_bytes(a) == checksum_bytes(b),
    ensures
        a == b,
{
    assert(checksum_bytes(a)[0] == checksum_bytes(b)[0]);
    assert(checksum_bytes(a)[1] == checksum_bytes(b)[1]);
    assert(checksum_bytes(a)[2] == checksum_bytes(b)[2]);
    assert(checksum_bytes(a)[3] == checksum_bytes(b)[3]);
    assert(((a & 0xff) as u8 == (b & 0xff) as u8 && ((a >> 8) & 0xff) as u8 == ((b >> 8) & 0xff) as u8
        && ((a >> 16) & 0xff) as u8 == ((b >> 16) & 0xff) as u8 && ((a >> 24) & 0xff) as u8 == ((b
        >> 24) & 0xff) as u8) ==> a == b) by (bit_vector);
}

/// The little-endian bytes of `checksum`.
pub fn checksum_to_bytes(checksum: u32) -> (bytes: [u8; 4])
    ensures
        bytes@ == checksum_bytes(checksum),
{
    let bytes = [
        (checksum & 0xff) as u8,
        ((checksum >> 8) & 0xff) as u8,
        ((checksum >> 16) & 0xff) as u8,
        ((checksum >> 24) & 0xff) as u8,
    ];
    assert(bytes@ =~= checksum_bytes(checksum));
    bytes
}

/// The encoding of `decoded`: the bytes followed by their checksum.
pub open spec fn encoded_value(decoded: Seq<u8>) -> Seq<u8> {
    decoded + checksum_bytes(crc32c(decoded))
}

/// The bytes of `encoded` before its trailing checksum.
pub open spec fn payload(encoded: Seq<u8>) -> Seq<u8> {
    encoded.take(encoded.len() - CHECKSUM_SIZE)
}

/// The trailing checksum bytes of `encoded`.
pub open spec fn trailer(encoded: Seq<u8>) -> Seq<u8> {
    encoded.skip(encoded.len() - CHECKSUM_SIZE)
}

/// `encoded` holds a checksum and it is the checksum of the bytes before it.
pub open spec fn checksum_matches(encoded: Seq<u8>) -> bool {
    &&& encoded.len() >= CHECKSUM_SIZE
    &&& trailer(encoded) == checksum_bytes(crc32c(payload(encoded)))
}

/// The representation of the encoding of bytes of the representation `decoded`.
pub open spec fn encoded_representation(decoded: BytesRepresentation) -> BytesRepresentation {
    match decoded {
        BytesRepresentation::KnownSize(size) => BytesRepresentation::KnownSize(
            (size + CHECKSUM_SIZE) as u64,
        ),
        BytesRepresentation::VariableSize => BytesRepresentation::VariableSize,
    }
}

/// Append the little-endian bytes of `checksum` to `decoded_value`.
pub fn append_checksum(decoded_value: Vec<u8>, checksum: u32) -> (encoded: Vec<u8>)
    ensures
        encoded@ == decoded_value@ + checksum_bytes(checksum),
{
    let mut encoded = decoded_value;
    let bytes = checksum_to_bytes(checksum);
    let mut i: usize = 0;
    while i < 4
        invariant
            bytes@ == checksum_bytes(checksum),
            i <= 4,
            encoded@ == decoded_value@ + bytes@.take(i as int),
        decreases 4 - i,
    {
        encoded.push(bytes[i]);
        assert(bytes@.take(i + 1) == bytes@.take(i as int).push(bytes@[i as int]));
        i = i + 1;
    }
    assert(bytes@.take(4) == bytes@);
    encoded
}

/// Check the trailing checksum bytes of `encoded_value` against `checksum`, the checksum
/// computed of the bytes before them, and remove them if they match.
pub fn verify_checksum(encoded_value: Vec<u8>, checksum: u32) -> (decoded: Result<Vec<u8>, CodecError>)
    requires
        encoded_value@.len() >= CHECKSUM_SIZE,
    ensures
        trailer(encoded_value@) == checksum_bytes(checksum) ==> (decoded matches Ok(d) && d@
            == payload(encoded_value@)),
        trailer(encoded_value@) != checksum_bytes(checksum) ==> decoded matches Err(
            CodecError::InvalidChecksum,
        ),
{
    let mut encoded_value = encoded_value;
    let n = encoded_value.len() - CHECKSUM_SIZE;
    let expected = checksum_to_bytes(checksum);
    let matches = expected[0] == encoded_value[n] && expected[1] == encoded_value[n + 1]
        && expected[2] == encoded_value[n + 2] && expected[3] == encoded_value[n + 3];
    let ghost trailing = trailer(encoded_value@);
    assert(trailing.len() == 4);
    assert(forall|k: int| 0 <= k < 4 ==> trailing[k] == encoded_value@[n + k]);
    if matches {
        assert(trailing =~= expected@);
        let ghost whole = encoded_value@;
        encoded_value.truncate(n);
        assert(encoded_value@ =~= payload(whole));
        Ok(encoded_value)
    } else {
        assert(trailing != expected@) by {
            if trailing == expected@ {
                assert(trailing[0] == expected@[0]);
                assert(trailing[1] == expected@[1]);
                assert(trailing[2] == expected@[2]);
                assert(trailing[3] == expected@[3]);
            }
        }
        Err(CodecError::InvalidChecksum)
    }
}

/// Return true if `name` is the name of the CRC32C codec.
pub fn is_name_crc32c(name: &str) -> (is_crc32c: bool)
    ensures
        is_crc32c == (name@ == IDENTIFIER@),
{
    name.to_owned() == IDENTIFIER.to_owned()
}

/// Create a CRC32C codec from metadata, which must have no configuration or an empty one.
pub fn create_codec_crc32c(metadata: &Metadata) -> (codec: Result<Codec, PluginCreateError>)
    ensures
        metadata.none_or_empty() ==> codec matches Ok(Codec::BytesToBytes(_)),
        !metadata.none_or_empty() ==> (codec matches Err(
            PluginCreateError::ConfigurationInvalid(error),
        ) && error.name@ == IDENTIFIER@ && configuration_view(error.configuration)
            == configuration_view(metadata.configuration)),
{
    if metadata.configuration_is_none_or_empty() {
        let codec = Crc32cCodec::new();
        Ok(Codec::BytesToBytes(codec))
    } else {
        Err(
            PluginCreateError::ConfigurationInvalid(
                ConfigurationInvalidError::new(IDENTIFIER, metadata.configuration_copy()),
            ),
        )
    }
}

/// The version 1 configuration of the CRC32C codec; it has no fields.
#[derive(Clone, Copy, Debug, PartialEq, Eq, Default)]
pub struct Crc32cCodecConfigurationV1 {}

/// A configuration of the CRC32C codec.
#[derive(Clone, Copy, Debug, PartialEq, Eq)]
pub enum Crc32cCodecConfiguration {
    /// Version 1.0.
    V1(Crc32cCodecConfigurationV1),
}

/// A `CRC32C checksum` codec implementation.
#[derive(Clone, Debug, Default)]
pub struct Crc32cCodec;

impl Crc32cCodec {
    /// Create a new crc32c checksum codec.
    pub fn new() -> Self {
        Self {}
    }

    /// Create a new crc32c checksum codec.
    pub fn new_with_configuration(_configuration: &Crc32cCodecConfiguration) -> Self {
        Self {}
    }

    /// Create the metadata of the codec: its name and an empty configuration.
    pub fn create_metadata(&self) -> (metadata: Option<Metadata>)
        ensures
            metadata matches Some(m) && m.name@ == IDENTIFIER@ && configuration_view(m.configuration)
                == Some(Seq::<(Seq<char>, Seq<char>)>::empty()),
    {
        Some(Metadata { name: IDENTIFIER.to_owned(), configuration: Some(MetadataConfiguration::new()) })
    }

    /// A partial decoder of the codec does not cache its input.
    pub fn partial_decoder_should_cache_input(&self) -> (cache: bool)
        ensures
            !cache,
    {
        false
    }

    /// A partial decoder of the codec does not decode all of its input.
    pub fn partial_decoder_decodes_all(&self) -> (decodes_all: bool)
        ensures
            !decodes_all,
    {
        false
    }

    /// Encode: append the CRC-32C checksum of the bytes, in little-endian order.
    pub fn encode(&self, decoded_value: Vec<u8>) -> (encoded: Result<Vec<u8>, CodecError>)
        ensures
            encoded matches Ok(e) && e@ == encoded_value(decoded_value@),
    {
        let checksum = crc32c_checksum(decoded_value.as_slice());
        Ok(append_checksum(decoded_value, checksum))
    }

    /// Decode: check the trailing checksum against the bytes before it and remove it.
    pub fn decode(
        &self,
        encoded_value: Vec<u8>,
        _decoded_representation: &BytesRepresentation,
    ) -> (decoded: Result<Vec<u8>, CodecError>)
        ensures
            encoded_value@.len() < CHECKSUM_SIZE ==> (decoded matches Err(
                CodecError::Other(message),
            ) && message@ == SHORT_INPUT_MESSAGE@),
            checksum_matches(encoded_value@) ==> (decoded matches Ok(d) && d@ == payload(
                encoded_value@,
            )),
            encoded_value@.len() >= CHECKSUM_SIZE && !checksum_matches(encoded_value@)
                ==> decoded matches Err(CodecError::InvalidChecksum),
    {
        if encoded_value.len() >= CHECKSUM_SIZE {
            let n = encoded_value.len() - CHECKSUM_SIZE;
            let checksum = crc32c_checksum(vstd::slice::slice_subrange(encoded_value.as_slice(), 0, n));
            verify_checksum(encoded_value, checksum)
        } else {
            Err(CodecError::Other(SHORT_INPUT_MESSAGE.to_owned()))
        }
    }

    /// Compute the representation of the encoding of bytes of `decoded_representation`.
    pub fn compute_encoded_size(&self, decoded_representation: &BytesRepresentation) -> (encoded:
        BytesRepresentation)
        requires
            decoded_representation matches BytesRepresentation::KnownSize(size) ==> size
                + CHECKSUM_SIZE <= u64::MAX,
        ensures
            encoded == encoded_representation(*decoded_representation),
    {
        match decoded_representation {
            BytesRepresentation::KnownSize(size) => BytesRepresentation::KnownSize(
                *size + CHECKSUM_SIZE as u64,
            ),
            BytesRepresentation::VariableSize => BytesRepresentation::VariableSize,
        }
    }
}

/// Decoding undoes encoding: the encoding of any bytes carries a matching checksum, and
/// the bytes before the checksum are the original bytes.
pub proof fn lemma_decode_encoded(decoded: Seq<u8>)
    ensures
        checksum_matches(encoded_value(decoded)),
        payload(encoded_value(decoded)) == decoded,
{
    let e = encoded_value(decoded);
    assert(payload(e) =~= decoded);
    assert(trailer(e) =~= checksum_bytes(crc32c(decoded)));
}

/// The size computed for a known decoded size is the length of the encoding of any bytes
/// of that size.
pub proof fn lemma_encoded_size(decoded: Seq<u8>)
    requires
        decoded.len() + CHECKSUM_SIZE <= u64::MAX,
    ensures
        encoded_representation(BytesRepresentation::KnownSize(decoded.len() as u64))
            == BytesRepresentation::KnownSize(encoded_value(decoded).len() as u64),
{
}

/// Metadata that the codec creates names the codec and is accepted when a codec is
/// created from it.
pub proof fn lemma_created_metadata_accepted(metadata: Metadata)
    requires
        metadata.name@ == IDENTIFIER@,
        configuration_view(metadata.configuration) == Some(Seq::<(Seq<char>, Seq<char>)>::empty()),
    ensures
        metadata.none_or_empty(),
{
}

/// Changing any one byte of an encoding, in the bytes or in the checksum, makes the
/// checksum no longer match, so decoding rejects it.
pub proof fn lemma_single_byte_change_rejected(decoded: Seq<u8>, changed: Seq<u8>, i: int)
    requires
        changed.len() == encoded_value(decoded).len(),
        0 <= i < changed.len(),
        changed[i] != encoded_value(decoded)[i],
        forall|j: int|
            0 <= j < changed.len() && j != i ==> changed[j] == encoded_value(decoded)[j],
    ensures
        !checksum_matches(changed),
{
    let e = encoded_value(decoded);
    let n = decoded.len() as int;
    if i < n {
        assert(trailer(changed) =~= trailer(e));
        assert(trailer(e) =~= checksum_bytes(crc32c(decoded)));
        assert forall|j: int| 0 <= j < n && j != i implies payload(changed)[j] == decoded[j] by {
            assert(e[j] == decoded[j]);
        }
        assert(e[i] == decoded[i]);
        lemma_single_byte_change(payload(changed), decoded, i);
        if checksum_matches(changed) {
            lemma_checksum_bytes_injective(crc32c(payload(changed)), crc32c(decoded));
        }
    } else {
        assert(payload(changed) =~= decoded);
        assert(trailer(e) =~= checksum_bytes(crc32c(decoded)));
        assert(trailer(changed)[i - n] != trailer(e)[i - n]);
    }
}

/// The CRC-32C checksum of every encoding, data and trailing checksum together, is the
/// constant residue 0x48674BC7.
pub proof fn lemma_encoded_checksum_residue(decoded: Seq<u8>)
    ensures
        crc32c(encoded_value(decoded)) == 0x4867_4BC7u32,
{
    lemma_checksum_residue(decoded);
}

} // verus!
