use zarrs::checksum::crc32c_checksum;
use zarrs::codec::{BytesRepresentation, Codec, CodecError, PluginCreateError};
use zarrs::crc32c::{
    append_checksum, checksum_to_bytes, create_codec_crc32c, is_name_crc32c, verify_checksum, Crc32cCodec,
    Crc32cCodecConfiguration, Crc32cCodecConfigurationV1, CHECKSUM_SIZE, IDENTIFIER,
};
use zarrs::metadata::{Metadata, MetadataConfiguration};

#[test]
fn encode_appends_little_endian_checksum() {
    let codec = Crc32cCodec::new();
    let encoded = codec.encode(b"hello world".to_vec()).unwrap();
    let mut expected = b"hello world".to_vec();
    expected.extend_from_slice(&[0xaa, 0x65, 0x94, 0xc9]);
    assert_eq!(encoded, expected);
}

#[test]
fn encode_check_value() {
    let codec = Crc32cCodec::new();
    let encoded = codec.encode(b"123456789".to_vec()).unwrap();
    assert_eq!(encoded, [&b"123456789"[..], &[0x83u8, 0x92, 0x06, 0xE3]].concat());
    assert_eq!(crc32c_checksum(b"123456789"), 0xE306_9283);
    assert_eq!(crc32c_checksum(b""), 0);
}

#[test]
fn decode_check_value() {
    let codec = Crc32cCodec::new();
    let encoded = [&b"123456789"[..], &[0x83u8, 0x92, 0x06, 0xE3]].concat();
    let decoded = codec.decode(encoded, &BytesRepresentation::VariableSize).unwrap();
    assert_eq!(decoded, b"123456789".to_vec());
}

#[test]
fn decode_rejects_every_single_byte_change() {
    let codec = Crc32cCodec::new();
    let encoded = codec.encode(b"zarr".to_vec()).unwrap();
    for i in 0..encoded.len() {
        let mut changed = encoded.clone();
        changed[i] ^= 0x10;
        let result = codec.decode(changed, &BytesRepresentation::VariableSize);
        assert!(matches!(result, Err(CodecError::InvalidChecksum)));
    }
}

#[test]
fn checksum_bytes_little_endian() {
    assert_eq!(checksum_to_bytes(0x0102_0304), [4, 3, 2, 1]);
    assert_eq!(checksum_to_bytes(0), [0, 0, 0, 0]);
}

#[test]
fn encode_empty() {
    let codec = Crc32cCodec::new();
    assert_eq!(codec.encode(vec![]).unwrap(), vec![0, 0, 0, 0]);
}

#[test]
fn decode_round_trip() {
    let codec = Crc32cCodec::new();
    for data in [vec![], vec![1u8], vec![1, 2, 3, 4, 5, 6, 7, 8, 9, 10]] {
        let encoded = codec.encode(data.clone()).unwrap();
        assert_eq!(encoded.len(), data.len() + CHECKSUM_SIZE);
        let decoded = codec
            .decode(encoded, &BytesRepresentation::KnownSize(data.len() as u64))
            .unwrap();
        assert_eq!(decoded, data);
    }
}

#[test]
fn decode_invalid_checksum() {
    let codec = Crc32cCodec::new();
    let mut encoded = codec.encode(b"hello world".to_vec()).unwrap();
    encoded[0] ^= 1;
    let result = codec.decode(encoded, &BytesRepresentation::VariableSize);
    assert!(matches!(result, Err(CodecError::InvalidChecksum)));
}

#[test]
fn decode_short_input() {
    let codec = Crc32cCodec::new();
    let result = codec.decode(vec![1, 2, 3], &BytesRepresentation::VariableSize);
    match result {
        Err(CodecError::Other(message)) => {
            assert_eq!(message, "CRC32C checksum decoder expects a 32 bit input")
        }
        _ => panic!("expected an error for a short input"),
    }
}

#[test]
fn verify_checksum_cases() {
    let decoded = verify_checksum(vec![7, 8, 0x58, 0xe6, 0xd5, 0x01], 0x01d5_e658).unwrap();
    assert_eq!(decoded, vec![7, 8]);
    assert!(matches!(
        verify_checksum(vec![7, 8, 0x58, 0xe6, 0xd5, 0x01], 0x01d5_e659),
        Err(CodecError::InvalidChecksum)
    ));
    assert_eq!(append_checksum(vec![7], 0x01020304), vec![7, 4, 3, 2, 1]);
}

#[test]
fn encoded_size() {
    let codec = Crc32cCodec::new();
    assert_eq!(
        codec.compute_encoded_size(&BytesRepresentation::KnownSize(10)),
        BytesRepresentation::KnownSize(14)
    );
    assert_eq!(
        codec.compute_encoded_size(&BytesRepresentation::VariableSize),
        BytesRepresentation::VariableSize
    );
}

#[test]
fn partial_decoder_flags() {
    let codec = Crc32cCodec::new_with_configuration(&Crc32cCodecConfiguration::V1(
        Crc32cCodecConfigurationV1 {},
    ));
    assert!(!codec.partial_decoder_should_cache_input());
    assert!(!codec.partial_decoder_decodes_all());
}

#[test]
fn names() {
    assert!(is_name_crc32c("crc32c"));
    assert!(is_name_crc32c(IDENTIFIER));
    assert!(!is_name_crc32c("crc32"));
    assert!(!is_name_crc32c("CRC32C"));
    assert!(!is_name_crc32c(""));
}

#[test]
fn created_metadata_creates_codec() {
    let codec = Crc32cCodec::new();
    let metadata = codec.create_metadata().unwrap();
    assert_eq!(metadata.name, "crc32c");
    assert!(metadata.configuration.as_ref().unwrap().entries.is_empty());
    assert!(is_name_crc32c(&metadata.name));
    assert!(matches!(
        create_codec_crc32c(&metadata),
        Ok(Codec::BytesToBytes(_))
    ));
}

#[test]
fn create_codec_without_configuration() {
    let metadata = Metadata { name: "crc32c".to_string(), configuration: None };
    assert!(create_codec_crc32c(&metadata).is_ok());
}

#[test]
fn create_codec_with_configuration_fails() {
    let configuration = MetadataConfiguration {
        entries: vec![("level".to_string(), "1".to_string())],
    };
    let metadata = Metadata { name: "crc32c".to_string(), configuration: Some(configuration) };
    match create_codec_crc32c(&metadata) {
        Err(PluginCreateError::ConfigurationInvalid(error)) => {
            assert_eq!(error.name, "crc32c");
            let configuration = error.configuration.unwrap();
            assert_eq!(
                configuration.entries,
                vec![("level".to_string(), "1".to_string())]
            );
        }
        _ => panic!("expected an invalid configuration error"),
    }
}
