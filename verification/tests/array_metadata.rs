use zarrs::array_metadata::{
    array_metadata_v2_to_v3, ArrayMetadataV2, ArrayMetadataV2DataType, ArrayMetadataV2Order,
    ArrayMetadataV2ToV3ConversionError, ChunkKeySeparator, DataTypeMetadataV2InvalidEndiannessError,
    DataTypeMetadataV2Structured, Endianness, MetadataV2, MetadataV3,
};
use zarrs::metadata::{Metadata, MetadataConfiguration};

fn configuration(entries: &[(&str, &str)]) -> MetadataConfiguration {
    MetadataConfiguration {
        entries: entries.iter().map(|(k, v)| (k.to_string(), v.to_string())).collect(),
    }
}

fn v2(order: ArrayMetadataV2Order) -> ArrayMetadataV2 {
    ArrayMetadataV2 {
        zarr_format: 2,
        shape: vec![10, 20, 30],
        chunks: vec![5, 10, 15],
        dtype: ArrayMetadataV2DataType::Simple("<f8".to_string()),
        compressor: None,
        fill_value: "0.0".to_string(),
        order,
        filters: None,
        dimension_separator: ChunkKeySeparator::Slash,
        attributes: configuration(&[("units", "\"m\"")]),
    }
}

fn float64() -> Metadata {
    Metadata { name: "float64".to_string(), configuration: None }
}

fn other_name(metadata: &MetadataV3) -> Option<&str> {
    match metadata {
        MetadataV3::Other(m) => Some(m.name.as_str()),
        _ => None,
    }
}

#[test]
fn invalid_zarr_format() {
    let mut metadata = v2(ArrayMetadataV2Order::C);
    metadata.zarr_format = 3;
    let result = array_metadata_v2_to_v3(
        &metadata,
        Some(float64()),
        Ok(Some(Endianness::Little)),
        "0.0".to_string(),
        None,
    );
    assert!(matches!(
        result,
        Err(ArrayMetadataV2ToV3ConversionError::InvalidZarrFormat(3, 2))
    ));
}

#[test]
fn invalid_endianness_before_unsupported_data_type() {
    let metadata = v2(ArrayMetadataV2Order::C);
    let result = array_metadata_v2_to_v3(
        &metadata,
        None,
        Err(DataTypeMetadataV2InvalidEndiannessError),
        "0.0".to_string(),
        None,
    );
    assert!(matches!(
        result,
        Err(ArrayMetadataV2ToV3ConversionError::InvalidEndianness(_))
    ));
}

#[test]
fn unsupported_simple_data_type() {
    let mut metadata = v2(ArrayMetadataV2Order::C);
    metadata.dtype = ArrayMetadataV2DataType::Simple("|O".to_string());
    let result = array_metadata_v2_to_v3(&metadata, None, Ok(None), "0".to_string(), None);
    match result {
        Err(ArrayMetadataV2ToV3ConversionError::UnsupportedDataType(text)) => {
            assert_eq!(text, "|O")
        }
        _ => panic!("expected an unsupported data type"),
    }
}

#[test]
fn unsupported_structured_data_type() {
    let fields = vec![DataTypeMetadataV2Structured {
        fieldname: "x".to_string(),
        datatype: "<i4".to_string(),
        shape: None,
    }];
    let mut metadata = v2(ArrayMetadataV2Order::C);
    metadata.dtype = ArrayMetadataV2DataType::Structured(fields.clone());
    let result = array_metadata_v2_to_v3(&metadata, None, Ok(None), "0".to_string(), None);
    match result {
        Err(ArrayMetadataV2ToV3ConversionError::UnsupportedDataType(text)) => {
            assert_eq!(text, format!("{fields:?}"))
        }
        _ => panic!("expected an unsupported data type"),
    }
}

#[test]
fn c_order_conversion() {
    let metadata = v2(ArrayMetadataV2Order::C);
    let m = array_metadata_v2_to_v3(
        &metadata,
        Some(float64()),
        Ok(Some(Endianness::Little)),
        "0.0".to_string(),
        None,
    )
    .ok()
    .unwrap();
    assert_eq!(m.shape, vec![10, 20, 30]);
    assert_eq!(m.data_type.name, "float64");
    assert!(matches!(&m.chunk_grid, MetadataV3::RegularChunkGrid { chunk_shape } if *chunk_shape == vec![5, 10, 15]));
    assert!(matches!(
        m.chunk_key_encoding,
        MetadataV3::V2ChunkKeyEncoding { separator: ChunkKeySeparator::Slash }
    ));
    assert_eq!(m.fill_value, "0.0");
    assert_eq!(m.codecs.len(), 1);
    assert!(matches!(
        m.codecs[0],
        MetadataV3::Bytes { endian: Some(Endianness::Little) }
    ));
    assert_eq!(m.attributes.entries, configuration(&[("units", "\"m\"")]).entries);
    assert!(m.storage_transformers.is_empty());
    assert!(m.dimension_names.is_none());
    assert!(m.additional_fields.entries.is_empty());
}

#[test]
fn f_order_filters_and_compressor() {
    let mut metadata = v2(ArrayMetadataV2Order::F);
    metadata.filters = Some(vec![MetadataV2 {
        id: "delta".to_string(),
        configuration: configuration(&[("dtype", "\"<f8\"")]),
    }]);
    metadata.compressor = Some(MetadataV2 {
        id: "zstd".to_string(),
        configuration: configuration(&[("level", "1")]),
    });
    let m = array_metadata_v2_to_v3(&metadata, Some(float64()), Ok(None), "0.0".to_string(), None)
        .ok()
        .unwrap();
    assert_eq!(m.codecs.len(), 4);
    assert!(matches!(&m.codecs[0], MetadataV3::Transpose { order } if *order == vec![2, 1, 0]));
    assert_eq!(other_name(&m.codecs[1]), Some("delta"));
    assert!(matches!(m.codecs[2], MetadataV3::Bytes { endian: None }));
    assert_eq!(other_name(&m.codecs[3]), Some("zstd"));
    match &m.codecs[3] {
        MetadataV3::Other(zstd) => assert_eq!(
            zstd.configuration.as_ref().unwrap().entries,
            configuration(&[("level", "1")]).entries
        ),
        _ => unreachable!(),
    }
}

#[test]
fn blosc_compressor() {
    let mut metadata = v2(ArrayMetadataV2Order::C);
    metadata.compressor = Some(MetadataV2 {
        id: "blosc".to_string(),
        configuration: configuration(&[("cname", "\"lz4\"")]),
    });
    let blosc = configuration(&[("cname", "\"lz4\""), ("typesize", "8")]);
    let m = array_metadata_v2_to_v3(
        &metadata,
        Some(float64()),
        Ok(Some(Endianness::Big)),
        "0.0".to_string(),
        Some(Ok(blosc)),
    )
    .ok()
    .unwrap();
    assert_eq!(m.codecs.len(), 2);
    match &m.codecs[1] {
        MetadataV3::Other(b) => {
            assert_eq!(b.name, "blosc");
            assert_eq!(b.configuration.as_ref().unwrap().entries.len(), 2);
        }
        _ => panic!("expected the converted blosc codec"),
    }

    let result = array_metadata_v2_to_v3(
        &metadata,
        Some(float64()),
        Ok(Some(Endianness::Big)),
        "0.0".to_string(),
        Some(Err("missing field".to_string())),
    );
    match result {
        Err(ArrayMetadataV2ToV3ConversionError::SerdeError(message)) => {
            assert_eq!(message, "missing field")
        }
        _ => panic!("expected a serde error"),
    }
}
