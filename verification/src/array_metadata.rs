//! Zarr array metadata, and the conversion of Zarr V2 array metadata to V3.
//!
//! The conversion decides the structure of the V3 metadata: the chunk grid, the codec
//! chain (transpose, filters, bytes, compressor), the chunk key encoding and the
//! attributes. The data type, endianness and fill value conversions and the conversion of
//! a blosc compressor are computed by the caller and handed in as values.

use vstd::prelude::*;

use crate::metadata::{configuration_view, Metadata, MetadataConfiguration};

verus! {

/// The name of the blosc codec.
pub const BLOSC_IDENTIFIER: &'static str = "blosc";

/// Byte order.
#[derive(Copy, Clone, Debug, PartialEq, Eq, Structural)]
pub enum Endianness {
    /// Little endian.
    Little,
    /// Big endian.
    Big,
}

/// The separator of the parts of a chunk key.
#[derive(Copy, Clone, Debug, PartialEq, Eq, Structural)]
pub enum ChunkKeySeparator {
    /// `/`
    Slash,
    /// `.`
    Dot,
}

/// The memory layout of a Zarr V2 array.
#[derive(Copy, Clone, Debug, PartialEq, Eq, Structural)]
pub enum ArrayMetadataV2Order {
    /// Row-major order.
    C,
    /// Column-major order.
    F,
}

/// The endianness of a Zarr V2 data type is invalid.
#[derive(Copy, Clone, Debug, PartialEq, Eq, Structural)]
pub struct DataTypeMetadataV2InvalidEndiannessError;

/// A field of a Zarr V2 structured data type.
#[derive(Clone, Debug)]
pub struct DataTypeMetadataV2Structured {
    /// The name of the field.
    pub fieldname: String,
    /// The data type of the field.
    pub datatype: String,
    /// The shape of the field, if it is a subarray.
    pub shape: Option<Vec<u64>>,
}

impl View for DataTypeMetadataV2Structured {
    type V = (Seq<char>, Seq<char>, Option<Seq<u64>>);

    open spec fn view(&self) -> (Seq<char>, Seq<char>, Option<Seq<u64>>) {
        (
            self.fieldname@,
            self.datatype@,
            match self.shape {
                Some(shape) => Some(shape@),
                None => None,
            },
        )
    }
}

/// A Zarr V2 data type.
#[derive(Clone, Debug)]
pub enum ArrayMetadataV2DataType {
    /// A simple data type, such as `<f8`.
    Simple(String),
    /// A structured data type.
    Structured(Vec<DataTypeMetadataV2Structured>),
}

/// Zarr V2 metadata of a filter or compressor: an id and a configuration.
pub struct MetadataV2 {
    /// The id.
    pub id: String,
    /// The configuration.
    pub configuration: MetadataConfiguration,
}

impl View for MetadataV2 {
    type V = (Seq<char>, Seq<(Seq<char>, Seq<char>)>);

    open spec fn view(&self) -> (Seq<char>, Seq<(Seq<char>, Seq<char>)>) {
        (self.id@, self.configuration@)
    }
}

/// Zarr V2 array metadata.
pub struct ArrayMetadataV2 {
    /// The Zarr format, which must be 2.
    pub zarr_format: usize,
    /// The shape of the array.
    pub shape: Vec<u64>,
    /// The shape of a chunk.
    pub chunks: Vec<u64>,
    /// The data type.
    pub dtype: ArrayMetadataV2DataType,
    /// The compressor, if any.
    pub compressor: Option<MetadataV2>,
    /// The fill value, as JSON text.
    pub fill_value: String,
    /// The memory layout.
    pub order: ArrayMetadataV2Order,
    /// The filters, if any.
    pub filters: Option<Vec<MetadataV2>>,
    /// The separator of chunk keys.
    pub dimension_separator: ChunkKeySeparator,
    /// The attributes.
    pub attributes: MetadataConfiguration,
}

/// Zarr V3 metadata of a chunk grid, chunk key encoding or codec.
pub enum MetadataV3 {
    /// The `regular` chunk grid.
    RegularChunkGrid {
        /// The shape of a chunk.
        chunk_shape: Vec<u64>,
    },
    /// The `transpose` codec.
    Transpose {
        /// The permutation of the axes.
        order: Vec<usize>,
    },
    /// The `bytes` codec.
    Bytes {
        /// The byte order, if the data type has one.
        endian: Option<Endianness>,
    },
    /// The `v2` chunk key encoding.
    V2ChunkKeyEncoding {
        /// The separator.
        separator: ChunkKeySeparator,
    },
    /// Any other metadata, by name and configuration.
    Other(Metadata),
}

/// The view of Zarr V3 metadata.
pub enum MetadataV3View {
    /// The `regular` chunk grid.
    RegularChunkGrid { chunk_shape: Seq<u64> },
    /// The `transpose` codec.
    Transpose { order: Seq<usize> },
    /// The `bytes` codec.
    Bytes { endian: Option<Endianness> },
    /// The `v2` chunk key encoding.
    V2ChunkKeyEncoding { separator: ChunkKeySeparator },
    /// Any other metadata.
    Other { metadata: (Seq<char>, Option<Seq<(Seq<char>, Seq<char>)>>) },
}

impl View for MetadataV3 {
    type V = MetadataV3View;

    open spec fn view(&self) -> MetadataV3View {
        match self {
            MetadataV3::RegularChunkGrid { chunk_shape } => MetadataV3View::RegularChunkGrid {
                chunk_shape: chunk_shape@,
            },
            MetadataV3::Transpose { order } => MetadataV3View::Transpose { order: order@ },
            MetadataV3::Bytes { endian } => MetadataV3View::Bytes { endian: *endian },
            MetadataV3::V2ChunkKeyEncoding { separator } => MetadataV3View::V2ChunkKeyEncoding {
                separator: *separator,
            },
            MetadataV3::Other(metadata) => MetadataV3View::Other { metadata: metadata@ },
        }
    }
}

/// The views of a sequence of Zarr V3 metadata.
pub open spec fn metadata_v3_views(metadata: Seq<MetadataV3>) -> Seq<MetadataV3View> {
    metadata.map_values(|m: MetadataV3| m@)
}

/// Zarr V3 array metadata.
pub struct ArrayMetadataV3 {
    /// The shape of the array.
    pub shape: Vec<u64>,
    /// The data type.
    pub data_type: Metadata,
    /// The chunk grid.
    pub chunk_grid: MetadataV3,
    /// The chunk key encoding.
    pub chunk_key_encoding: MetadataV3,
    /// The fill value, as JSON text.
    pub fill_value: String,
    /// The codecs, in the order they encode.
    pub codecs: Vec<MetadataV3>,
    /// The attributes.
    pub attributes: MetadataConfiguration,
    /// The storage transformers.
    pub storage_transformers: Vec<MetadataV3>,
    /// The names of the dimensions, if any.
    pub dimension_names: Option<Vec<Option<String>>>,
    /// Fields beyond those of the specification, as key and JSON text.
    pub additional_fields: MetadataConfiguration,
}

/// Zarr array metadata of either version.
pub enum ArrayMetadata {
    /// Zarr Version 3.0.
    V3(ArrayMetadataV3),
    /// Zarr Version 2.0.
    V2(ArrayMetadataV2),
}

/// An error converting Zarr V2 array metadata to V3.
pub enum ArrayMetadataV2ToV3ConversionError {
    /// Invalid zarr format: the one found, and the one expected.
    InvalidZarrFormat(usize, usize),
    /// Unsupported data type.
    UnsupportedDataType(String),
    /// Invalid data type endianness.
    InvalidEndianness(DataTypeMetadataV2InvalidEndiannessError),
    /// An unsupported codec, with its configuration.
    UnsupportedCodec(String, MetadataConfiguration),
    /// Serialization or deserialization error, with its message.
    SerdeError(String),
}

/// The text that `format!("{:?}", ..)` gives of a structured data type, named as a
/// function of its fields.
pub uninterp spec fn structured_data_type_debug(
    fields: Seq<(Seq<char>, Seq<char>, Option<Seq<u64>>)>,
) -> Seq<char>;

/// The views of the fields of a structured data type.
pub open spec fn structured_views(fields: Seq<DataTypeMetadataV2Structured>) -> Seq<
    (Seq<char>, Seq<char>, Option<Seq<u64>>),
> {
    fields.map_values(|f: DataTypeMetadataV2Structured| f@)
}

/// Calls `format!("{:?}", ..)` of std on the fields of a structured data type, which gives
/// the text of their derived `Debug`. The contract claims only that the text is a function
/// of the fields, named `structured_data_type_debug`.
#[verifier::external_body]
fn structured_data_type_text(fields: &Vec<DataTypeMetadataV2Structured>) -> (text: String)
    ensures
        text@ == structured_data_type_debug(structured_views(fields@)),
{
    format!("{fields:?}")
}

/// The text of an unsupported data type in the conversion error.
pub open spec fn unsupported_data_type_text(dtype: ArrayMetadataV2DataType) -> Seq<char> {
    match dtype {
        ArrayMetadataV2DataType::Simple(name) => name@,
        ArrayMetadataV2DataType::Structured(fields) => structured_data_type_debug(
            structured_views(fields@),
        ),
    }
}

/// The compressor is blosc.
pub open spec fn has_blosc_compressor(v2: ArrayMetadataV2) -> bool {
    v2.compressor matches Some(c) && c.id@ == BLOSC_IDENTIFIER@
}

/// The message of a failed blosc conversion.
pub open spec fn blosc_error_text(blosc_v3: Option<Result<MetadataConfiguration, String>>) -> Seq<char> {
    match blosc_v3 {
        Some(Err(message)) => message@,
        _ => Seq::empty(),
    }
}

/// The reversed axes `n - 1, ..., 1, 0`.
pub open spec fn reversed_axes(n: nat) -> Seq<usize> {
    Seq::new(n, |i: int| (n - 1 - i) as usize)
}

/// The transpose codec of column-major arrays.
pub open spec fn transpose_codecs(v2: ArrayMetadataV2) -> Seq<MetadataV3View> {
    match v2.order {
        ArrayMetadataV2Order::F => seq![
            MetadataV3View::Transpose { order: reversed_axes(v2.shape@.len()) },
        ],
        ArrayMetadataV2Order::C => Seq::empty(),
    }
}

/// The view of a filter as a V3 codec: its id and its configuration.
pub open spec fn filter_codec(filter: (Seq<char>, Seq<(Seq<char>, Seq<char>)>)) -> MetadataV3View {
    MetadataV3View::Other { metadata: (filter.0, Some(filter.1)) }
}

/// The filters as V3 codecs.
pub open spec fn filter_codecs(v2: ArrayMetadataV2) -> Seq<MetadataV3View> {
    match v2.filters {
        Some(filters) => filters@.map_values(|f: MetadataV2| filter_codec(f@)),
        None => Seq::empty(),
    }
}

/// The compressor as a V3 codec: the blosc codec with its converted configuration, or the
/// compressor's id and configuration.
pub open spec fn compressor_codecs(v2: ArrayMetadataV2, blosc_v3: Option<Result<MetadataConfiguration, String>>) -> Seq<
    MetadataV3View,
> {
    match v2.compressor {
        None => Seq::empty(),
        Some(c) => if c.id@ == BLOSC_IDENTIFIER@ {
            match blosc_v3 {
                Some(Ok(configuration)) => seq![
                    MetadataV3View::Other {
                        metadata: (BLOSC_IDENTIFIER@, Some(configuration@)),
                    },
                ],
                _ => Seq::empty(),
            }
        } else {
            seq![filter_codec(c@)]
        },
    }
}

/// The codecs of the V3 metadata: transpose, filters, bytes, compressor.
pub open spec fn v3_codecs(
    v2: ArrayMetadataV2,
    endian: Option<Endianness>,
    blosc_v3: Option<Result<MetadataConfiguration, String>>,
) -> Seq<MetadataV3View> {
    transpose_codecs(v2) + filter_codecs(v2) + seq![MetadataV3View::Bytes { endian }]
        + compressor_codecs(v2, blosc_v3)
}

/// Copy a sequence of `u64`.
fn copy_u64s(values: &Vec<u64>) -> (copy: Vec<u64>)
    ensures
        copy@ == values@,
{
    let n = values.len();
    let mut copy: Vec<u64> = Vec::with_capacity(n);
    let mut i: usize = 0;
    while i < n
        invariant
            n == values@.len(),
            i <= n,
            copy@ == values@.take(i as int),
        decreases n - i,
    {
        copy.push(values[i]);
        assert(values@.take(i + 1) == values@.take(i as int).push(values@[i as int]));
        i = i + 1;
    }
    assert(values@.take(n as int) == values@);
    copy
}

/// The V3 codec of a V2 filter or compressor: its id and its configuration.
fn filter_to_v3(filter: &MetadataV2) -> (codec: MetadataV3)
    ensures
        codec@ == filter_codec(filter@),
{
    MetadataV3::Other(
        Metadata { name: filter.id.clone(), configuration: Some(filter.configuration.duplicate()) },
    )
}

/// Convert Zarr V2 array metadata to V3.
///
/// `data_type` is the V3 data type of the V2 data type, or `None` where it has none;
/// `endianness` is the byte order of the V2 data type, or the error where it is invalid;
/// `fill_value` is the V3 fill value as JSON text; `blosc_v3` is, where the compressor is
/// blosc, its V3 configuration or the message of the error converting it.
///
/// # Errors
/// Returns a [`ArrayMetadataV2ToV3ConversionError`] if the metadata is invalid or is not
/// compatible with Zarr V3 metadata.
pub fn array_metadata_v2_to_v3(
    array_metadata_v2: &ArrayMetadataV2,
    data_type: Option<Metadata>,
    endianness: Result<Option<Endianness>, DataTypeMetadataV2InvalidEndiannessError>,
    fill_value: String,
    blosc_v3: Option<Result<MetadataConfiguration, String>>,
) -> (result: Result<ArrayMetadataV3, ArrayMetadataV2ToV3ConversionError>)
    requires
        has_blosc_compressor(*array_metadata_v2) ==> blosc_v3 is Some,
    ensures
        ({
            let v2 = *array_metadata_v2;
            &&& v2.zarr_format != 2 ==> (result matches Err(
                ArrayMetadataV2ToV3ConversionError::InvalidZarrFormat(found, expected),
            ) && found == v2.zarr_format && expected == 2)
            &&& v2.zarr_format == 2 && endianness is Err ==> (result matches Err(
                ArrayMetadataV2ToV3ConversionError::InvalidEndianness(_),
            ))
            &&& v2.zarr_format == 2 && endianness is Ok && data_type is None ==> (result matches Err(
                ArrayMetadataV2ToV3ConversionError::UnsupportedDataType(text),
            ) && text@ == unsupported_data_type_text(v2.dtype))
            &&& (blosc_v3 matches Some(Err(_)) && v2.zarr_format == 2 && endianness is Ok
                && data_type is Some && has_blosc_compressor(v2)) ==> (result matches Err(
                ArrayMetadataV2ToV3ConversionError::SerdeError(m),
            ) && m@ == blosc_error_text(blosc_v3))
            &&& result is Ok <==> (v2.zarr_format == 2 && endianness is Ok && data_type is Some && !(
            has_blosc_compressor(v2) && blosc_v3 matches Some(Err(_))))
            &&& result matches Ok(m) ==> {
                &&& m.shape@ == v2.shape@
                &&& m.data_type@ == data_type.unwrap()@
                &&& m.chunk_grid@ == MetadataV3View::RegularChunkGrid { chunk_shape: v2.chunks@ }
                &&& m.chunk_key_encoding@ == MetadataV3View::V2ChunkKeyEncoding {
                    separator: v2.dimension_separator,
                }
                &&& m.fill_value@ == fill_value@
                &&& metadata_v3_views(m.codecs@) == v3_codecs(v2, endianness.unwrap(), blosc_v3)
                &&& m.attributes@ == v2.attributes@
                &&& m.storage_transformers@.len() == 0
                &&& m.dimension_names is None
                &&& m.additional_fields@.len() == 0
            }
        }),
{
    let v2 = array_metadata_v2;
    if v2.zarr_format != 2 {
        return Err(ArrayMetadataV2ToV3ConversionError::InvalidZarrFormat(v2.zarr_format, 2));
    }
    let shape = copy_u64s(&v2.shape);
    let chunk_grid = MetadataV3::RegularChunkGrid { chunk_shape: copy_u64s(&v2.chunks) };

    let endianness = match endianness {
        Ok(endianness) => endianness,
        Err(error) => {
            return Err(ArrayMetadataV2ToV3ConversionError::InvalidEndianness(error));
        },
    };
    let data_type = match data_type {
        Some(data_type) => data_type,
        None => {
            let text = match &v2.dtype {
                ArrayMetadataV2DataType::Simple(dtype) => dtype.clone(),
                ArrayMetadataV2DataType::Structured(dtype) => structured_data_type_text(dtype),
            };
            return Err(ArrayMetadataV2ToV3ConversionError::UnsupportedDataType(text));
        },
    };

    let mut codecs: Vec<MetadataV3> = Vec::new();
    let ghost expected_before_filters = transpose_codecs(*v2);

    // Array-to-array codecs
    if v2.order == ArrayMetadataV2Order::F {
        let n = v2.shape.len();
        let mut order: Vec<usize> = Vec::with_capacity(n);
        let mut i: usize = 0;
        while i < n
            invariant
                n == v2.shape@.len(),
                i <= n,
                order@ == reversed_axes(n as nat).take(i as int),
            decreases n - i,
        {
            order.push(n - 1 - i);
            assert(reversed_axes(n as nat).take(i + 1) =~= reversed_axes(n as nat).take(
                i as int,
            ).push((n - 1 - i) as usize));
            i = i + 1;
        }
        assert(reversed_axes(n as nat).take(n as int) =~= reversed_axes(n as nat));
        codecs.push(MetadataV3::Transpose { order });
    }
    assert(metadata_v3_views(codecs@) =~= expected_before_filters);

    // Filters (array to array codecs)
    let ghost filters_view = filter_codecs(*v2);
    match &v2.filters {
        Some(filters) => {
            let n = filters.len();
            let mut i: usize = 0;
            while i < n
                invariant
                    n == filters@.len(),
                    i <= n,
                    filters_view == filters@.map_values(|f: MetadataV2| filter_codec(f@)),
                    metadata_v3_views(codecs@) == expected_before_filters + filters_view.take(
                        i as int,
                    ),
                decreases n - i,
            {
                let codec = filter_to_v3(&filters[i]);
                let ghost before = codecs@;
                codecs.push(codec);
                assert(metadata_v3_views(codecs@) =~= metadata_v3_views(before).push(codec@));
                assert(filters_view.take(i + 1) =~= filters_view.take(i as int).push(
                    filters_view[i as int],
                ));
                i = i + 1;
            }
            assert(filters_view.take(n as int) =~= filters_view);
        },
        None => {
            assert(filters_view =~= Seq::<MetadataV3View>::empty());
        },
    }
    assert(metadata_v3_views(codecs@) =~= expected_before_filters + filters_view);

    // Array-to-bytes codec
    let ghost before_bytes = codecs@;
    codecs.push(MetadataV3::Bytes { endian: endianness });
    assert(metadata_v3_views(codecs@) =~= metadata_v3_views(before_bytes).push(
        MetadataV3View::Bytes { endian: endianness },
    ));

    // Compressor (bytes to bytes codec)
    let ghost before_compressor = codecs@;
    match &v2.compressor {
        Some(compressor) => {
            let blosc_name = BLOSC_IDENTIFIER.to_owned();
            if compressor.id == blosc_name {
                match blosc_v3 {
                    Some(Ok(configuration)) => {
                        let codec = MetadataV3::Other(
                            Metadata { name: blosc_name, configuration: Some(configuration) },
                        );
                        codecs.push(codec);
                        assert(metadata_v3_views(codecs@) =~= metadata_v3_views(
                            before_compressor,
                        ).push(codec@));
                    },
                    Some(Err(message)) => {
                        return Err(ArrayMetadataV2ToV3ConversionError::SerdeError(message));
                    },
                    None => {
                        assert(false);
                    },
                }
            } else {
                let codec = filter_to_v3(compressor);
                codecs.push(codec);
                assert(metadata_v3_views(codecs@) =~= metadata_v3_views(before_compressor).push(
                    codec@,
                ));
            }
        },
        None => {},
    }
    assert(metadata_v3_views(codecs@) =~= v3_codecs(*v2, endianness, blosc_v3));

    let chunk_key_encoding = MetadataV3::V2ChunkKeyEncoding { separator: v2.dimension_separator };
    let attributes = v2.attributes.duplicate();

    Ok(
        ArrayMetadataV3 {
            shape,
            data_type,
            chunk_grid,
            chunk_key_encoding,
            fill_value,
            codecs,
            attributes,
            storage_transformers: Vec::new(),
            dimension_names: None,
            additional_fields: MetadataConfiguration::new(),
        },
    )
}

/// The codecs of the conversion, position by position: for column-major arrays first a
/// transpose that reverses all axes, then each filter in its V2 order with its id and
/// configuration, then `bytes` with the endianness, and last the compressor, if any.
pub proof fn lemma_codec_chain(
    v2: ArrayMetadataV2,
    endian: Option<Endianness>,
    blosc_v3: Option<Result<MetadataConfiguration, String>>,
)
    requires
        v2.shape@.len() <= usize::MAX,
    ensures
        ({
            let codecs = v3_codecs(v2, endian, blosc_v3);
            let n = v2.shape@.len() as int;
            let t: int = if v2.order == ArrayMetadataV2Order::F {
                1
            } else {
                0
            };
            let f: int = match v2.filters {
                Some(filters) => filters@.len() as int,
                None => 0,
            };
            &&& codecs.len() >= t + f + 1
            &&& (v2.order == ArrayMetadataV2Order::F ==> (codecs[0] matches MetadataV3View::Transpose {
                order,
            } && order.len() == n && forall|i: int| 0 <= i < n ==> #[trigger] order[i] + i == n - 1))
            &&& (v2.filters matches Some(filters) ==> forall|j: int|
                0 <= j < filters@.len() ==> #[trigger] codecs[t + j] == MetadataV3View::Other {
                    metadata: (filters@[j].id@, Some(filters@[j].configuration@)),
                })
            &&& codecs[t + f] == MetadataV3View::Bytes { endian }
            &&& match v2.compressor {
                None => codecs.len() == t + f + 1,
                Some(c) => if c.id@ != BLOSC_IDENTIFIER@ {
                    codecs.len() == t + f + 2 && codecs[t + f + 1] == MetadataV3View::Other {
                        metadata: (c.id@, Some(c.configuration@)),
                    }
                } else {
                    match blosc_v3 {
                        Some(Ok(configuration)) => codecs.len() == t + f + 2 && codecs[t + f + 1]
                            == MetadataV3View::Other {
                            metadata: (BLOSC_IDENTIFIER@, Some(configuration@)),
                        },
                        _ => codecs.len() == t + f + 1,
                    }
                },
            }
        }),
{
    let codecs = v3_codecs(v2, endian, blosc_v3);
    let tr = transpose_codecs(v2);
    let fi = filter_codecs(v2);
    let by = seq![MetadataV3View::Bytes { endian }];
    let co = compressor_codecs(v2, blosc_v3);
    let t = tr.len() as int;
    let f = fi.len() as int;
    assert(codecs == tr + fi + by + co);
    assert(codecs.len() == t + f + 1 + co.len());
    assert forall|k: int| 0 <= k < t implies codecs[k] == tr[k] by {}
    assert forall|k: int| 0 <= k < f implies #[trigger] codecs[t + k] == fi[k] by {}
    assert(codecs[t + f] == by[0]);
    assert forall|k: int| 0 <= k < co.len() implies #[trigger] codecs[t + f + 1 + k] == co[k] by {}
    match v2.filters {
        Some(filters) => {
            assert(f == filters@.len());
            assert forall|j: int| 0 <= j < filters@.len() implies fi[j] == MetadataV3View::Other {
                metadata: (filters@[j].id@, Some(filters@[j].configuration@)),
            } by {}
        },
        None => {
            assert(f == 0);
        },
    }
    if v2.order == ArrayMetadataV2Order::F {
        let n = v2.shape@.len() as int;
        let order = reversed_axes(n as nat);
        assert(codecs[0] == tr[0]);
        assert forall|i: int| 0 <= i < n implies #[trigger] order[i] + i == n - 1 by {
            assert(order[i] == (n - 1 - i) as usize);
        }
    }
}

} // verus!
