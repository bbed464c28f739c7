use zarrs::byte_range::{
    extract_byte_ranges, extract_byte_ranges_unchecked, validate_byte_ranges, ByteRange,
    InvalidByteRangeError,
};

#[test]
fn byte_ranges() {
    let byte_range = ByteRange::FromStart(1, None);
    assert_eq!(byte_range.to_range(10), 1..10);
    assert_eq!(byte_range.length(10), 9);
    assert_eq!(byte_range.offset(), 1);

    let byte_range = ByteRange::FromStart(1, Some(5));
    assert_eq!(byte_range.to_range(10), 1..6);
    assert_eq!(byte_range.to_range_usize(10), 1..6);
    assert_eq!(byte_range.length(10), 5);

    assert!(validate_byte_ranges(&[ByteRange::FromStart(1, Some(5))], 6));
    assert!(!validate_byte_ranges(
        &[ByteRange::FromStart(1, Some(5))],
        2
    ));

    assert!(extract_byte_ranges(&[1, 2, 3], &[ByteRange::FromStart(1, Some(2))]).is_ok());
    assert!(extract_byte_ranges(&[1, 2, 3], &[ByteRange::FromStart(1, Some(4))]).is_err())
}

#[test]
fn from_end_ranges() {
    let byte_range = ByteRange::FromEnd(2, Some(3));
    assert_eq!(byte_range.start(10), 5);
    assert_eq!(byte_range.end(10), 8);
    assert_eq!(byte_range.length(10), 3);
    assert_eq!(byte_range.offset(), 2);
    assert_eq!(byte_range.to_range(10), 5..8);
    assert_eq!(byte_range.to_range_usize(10), 5..8);

    let byte_range = ByteRange::FromEnd(4, None);
    assert_eq!(byte_range.start(10), 0);
    assert_eq!(byte_range.end(10), 6);
    assert_eq!(byte_range.length(10), 6);
    assert_eq!(byte_range.to_range(10), 0..6);
}

#[test]
fn from_start_to_end_of_bytes() {
    let byte_range = ByteRange::FromStart(3, None);
    assert_eq!(byte_range.start(10), 3);
    assert_eq!(byte_range.end(10), 10);
    assert_eq!(byte_range.length(10), 7);
}

#[test]
fn range_within_bounds_has_length_end_minus_start() {
    let ranges = [
        ByteRange::FromStart(2, Some(3)),
        ByteRange::FromStart(2, None),
        ByteRange::FromEnd(2, Some(3)),
        ByteRange::FromEnd(2, None),
    ];
    assert!(validate_byte_ranges(&ranges, 8));
    for range in ranges {
        let start = range.start(8);
        let end = range.end(8);
        assert!(start <= end && end <= 8);
        assert_eq!(range.length(8), end - start);
    }
}

#[test]
fn validate_edges() {
    assert!(validate_byte_ranges(&[], 0));
    assert!(validate_byte_ranges(&[ByteRange::FromStart(0, None)], 0));
    assert!(validate_byte_ranges(&[ByteRange::FromStart(3, Some(0))], 3));
    assert!(!validate_byte_ranges(&[ByteRange::FromStart(4, Some(0))], 3));
    assert!(!validate_byte_ranges(&[ByteRange::FromEnd(4, None)], 3));
    assert!(validate_byte_ranges(&[ByteRange::FromEnd(3, None)], 3));
    assert!(!validate_byte_ranges(
        &[ByteRange::FromStart(1, Some(1)), ByteRange::FromEnd(2, Some(2))],
        3
    ));
    // The sum of offset and length is compared without overflow.
    assert!(!validate_byte_ranges(
        &[ByteRange::FromStart(u64::MAX, Some(u64::MAX))],
        10
    ));
}

#[test]
fn extract_values() {
    let bytes = [0u8, 1, 2, 3, 4, 5, 6, 7, 8, 9];
    let out = extract_byte_ranges(
        &bytes,
        &[
            ByteRange::FromStart(1, Some(2)),
            ByteRange::FromStart(8, None),
            ByteRange::FromEnd(1, Some(3)),
            ByteRange::FromEnd(7, None),
            ByteRange::FromStart(4, Some(0)),
        ],
    )
    .unwrap();
    assert_eq!(
        out,
        vec![vec![1, 2], vec![8, 9], vec![6, 7, 8], vec![0, 1, 2], vec![]]
    );
    let unchecked = extract_byte_ranges_unchecked(&bytes, &[ByteRange::FromEnd(0, Some(2))]);
    assert_eq!(unchecked, vec![vec![8, 9]]);
}

#[test]
fn extract_invalid() {
    let result = extract_byte_ranges(&[1, 2, 3], &[ByteRange::FromEnd(1, Some(3))]);
    assert_eq!(result.unwrap_err(), InvalidByteRangeError);
    let result = extract_byte_ranges(&[], &[ByteRange::FromStart(1, None)]);
    assert!(result.is_err());
    let result = extract_byte_ranges(&[1, 2, 3], &[]);
    assert_eq!(result.unwrap(), Vec::<Vec<u8>>::new());
}
