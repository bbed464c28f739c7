//! Byte ranges.
//!
//! A [`ByteRange`] represents a byte range relative to the start or end of a byte sequence.
//! A byte range has an offset and optional length, which if omitted means to read all
//! remaining bytes.
//!
//! This module provides [`extract_byte_ranges`] for extracting byte ranges from a slice
//! of bytes.

use vstd::prelude::*;

verus! {

/// A byte offset.
pub type ByteOffset = u64;

/// A byte length.
pub type ByteLength = u64;

/// A byte range.
#[derive(Copy, Clone, Debug, PartialEq, Eq, Structural)]
pub enum ByteRange {
    /// A byte range from the start.
    ///
    /// If the byte length is [`None`], reads to the end of the value.
    FromStart(ByteOffset, Option<ByteLength>),
    /// A byte range from the end.
    ///
    /// If the byte length is [`None`], reads to the start of the value.
    FromEnd(ByteOffset, Option<ByteLength>),
}

impl ByteRange {
    /// The internal offset of the range (from the start or from the end).
    pub open spec fn offset_of(self) -> u64 {
        match self {
            ByteRange::FromStart(offset, _) => offset,
            ByteRange::FromEnd(offset, _) => offset,
        }
    }

    /// The optional length of the range.
    pub open spec fn length_of(self) -> Option<u64> {
        match self {
            ByteRange::FromStart(_, length) => length,
            ByteRange::FromEnd(_, length) => length,
        }
    }

    /// The start of the range in a byte sequence of `size` bytes.
    pub open spec fn start_in(self, size: int) -> int {
        match self {
            ByteRange::FromStart(offset, _) => offset as int,
            ByteRange::FromEnd(_, None) => 0,
            ByteRange::FromEnd(offset, Some(length)) => size - offset - length,
        }
    }

    /// The exclusive end of the range in a byte sequence of `size` bytes.
    pub open spec fn end_in(self, size: int) -> int {
        match self {
            ByteRange::FromStart(_, None) => size,
            ByteRange::FromStart(offset, Some(length)) => offset + length,
            ByteRange::FromEnd(offset, _) => size - offset,
        }
    }

    /// The length of the range in a byte sequence of `size` bytes.
    pub open spec fn length_in(self, size: int) -> int {
        match self.length_of() {
            None => size - self.offset_of(),
            Some(length) => length as int,
        }
    }

    /// `start` can be computed in `u64` arithmetic for `size`.
    pub open spec fn start_computable(self, size: u64) -> bool {
        self matches ByteRange::FromEnd(offset, Some(length)) ==> offset + length <= size
    }

    /// `end` can be computed in `u64` arithmetic for `size`.
    pub open spec fn end_computable(self, size: u64) -> bool {
        match self {
            ByteRange::FromStart(_, None) => true,
            ByteRange::FromStart(offset, Some(length)) => offset + length <= u64::MAX,
            ByteRange::FromEnd(offset, _) => offset <= size,
        }
    }

    /// `length` can be computed in `u64` arithmetic for `size`.
    pub open spec fn length_computable(self, size: u64) -> bool {
        self.length_of() is None ==> self.offset_of() <= size
    }

    /// The range requests no byte beyond the end of a sequence of `len` bytes.
    pub open spec fn within(self, len: int) -> bool {
        match self.length_of() {
            None => self.offset_of() <= len,
            Some(length) => self.offset_of() + length <= len,
        }
    }

    /// The bytes of `bytes` that the range selects.
    pub open spec fn select(self, bytes: Seq<u8>) -> Seq<u8> {
        bytes.subrange(self.start_in(bytes.len() as int), self.end_in(bytes.len() as int))
    }

    /// Return the start of a byte range. `size` is the size of the entire bytes.
    pub fn start(&self, size: u64) -> (start: u64)
        requires
            self.start_computable(size),
        ensures
            start == self.start_in(size as int),
    {
        match self {
            ByteRange::FromStart(offset, _) => *offset,
            ByteRange::FromEnd(offset, length) => match length {
                Some(length) => size - *offset - *length,
                None => 0,
            },
        }
    }

    /// Return the exclusive end of a byte range. `size` is the size of the entire bytes.
    pub fn end(&self, size: u64) -> (end: u64)
        requires
            self.end_computable(size),
        ensures
            end == self.end_in(size as int),
    {
        match self {
            ByteRange::FromStart(offset, length) => match length {
                Some(length) => *offset + *length,
                None => size,
            },
            ByteRange::FromEnd(offset, _) => size - *offset,
        }
    }

    /// Return the internal offset of the byte range (which can be at its start or end).
    pub fn offset(&self) -> (offset: u64)
        ensures
            offset == self.offset_of(),
    {
        match self {
            ByteRange::FromStart(offset, _) => *offset,
            ByteRange::FromEnd(offset, _) => *offset,
        }
    }

    /// Return the length of a byte range. `size` is the size of the entire bytes.
    pub fn length(&self, size: u64) -> (length: u64)
        requires
            self.length_computable(size),
        ensures
            length == self.length_in(size as int),
    {
        match self {
            ByteRange::FromStart(offset, None) => size - *offset,
            ByteRange::FromEnd(offset, None) => size - *offset,
            ByteRange::FromStart(_, Some(length)) => *length,
            ByteRange::FromEnd(_, Some(length)) => *length,
        }
    }

    /// Convert the byte range to a [`Range<u64>`](core::ops::Range).
    pub fn to_range(&self, size: u64) -> (range: core::ops::Range<u64>)
        requires
            self.start_computable(size),
            self.end_computable(size),
        ensures
            range.start == self.start_in(size as int),
            range.end == self.end_in(size as int),
    {
        core::ops::Range { start: self.start(size), end: self.end(size) }
    }

    /// Convert the byte range to a [`Range<usize>`](core::ops::Range).
    ///
    /// The start and end of the range must not exceed [`usize::MAX`].
    pub fn to_range_usize(&self, size: u64) -> (range: core::ops::Range<usize>)
        requires
            self.start_computable(size),
            self.end_computable(size),
            self.start_in(size as int) <= usize::MAX,
            self.end_in(size as int) <= usize::MAX,
        ensures
            range.start == self.start_in(size as int),
            range.end == self.end_in(size as int),
    {
        let start = self.start(size);
        let end = self.end(size);
        core::ops::Range { start: start as usize, end: end as usize }
    }
}

/// A byte range that lies within a sequence of `size` bytes has a start and an end
/// that `u64` arithmetic can compute, satisfies `0 <= start <= end <= size`, and its
/// length is `end - start`.
pub proof fn lemma_range_within_bounds(byte_range: ByteRange, size: u64)
    requires
        byte_range.within(size as int),
    ensures
        byte_range.start_computable(size),
        byte_range.end_computable(size),
        byte_range.length_computable(size),
        0 <= byte_range.start_in(size as int) <= byte_range.end_in(size as int) <= size,
        byte_range.length_in(size as int) == byte_range.end_in(size as int)
            - byte_range.start_in(size as int),
{
}

/// An invalid byte range error.
#[derive(Copy, Clone, Debug, PartialEq, Eq, Structural)]
pub struct InvalidByteRangeError;

/// Every byte range of `byte_ranges` lies within a sequence of `len` bytes.
pub open spec fn all_within(byte_ranges: Seq<ByteRange>, len: int) -> bool {
    forall|i: int| 0 <= i < byte_ranges.len() ==> #[trigger] byte_ranges[i].within(len)
}

/// `out` holds, in order, the bytes that each range of `byte_ranges` selects from `bytes`.
pub open spec fn extracted(out: Seq<Vec<u8>>, bytes: Seq<u8>, byte_ranges: Seq<ByteRange>) -> bool {
    &&& out.len() == byte_ranges.len()
    &&& forall|i: int| 0 <= i < out.len() ==> #[trigger] out[i]@ == byte_ranges[i].select(bytes)
    &&& forall|i: int|
        0 <= i < out.len() ==> #[trigger] out[i]@.len() == byte_ranges[i].length_in(
            bytes.len() as int,
        )
}

/// Check that every byte range lies within `bytes_len` bytes.
pub fn validate_byte_ranges(byte_ranges: &[ByteRange], bytes_len: u64) -> (valid: bool)
    ensures
        valid == all_within(byte_ranges@, bytes_len as int),
{
    let n = byte_ranges.len();
    let mut i: usize = 0;
    while i < n
        invariant
            n == byte_ranges@.len(),
            i <= n,
            all_within(byte_ranges@.take(i as int), bytes_len as int),
        decreases n - i,
    {
        let valid = match byte_ranges[i] {
            ByteRange::FromStart(offset, length) | ByteRange::FromEnd(offset, length) => {
                match length {
                    Some(length) => offset <= bytes_len && length <= bytes_len - offset,
                    None => offset <= bytes_len,
                }
            },
        };
        if !valid {
            assert(!byte_ranges@[i as int].within(bytes_len as int));
            return false;
        }
        assert(all_within(byte_ranges@.take(i + 1), bytes_len as int)) by {
            assert forall|j: int| 0 <= j < i + 1 implies #[trigger] byte_ranges@.take(i + 1)[j].within(
                bytes_len as int,
            ) by {
                if j < i {
                    assert(byte_ranges@.take(i + 1)[j] == byte_ranges@.take(i as int)[j]);
                }
            }
        }
        i = i + 1;
    }
    assert(byte_ranges@.take(n as int) =~= byte_ranges@);
    true
}

/// Extract byte ranges from bytes.
///
/// Returns [`InvalidByteRangeError`] if any bytes are requested beyond the end of `bytes`.
pub fn extract_byte_ranges(bytes: &[u8], byte_ranges: &[ByteRange]) -> (out: Result<
    Vec<Vec<u8>>,
    InvalidByteRangeError,
>)
    ensures
        out is Ok <==> all_within(byte_ranges@, bytes@.len() as int),
        out matches Ok(out) ==> extracted(out@, bytes@, byte_ranges@),
{
    if !validate_byte_ranges(byte_ranges, bytes.len() as u64) {
        return Err(InvalidByteRangeError);
    }
    Ok(extract_byte_ranges_unchecked(bytes, byte_ranges))
}

/// Extract byte ranges from bytes.
///
/// All byte ranges in `byte_ranges` must specify a range within `bytes`.
pub fn extract_byte_ranges_unchecked(bytes: &[u8], byte_ranges: &[ByteRange]) -> (out: Vec<Vec<u8>>)
    requires
        all_within(byte_ranges@, bytes@.len() as int),
    ensures
        extracted(out@, bytes@, byte_ranges@),
{
    let len: usize = bytes.len();
    let size = len as u64;
    let n = byte_ranges.len();
    let mut out: Vec<Vec<u8>> = Vec::with_capacity(n);
    let mut i: usize = 0;
    while i < n
        invariant
            n == byte_ranges@.len(),
            size == len,
            len == bytes@.len(),
            i <= n,
            all_within(byte_ranges@, bytes@.len() as int),
            extracted(out@, bytes@, byte_ranges@.take(i as int)),
        decreases n - i,
    {
        let byte_range = byte_ranges[i];
        proof {
            assert(byte_range.within(size as int));
            lemma_range_within_bounds(byte_range, size);
        }
        let start_u64 = byte_range.start(size);
        let end_u64 = byte_range.end(size);
        let start = start_u64 as usize;
        let end = end_u64 as usize;
        let part = vstd::slice::slice_to_vec(vstd::slice::slice_subrange(bytes, start, end));
        out.push(part);
        proof {
            let taken = byte_ranges@.take(i + 1);
            assert forall|j: int| 0 <= j < out@.len() implies #[trigger] out@[j]@ == taken[j].select(
                bytes@,
            ) && out@[j]@.len() == taken[j].length_in(bytes@.len() as int) by {
                if j < i {
                    assert(taken[j] == byte_ranges@.take(i as int)[j]);
                }
            }
        }
        i = i + 1;
    }
    assert(byte_ranges@.take(n as int) =~= byte_ranges@);
    out
}

/// A range from the end selects the same bytes as the range from the start that begins
/// where it begins and has its length.
pub proof fn lemma_from_end_as_from_start(offset: u64, length: Option<u64>, bytes: Seq<u8>)
    requires
        bytes.len() <= u64::MAX,
        ByteRange::FromEnd(offset, length).within(bytes.len() as int),
    ensures
        ({
            let from_end = ByteRange::FromEnd(offset, length);
            let size = bytes.len() as int;
            let from_start = ByteRange::FromStart(
                from_end.start_in(size) as u64,
                Some(from_end.length_in(size) as u64),
            );
            &&& from_start.within(size)
            &&& from_start.select(bytes) == from_end.select(bytes)
        }),
{
    lemma_range_within_bounds(ByteRange::FromEnd(offset, length), bytes.len() as u64);
}

/// A range lies within `len` bytes exactly when its offset plus its length (zero where it
/// has none) is at most `len`, whether it counts from the start or from the end.
pub proof fn lemma_within_exactly(offset: u64, length: Option<u64>, len: int)
    ensures
        ByteRange::FromStart(offset, length).within(len) <==> offset + (match length {
            Some(l) => l as int,
            None => 0int,
        }) <= len,
        ByteRange::FromEnd(offset, length).within(len) <==> offset + (match length {
            Some(l) => l as int,
            None => 0int,
        }) <= len,
{
}

/// Where ranges begin and end in a value of `size` bytes: a range from the start begins
/// `offset` bytes after the start and ends `length` bytes later, or at the end; a range
/// from the end ends `offset` bytes before the end and begins `length` bytes earlier, or at
/// the start.
pub proof fn lemma_range_ends(offset: u64, length: u64, size: int)
    ensures
        ByteRange::FromStart(offset, Some(length)).start_in(size) == offset,
        ByteRange::FromStart(offset, Some(length)).end_in(size) == offset + length,
        ByteRange::FromStart(offset, None).start_in(size) == offset,
        ByteRange::FromStart(offset, None).end_in(size) == size,
        ByteRange::FromEnd(offset, Some(length)).end_in(size) == size - offset,
        ByteRange::FromEnd(offset, Some(length)).start_in(size) == size - offset - length,
        ByteRange::FromEnd(offset, None).end_in(size) == size - offset,
        ByteRange::FromEnd(offset, None).start_in(size) == 0,
{
}

/// A range from the end selects the reverse of what the same range from the start selects
/// of the reversed bytes.
pub proof fn lemma_from_end_mirrors_from_start(offset: u64, length: Option<u64>, bytes: Seq<u8>)
    requires
        ByteRange::FromEnd(offset, length).within(bytes.len() as int),
    ensures
        ByteRange::FromEnd(offset, length).select(bytes) == ByteRange::FromStart(
            offset,
            length,
        ).select(bytes.reverse()).reverse(),
{
    let n = bytes.len() as int;
    let from_end = ByteRange::FromEnd(offset, length).select(bytes);
    let mirrored = ByteRange::FromStart(offset, length).select(bytes.reverse()).reverse();
    assert(from_end.len() == mirrored.len());
    assert forall|k: int| 0 <= k < from_end.len() implies from_end[k] == mirrored[k] by {
        let start = ByteRange::FromEnd(offset, length).start_in(n);
        let s = ByteRange::FromStart(offset, length).select(bytes.reverse());
        assert(mirrored[k] == s[s.len() - 1 - k]);
        assert(s[s.len() - 1 - k] == bytes.reverse()[offset + s.len() - 1 - k]);
        assert(from_end[k] == bytes[start + k]);
    }
    assert(from_end =~= mirrored);
}

} // verus!
