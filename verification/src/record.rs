//! Decoding of the buffer that a journal read returns: eight bytes that hold
//! the next cursor, then zero or more records of variable length.

use crate::file_kind::{
    extension_of_chars, extension_text, file_type_of, file_type_of_chars, FileType,
};
use crate::reason::{classify_operation, operation_of, OperationKind};
use crate::utf16::{decode_lossy, decode_utf16_lossy, string_of_chars};
use vstd::prelude::*;

verus! {

/// The bytes at the start of a buffer that hold the next cursor.
pub const CURSOR_BYTES: usize = 8;

/// The size of the fixed part of a record.
pub const HEADER_BYTES: usize = 64;

/// Where in a record its file reference number stands.
pub const AT_FILE_REFERENCE: usize = 8;

/// Where in a record its sequence number stands.
pub const AT_USN: usize = 24;

/// Where in a record its reason bitmask stands.
pub const AT_REASON: usize = 40;

/// Where in a record the length of its file name, in bytes, stands.
pub const AT_NAME_LENGTH: usize = 56;

/// Where in a record the offset of its file name stands.
pub const AT_NAME_OFFSET: usize = 58;

/// The two bytes at `at`, read as a little-endian number.
pub open spec fn le_u16(bytes: Seq<u8>, at: int) -> int {
    bytes[at] + 0x100 * bytes[at + 1]
}

/// The four bytes at `at`, read as a little-endian number.
pub open spec fn le_u32(bytes: Seq<u8>, at: int) -> int {
    le_u16(bytes, at) + 0x1_0000 * le_u16(bytes, at + 2)
}

/// The eight bytes at `at`, read as a little-endian number.
pub open spec fn le_u64(bytes: Seq<u8>, at: int) -> int {
    le_u32(bytes, at) + 0x1_0000_0000 * le_u32(bytes, at + 4)
}

/// The eight bytes at `at`, read as a little-endian number in two's complement.
pub open spec fn le_i64(bytes: Seq<u8>, at: int) -> int {
    if le_u64(bytes, at) >= 0x8000_0000_0000_0000 {
        le_u64(bytes, at) - 0x1_0000_0000_0000_0000
    } else {
        le_u64(bytes, at)
    }
}

/// Reads two bytes as a little-endian number.
pub fn read_u16(bytes: &[u8], at: usize) -> (value: u16)
    requires
        at + 2 <= bytes.len(),
    ensures
        value == le_u16(bytes@, at as int),
{
    let low: u16 = bytes[at] as u16;
    let high: u16 = bytes[at + 1] as u16;
    low + 0x100 * high
}

/// Reads four bytes as a little-endian number.
pub fn read_u32(bytes: &[u8], at: usize) -> (value: u32)
    requires
        at + 4 <= bytes.len(),
    ensures
        value == le_u32(bytes@, at as int),
{
    let low: u32 = read_u16(bytes, at) as u32;
    let high: u32 = read_u16(bytes, at + 2) as u32;
    low + 0x1_0000 * high
}

/// Reads eight bytes as a little-endian number.
pub fn read_u64(bytes: &[u8], at: usize) -> (value: u64)
    requires
        at + 8 <= bytes.len(),
    ensures
        value == le_u64(bytes@, at as int),
{
    let low: u64 = read_u32(bytes, at) as u64;
    let high: u64 = read_u32(bytes, at + 4) as u64;
    low + 0x1_0000_0000 * high
}

/// Reads eight bytes as a little-endian number in two's complement.
pub fn read_i64(bytes: &[u8], at: usize) -> (value: i64)
    requires
        at + 8 <= bytes.len(),
    ensures
        value == le_i64(bytes@, at as int),
{
    let raw: u64 = read_u64(bytes, at);
    if raw >= 0x8000_0000_0000_0000 {
        let low: i64 = (raw - 0x8000_0000_0000_0000) as i64;
        low + i64::MIN
    } else {
        raw as i64
    }
}

/// What one journal record says, with what is derived from it.
pub struct RecordView {
    pub file_name: Seq<char>,
    pub usn: int,
    pub file_reference: int,
    pub reason: u32,
    pub operation: OperationKind,
    pub file_type: FileType,
    pub extension: Seq<char>,
}

/// One decoded journal record.
#[derive(Debug)]
pub struct ChangeRecord {
    /// The name of the file, without its directory.
    pub file_name: String,
    /// The sequence number of the record.
    pub usn: i64,
    /// The identity of the file within its volume.
    pub file_reference: u64,
    /// The reasons of the change, one bit each.
    pub reason: u32,
    /// The operation kind of `reason`.
    pub operation: OperationKind,
    /// The category of `file_name`.
    pub file_type: FileType,
    /// The extension of `file_name`, as it is reported.
    pub extension: String,
}

impl View for ChangeRecord {
    type V = RecordView;

    open spec fn view(&self) -> RecordView {
        RecordView {
            file_name: self.file_name@,
            usn: self.usn as int,
            file_reference: self.file_reference as int,
            reason: self.reason,
            operation: self.operation,
            file_type: self.file_type,
            extension: self.extension@,
        }
    }
}

/// The views of a sequence of records.
pub open spec fn views(records: Seq<ChangeRecord>) -> Seq<RecordView> {
    Seq::new(records.len(), |i: int| records[i]@)
}

/// How many bytes of `bytes` count as received, where the caller says
/// `length`: never more than there are.
pub open spec fn received(bytes: Seq<u8>, length: int) -> int {
    if length <= bytes.len() {
        length
    } else {
        bytes.len() as int
    }
}

/// The length that the record at `at` declares for itself.
pub open spec fn record_length(bytes: Seq<u8>, at: int) -> int {
    le_u32(bytes, at)
}

/// Where the file name of the record at `at` starts.
pub open spec fn name_start(bytes: Seq<u8>, at: int) -> int {
    at + le_u16(bytes, at + AT_NAME_OFFSET as int)
}

/// The number of UTF-16 code units in the file name of the record at `at`.
pub open spec fn name_count(bytes: Seq<u8>, at: int) -> int {
    le_u16(bytes, at + AT_NAME_LENGTH as int) / 2
}

/// `count` little-endian UTF-16 code units, starting at `start`.
pub open spec fn name_units(bytes: Seq<u8>, start: int, count: int) -> Seq<u16> {
    Seq::new(count as nat, |k: int| le_u16(bytes, start + 2 * k) as u16)
}

/// Whether a record stands at `at` within the first `len` bytes: its header
/// fits, it declares a length other than zero, and neither that length nor
/// its file name reaches beyond `len`.
pub open spec fn record_is_whole(bytes: Seq<u8>, at: int, len: int) -> bool {
    &&& at + HEADER_BYTES as int <= len
    &&& record_length(bytes, at) > 0
    &&& at + record_length(bytes, at) <= len
    &&& name_start(bytes, at) + 2 * name_count(bytes, at) <= len
}

/// The record at `at`.
pub open spec fn record_at(bytes: Seq<u8>, at: int) -> RecordView {
    let name = decode_lossy(name_units(bytes, name_start(bytes, at), name_count(bytes, at)));
    let reason = le_u32(bytes, at + AT_REASON as int) as u32;
    RecordView {
        file_name: name,
        usn: le_i64(bytes, at + AT_USN as int),
        file_reference: le_u64(bytes, at + AT_FILE_REFERENCE as int),
        reason: reason,
        operation: operation_of(reason),
        file_type: file_type_of(name),
        extension: extension_text(name),
    }
}

/// The records from `at` on, within the first `len` bytes: the walk ends at
/// the first position where no whole record stands.
pub open spec fn records_from(bytes: Seq<u8>, at: int, len: int) -> Seq<RecordView>
    decreases len - at,
{
    if record_is_whole(bytes, at, len) {
        seq![record_at(bytes, at)] + records_from(bytes, at + record_length(bytes, at), len)
    } else {
        Seq::empty()
    }
}

/// The next cursor that a buffer reports: its first eight bytes, if that many
/// were received.
pub open spec fn decoded_cursor(bytes: Seq<u8>, length: int) -> Option<i64> {
    if received(bytes, length) >= CURSOR_BYTES as int {
        Some(le_i64(bytes, 0) as i64)
    } else {
        None
    }
}

/// The records that a buffer holds behind its cursor.
pub open spec fn decoded_records(bytes: Seq<u8>, length: int) -> Seq<RecordView> {
    records_from(bytes, CURSOR_BYTES as int, received(bytes, length))
}

/// What one buffer decodes to.
#[derive(Debug)]
pub struct Decoded {
    /// The position at which the next read starts; `None` where fewer than
    /// eight bytes were received.
    pub next_cursor: Option<i64>,
    /// The records of the buffer, in their order.
    pub records: Vec<ChangeRecord>,
}

/// Reads `count` UTF-16 code units that start at `start`.
fn read_units(bytes: &[u8], start: usize, count: usize) -> (units: Vec<u16>)
    requires
        start + 2 * count <= bytes.len(),
    ensures
        units@ == name_units(bytes@, start as int, count as int),
{
    let mut units: Vec<u16> = Vec::new();
    let mut k: usize = 0;
    while k < count
        invariant
            k <= count,
            start + 2 * count <= bytes.len(),
            units@ == name_units(bytes@, start as int, k as int),
        decreases count - k,
    {
        units.push(read_u16(bytes, start + 2 * k));
        assert(units@ =~= name_units(bytes@, start as int, k + 1));
        k = k + 1;
    }
    units
}

/// Decodes the record at `at`, if a whole record stands there within the
/// first `length` bytes of `buffer`, and says where the next one starts.
pub fn decode_at(buffer: &[u8], length: usize, at: usize) -> (step: Option<(ChangeRecord, usize)>)
    ensures
        step.is_some() == record_is_whole(buffer@, at as int, received(buffer@, length as int)),
        step.is_some() ==> step.unwrap().0@ == record_at(buffer@, at as int),
        step.is_some() ==> step.unwrap().1 == at + record_length(buffer@, at as int),
{
    let len: usize = if length <= buffer.len() {
        length
    } else {
        buffer.len()
    };
    if at > len || len - at < HEADER_BYTES {
        return None;
    }
    let declared: u32 = read_u32(buffer, at);
    if declared == 0 || declared as usize > len - at {
        return None;
    }
    let name_bytes: u16 = read_u16(buffer, at + AT_NAME_LENGTH);
    let name_offset: u16 = read_u16(buffer, at + AT_NAME_OFFSET);
    if name_offset as usize > len - at {
        return None;
    }
    let start: usize = at + name_offset as usize;
    let count: usize = (name_bytes / 2) as usize;
    if 2 * count > len - start {
        return None;
    }
    let units = read_units(buffer, start, count);
    let name = decode_utf16_lossy(units.as_slice());
    let reason: u32 = read_u32(buffer, at + AT_REASON);
    let record = ChangeRecord {
        file_name: string_of_chars(name.as_slice()),
        usn: read_i64(buffer, at + AT_USN),
        file_reference: read_u64(buffer, at + AT_FILE_REFERENCE),
        reason: reason,
        operation: classify_operation(reason),
        file_type: file_type_of_chars(name.as_slice()),
        extension: extension_of_chars(name.as_slice()),
    };
    Some((record, at + declared as usize))
}

/// Decodes what a journal read returned: `buffer` holds the bytes and
/// `length` says how many of them were received. The first eight bytes are
/// the next cursor, whatever follows. Behind them the records are walked one
/// by one; the walk ends, without an error, where the bytes left cannot hold a
/// header, where a record declares the length zero, or where a record or its
/// file name would reach beyond what was received.
pub fn decode(buffer: &[u8], length: usize) -> (out: Decoded)
    ensures
        out.next_cursor == decoded_cursor(buffer@, length as int),
        views(out.records@) == decoded_records(buffer@, length as int),
{
    let len: usize = if length <= buffer.len() {
        length
    } else {
        buffer.len()
    };
    let mut records: Vec<ChangeRecord> = Vec::new();
    if len < CURSOR_BYTES {
        assert(views(records@) =~= decoded_records(buffer@, length as int));
        return Decoded { next_cursor: None, records };
    }
    let cursor: i64 = read_i64(buffer, 0);
    let mut at: usize = CURSOR_BYTES;
    let mut more: bool = true;
    assert(views(records@) + records_from(buffer@, at as int, len as int) =~= decoded_records(
        buffer@,
        length as int,
    ));
    while more
        invariant
            len == received(buffer@, length as int),
            at <= len,
            more ==> decoded_records(buffer@, length as int) == views(records@) + records_from(
                buffer@,
                at as int,
                len as int,
            ),
            !more ==> decoded_records(buffer@, length as int) == views(records@),
        decreases len - at + (if more { 1int } else { 0int }),
    {
        let ghost before = views(records@);
        match decode_at(buffer, length, at) {
            Some((record, next)) => {
                let ghost view = record@;
                records.push(record);
                assert(views(records@) =~= before.push(view));
                assert(views(records@) + records_from(buffer@, next as int, len as int)
                    =~= before + records_from(buffer@, at as int, len as int));
                at = next;
            },
            None => {
                assert(before + records_from(buffer@, at as int, len as int) =~= before);
                more = false;
            },
        }
    }
    Decoded { next_cursor: Some(cursor), records }
}

/// Whether `short` is what `long` starts with.
pub open spec fn is_prefix_of(short: Seq<RecordView>, long: Seq<RecordView>) -> bool {
    short.len() <= long.len() && short == long.take(short.len() as int)
}

/// The next cursor is the first eight bytes and nothing else: two buffers of
/// at least eight received bytes that agree on those report the same cursor,
/// whatever records follow.
pub proof fn lemma_cursor_is_first_eight_bytes(a: Seq<u8>, a_length: int, b: Seq<u8>, b_length: int)
    requires
        received(a, a_length) >= CURSOR_BYTES,
        received(b, b_length) >= CURSOR_BYTES,
        a.take(CURSOR_BYTES as int) == b.take(CURSOR_BYTES as int),
    ensures
        decoded_cursor(a, a_length) == Some(le_i64(a, 0) as i64),
        decoded_cursor(a, a_length) == decoded_cursor(b, b_length),
{
    assert forall|i: int| 0 <= i < 8 implies a[i] == b[i] by {
        assert(a.take(8)[i] == a[i]);
        assert(b.take(8)[i] == b[i]);
    }
}

/// A record that declares the length zero ends the walk: nothing is decoded
/// from its position on.
pub proof fn lemma_zero_length_ends_walk(bytes: Seq<u8>, at: int, len: int)
    requires
        record_length(bytes, at) == 0,
    ensures
        records_from(bytes, at, len) == Seq::<RecordView>::empty(),
{
}

/// Cutting a buffer short, even in the middle of a record, only cuts the
/// decoded records short: what is decoded from the first `short` bytes is the
/// start of what is decoded from the first `long` bytes, with no record
/// changed, added or repeated.
pub proof fn lemma_truncation_gives_prefix(bytes: Seq<u8>, at: int, short: int, long: int)
    requires
        short <= long,
    ensures
        is_prefix_of(records_from(bytes, at, short), records_from(bytes, at, long)),
    decreases short - at,
{
    let cut = records_from(bytes, at, short);
    let full = records_from(bytes, at, long);
    if record_is_whole(bytes, at, short) {
        let next = at + record_length(bytes, at);
        lemma_truncation_gives_prefix(bytes, next, short, long);
        let cut_rest = records_from(bytes, next, short);
        let full_rest = records_from(bytes, next, long);
        assert(record_is_whole(bytes, at, long));
        assert(cut =~= seq![record_at(bytes, at)] + cut_rest);
        assert(full =~= seq![record_at(bytes, at)] + full_rest);
        assert(cut_rest == full_rest.take(cut_rest.len() as int));
        assert forall|i: int| 0 <= i < cut.len() implies cut[i] == full.take(cut.len() as int)[i] by {
            if i > 0 {
                assert(cut[i] == cut_rest[i - 1]);
                assert(cut_rest[i - 1] == full_rest.take(cut_rest.len() as int)[i - 1]);
                assert(full[i] == full_rest[i - 1]);
            }
        }
        assert(cut =~= full.take(cut.len() as int));
    } else {
        assert(cut =~= full.take(0));
    }
}

/// A header within the first `len` bytes reads the same from two buffers that
/// agree on those bytes.
proof fn lemma_same_bytes_same_fields(a: Seq<u8>, b: Seq<u8>, at: int, len: int)
    requires
        0 <= at,
        at + HEADER_BYTES as int <= len <= a.len(),
        len <= b.len(),
        a.take(len) == b.take(len),
    ensures
        record_length(a, at) == record_length(b, at),
        name_start(a, at) == name_start(b, at),
        name_count(a, at) == name_count(b, at),
        le_u32(a, at + AT_REASON as int) == le_u32(b, at + AT_REASON as int),
        le_i64(a, at + AT_USN as int) == le_i64(b, at + AT_USN as int),
        le_u64(a, at + AT_FILE_REFERENCE as int) == le_u64(b, at + AT_FILE_REFERENCE as int),
{
    assert forall|i: int| 0 <= i < len implies a[i] == b[i] by {
        assert(a.take(len)[i] == a[i]);
        assert(b.take(len)[i] == b[i]);
    }
}

/// Decoding is a function of the bytes received and of nothing else: two
/// buffers that agree on their first `len` bytes decode to the same records,
/// whatever stands behind those bytes.
pub proof fn lemma_decoding_reads_received_bytes_only(a: Seq<u8>, b: Seq<u8>, at: int, len: int)
    requires
        0 <= at,
        len <= a.len(),
        len <= b.len(),
        a.take(len) == b.take(len),
    ensures
        records_from(a, at, len) == records_from(b, at, len),
    decreases len - at,
{
    if at + HEADER_BYTES as int <= len {
        lemma_same_bytes_same_fields(a, b, at, len);
        if record_is_whole(a, at, len) {
            let start = name_start(a, at);
            let count = name_count(a, at);
            assert forall|k: int| 0 <= k < count implies #[trigger] name_units(a, start, count)[k]
                == name_units(b, start, count)[k] by {
                assert(a.take(len)[start + 2 * k] == a[start + 2 * k]);
                assert(b.take(len)[start + 2 * k] == b[start + 2 * k]);
                assert(a.take(len)[start + 2 * k + 1] == a[start + 2 * k + 1]);
                assert(b.take(len)[start + 2 * k + 1] == b[start + 2 * k + 1]);
            }
            assert(name_units(a, start, count) =~= name_units(b, start, count));
            lemma_decoding_reads_received_bytes_only(a, b, at + record_length(a, at), len);
        }
    }
}

/// Decoding one buffer twice gives the same cursor and the same records, and
/// so does decoding any other buffer of which the same bytes were received.
pub proof fn lemma_decoding_is_repeatable(a: Seq<u8>, b: Seq<u8>, length: int)
    requires
        0 <= length <= a.len(),
        length <= b.len(),
        a.take(length) == b.take(length),
    ensures
        decoded_cursor(a, length) == decoded_cursor(b, length),
        decoded_records(a, length) == decoded_records(b, length),
{
    lemma_decoding_reads_received_bytes_only(a, b, CURSOR_BYTES as int, length);
    if length >= 8 {
        assert forall|i: int| 0 <= i < 8 implies a[i] == b[i] by {
            assert(a.take(length)[i] == a[i]);
            assert(b.take(length)[i] == b[i]);
        }
    }
}

/// A buffer cut short at any byte decodes to the start of what the whole
/// buffer decodes to: the record that the cut falls into is left out, and so
/// is every record behind it.
pub proof fn lemma_cut_buffer_decodes_to_prefix(bytes: Seq<u8>, keep: int)
    requires
        0 <= keep <= bytes.len(),
    ensures
        is_prefix_of(
            decoded_records(bytes.take(keep), keep),
            decoded_records(bytes, bytes.len() as int),
        ),
        is_prefix_of(decoded_records(bytes, keep), decoded_records(bytes, bytes.len() as int)),
        decoded_records(bytes.take(keep), keep) == decoded_records(bytes, keep),
{
    let cut = bytes.take(keep);
    assert(cut.take(keep) =~= bytes.take(keep));
    lemma_decoding_reads_received_bytes_only(cut, bytes, CURSOR_BYTES as int, keep);
    lemma_truncation_gives_prefix(bytes, CURSOR_BYTES as int, keep, bytes.len() as int);
}

/// Where the records from `at` on start, within the first `len` bytes.
pub open spec fn record_positions(bytes: Seq<u8>, at: int, len: int) -> Seq<int>
    decreases len - at,
{
    if record_is_whole(bytes, at, len) {
        seq![at] + record_positions(bytes, at + record_length(bytes, at), len)
    } else {
        Seq::empty()
    }
}

/// No record is decoded in part or twice: each decoded record is the record
/// at a position of its own, it lies wholly within the bytes received, and
/// it ends at or before the position of the record that follows it.
pub proof fn lemma_records_are_whole_and_apart(bytes: Seq<u8>, at: int, len: int)
    ensures
        record_positions(bytes, at, len).len() == records_from(bytes, at, len).len(),
        forall|k: int|
            0 <= k < record_positions(bytes, at, len).len() ==> {
                let position = #[trigger] record_positions(bytes, at, len)[k];
                &&& at <= position
                &&& record_is_whole(bytes, position, len)
                &&& records_from(bytes, at, len)[k] == record_at(bytes, position)
            },
        forall|j: int, k: int|
            0 <= j < k < record_positions(bytes, at, len).len() ==> #[trigger] record_positions(
                bytes,
                at,
                len,
            )[j] + record_length(bytes, record_positions(bytes, at, len)[j])
                <= #[trigger] record_positions(bytes, at, len)[k],
    decreases len - at,
{
    if record_is_whole(bytes, at, len) {
        let next = at + record_length(bytes, at);
        lemma_records_are_whole_and_apart(bytes, next, len);
        let positions = record_positions(bytes, at, len);
        let rest = record_positions(bytes, next, len);
        let records = records_from(bytes, at, len);
        let records_rest = records_from(bytes, next, len);
        assert(positions =~= seq![at] + rest);
        assert(records =~= seq![record_at(bytes, at)] + records_rest);
        assert forall|k: int| 0 <= k < positions.len() implies {
            let position = #[trigger] positions[k];
            &&& at <= position
            &&& record_is_whole(bytes, position, len)
            &&& records[k] == record_at(bytes, position)
        } by {
            if k > 0 {
                assert(positions[k] == rest[k - 1]);
                assert(records[k] == records_rest[k - 1]);
            }
        }
        assert forall|j: int, k: int| 0 <= j < k < positions.len() implies #[trigger] positions[j]
            + record_length(bytes, positions[j]) <= #[trigger] positions[k] by {
            assert(positions[k] == rest[k - 1]);
            if j > 0 {
                assert(positions[j] == rest[j - 1]);
            }
        }
    }
}

/// Whether the record at `at` keeps to the length that it declares: that
/// length holds at least a header, and the file name ends within it.
pub open spec fn record_keeps_to_length(bytes: Seq<u8>, at: int) -> bool {
    &&& record_length(bytes, at) >= HEADER_BYTES
    &&& name_start(bytes, at) + 2 * name_count(bytes, at) <= at + record_length(bytes, at)
}

/// Whether `count` records stand in a row from `at`, each keeping to its
/// declared length and ending within the first `len` bytes.
pub open spec fn records_in_row(bytes: Seq<u8>, at: int, count: nat, len: int) -> bool
    decreases count,
{
    count == 0 || {
        &&& record_keeps_to_length(bytes, at)
        &&& at + record_length(bytes, at) <= len
        &&& records_in_row(bytes, at + record_length(bytes, at), (count - 1) as nat, len)
    }
}

/// Where the record of index `k` starts in a row of records from `at`; with
/// `k` the number of records in the row, where the row ends.
pub open spec fn position_in_row(bytes: Seq<u8>, at: int, k: nat) -> int
    decreases k,
{
    if k == 0 {
        at
    } else {
        position_in_row(bytes, at + record_length(bytes, at), (k - 1) as nat)
    }
}

/// Where `count` complete records stand in a row and the bytes received end
/// inside the record that follows them, before its header is complete or
/// before the length that it declares, exactly the `count` complete records
/// are decoded, each once and in their order, and nothing is made of the
/// record that was cut.
pub proof fn lemma_cut_record_is_left_out(bytes: Seq<u8>, at: int, count: nat, len: int)
    requires
        records_in_row(bytes, at, count, len),
        len < position_in_row(bytes, at, count) + HEADER_BYTES || len < position_in_row(
            bytes,
            at,
            count,
        ) + record_length(bytes, position_in_row(bytes, at, count)),
    ensures
        records_from(bytes, at, len).len() == count,
        forall|k: nat|
            k < count ==> #[trigger] records_from(bytes, at, len)[k as int] == record_at(
                bytes,
                position_in_row(bytes, at, k),
            ),
    decreases count,
{
    if count > 0 {
        let next = at + record_length(bytes, at);
        let rest = (count - 1) as nat;
        assert(record_is_whole(bytes, at, len));
        assert(position_in_row(bytes, at, count) == position_in_row(bytes, next, rest));
        lemma_cut_record_is_left_out(bytes, next, rest, len);
        let records = records_from(bytes, at, len);
        let records_rest = records_from(bytes, next, len);
        assert(records =~= seq![record_at(bytes, at)] + records_rest);
        assert forall|k: nat| k < count implies #[trigger] records[k as int] == record_at(
            bytes,
            position_in_row(bytes, at, k),
        ) by {
            if k > 0 {
                let before = (k - 1) as nat;
                assert(records[k as int] == records_rest[before as int]);
                assert(position_in_row(bytes, at, k) == position_in_row(bytes, next, before));
            }
        }
    }
}

/// A buffer that holds a cursor, `count` complete records and the cut start
/// of one more decodes to that cursor and to exactly those `count` records.
pub proof fn lemma_cut_buffer_keeps_complete_records(bytes: Seq<u8>, count: nat)
    requires
        bytes.len() >= CURSOR_BYTES,
        records_in_row(bytes, CURSOR_BYTES as int, count, bytes.len() as int),
        bytes.len() < position_in_row(bytes, CURSOR_BYTES as int, count) + HEADER_BYTES
            || bytes.len() < position_in_row(bytes, CURSOR_BYTES as int, count) + record_length(
            bytes,
            position_in_row(bytes, CURSOR_BYTES as int, count),
        ),
    ensures
        decoded_cursor(bytes, bytes.len() as int) == Some(le_i64(bytes, 0) as i64),
        decoded_records(bytes, bytes.len() as int).len() == count,
        forall|k: nat|
            k < count ==> #[trigger] decoded_records(bytes, bytes.len() as int)[k as int]
                == record_at(bytes, position_in_row(bytes, CURSOR_BYTES as int, k)),
{
    lemma_cut_record_is_left_out(bytes, CURSOR_BYTES as int, count, bytes.len() as int);
}

} // verus!
