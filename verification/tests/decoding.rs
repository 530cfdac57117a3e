use usn_monitor::file_kind::FileType;
use usn_monitor::reason::{
    OperationKind, REASON_DATA_EXTEND, REASON_DATA_OVERWRITE, REASON_FILE_CREATE,
    REASON_FILE_DELETE,
};
use usn_monitor::record::{decode, decode_at, read_i64, read_u16, read_u32, read_u64};

fn record_with_units(reason: u32, usn: i64, file_reference: u64, units: &[u16]) -> Vec<u8> {
    let name_bytes = units.len() * 2;
    let total = (60 + name_bytes + 7) / 8 * 8;
    let mut bytes = vec![0u8; total];
    bytes[0..4].copy_from_slice(&(total as u32).to_le_bytes());
    bytes[4..6].copy_from_slice(&2u16.to_le_bytes());
    bytes[8..16].copy_from_slice(&file_reference.to_le_bytes());
    bytes[24..32].copy_from_slice(&usn.to_le_bytes());
    bytes[40..44].copy_from_slice(&reason.to_le_bytes());
    bytes[56..58].copy_from_slice(&(name_bytes as u16).to_le_bytes());
    bytes[58..60].copy_from_slice(&60u16.to_le_bytes());
    for (k, unit) in units.iter().enumerate() {
        bytes[60 + 2 * k..62 + 2 * k].copy_from_slice(&unit.to_le_bytes());
    }
    bytes
}

fn record(reason: u32, usn: i64, file_reference: u64, name: &str) -> Vec<u8> {
    let units: Vec<u16> = name.encode_utf16().collect();
    record_with_units(reason, usn, file_reference, &units)
}

fn buffer(next_cursor: i64, records: &[Vec<u8>]) -> Vec<u8> {
    let mut bytes = next_cursor.to_le_bytes().to_vec();
    for r in records {
        bytes.extend_from_slice(r);
    }
    bytes
}

#[test]
fn little_endian_readers_give_exact_values() {
    let bytes = [0x01u8, 0x02, 0x03, 0x04, 0x05, 0x06, 0x07, 0x08, 0xFF];
    assert_eq!(read_u16(&bytes, 0), 0x0201);
    assert_eq!(read_u16(&bytes, 7), 0xFF08);
    assert_eq!(read_u32(&bytes, 1), 0x0504_0302);
    assert_eq!(read_u64(&bytes, 0), 0x0807_0605_0403_0201);
    assert_eq!(read_i64(&bytes, 1), i64::from_le_bytes([2, 3, 4, 5, 6, 7, 8, 0xFF]));
    assert_eq!(read_i64(&[0xFF; 8], 0), -1);
    assert_eq!(read_i64(&[0, 0, 0, 0, 0, 0, 0, 0x80], 0), i64::MIN);
    assert_eq!(read_i64(&[0xFF, 0xFF, 0xFF, 0xFF, 0xFF, 0xFF, 0xFF, 0x7F], 0), i64::MAX);
}

#[test]
fn cursor_is_taken_from_a_buffer_without_records() {
    let bytes = buffer(0x0102_0304_0506_0708, &[]);
    let out = decode(&bytes, bytes.len());
    assert_eq!(out.next_cursor, Some(0x0102_0304_0506_0708));
    assert!(out.records.is_empty());
}

#[test]
fn cursor_is_independent_of_what_follows() {
    let plain = buffer(4242, &[record(REASON_FILE_CREATE, 1, 2, "a.txt")]);
    let mut garbage = 4242i64.to_le_bytes().to_vec();
    garbage.extend_from_slice(&[0xAB; 100]);
    assert_eq!(decode(&plain, plain.len()).next_cursor, Some(4242));
    assert_eq!(decode(&garbage, garbage.len()).next_cursor, Some(4242));
    assert_eq!(decode(&garbage, 8).next_cursor, Some(4242));
}

#[test]
fn negative_cursor_is_read_in_twos_complement() {
    let bytes = buffer(-7, &[]);
    assert_eq!(decode(&bytes, 8).next_cursor, Some(-7));
}

#[test]
fn fewer_than_eight_bytes_report_no_cursor() {
    let bytes = buffer(99, &[]);
    for length in 0..8 {
        let out = decode(&bytes, length);
        assert_eq!(out.next_cursor, None);
        assert!(out.records.is_empty());
    }
    let out = decode(&[], 64);
    assert_eq!(out.next_cursor, None);
    assert!(out.records.is_empty());
}

#[test]
fn length_beyond_the_buffer_counts_as_the_buffer() {
    let bytes = buffer(5, &[record(REASON_FILE_CREATE, 10, 20, "a.rs")]);
    let out = decode(&bytes, bytes.len() + 1000);
    assert_eq!(out.next_cursor, Some(5));
    assert_eq!(out.records.len(), 1);
}

#[test]
fn created_text_file_is_a_document() {
    let bytes = buffer(1000, &[record(REASON_FILE_CREATE, 900, 0x0001_0000_0000_002A, "notes.txt")]);
    let out = decode(&bytes, bytes.len());
    assert_eq!(out.next_cursor, Some(1000));
    assert_eq!(out.records.len(), 1);
    let r = &out.records[0];
    assert_eq!(r.file_name, "notes.txt");
    assert_eq!(r.operation, OperationKind::Create);
    assert_eq!(r.file_type, FileType::Document);
    assert_eq!(r.extension, ".txt");
    assert_eq!(r.usn, 900);
    assert_eq!(r.file_reference, 0x0001_0000_0000_002A);
    assert_eq!(r.reason, REASON_FILE_CREATE);
}

#[test]
fn overwritten_video_is_a_modification() {
    let bytes = buffer(7, &[record(REASON_DATA_OVERWRITE, 3, 4, "video.mp4")]);
    let out = decode(&bytes, bytes.len());
    assert_eq!(out.records.len(), 1);
    let r = &out.records[0];
    assert_eq!(r.file_name, "video.mp4");
    assert_eq!(r.operation, OperationKind::Modify);
    assert_eq!(r.file_type, FileType::Video);
    assert_eq!(r.extension, ".mp4");
}

#[test]
fn records_come_out_in_order() {
    let bytes = buffer(
        300,
        &[
            record(REASON_FILE_CREATE, 100, 1, "one.txt"),
            record(REASON_FILE_DELETE, 200, 2, "two.PNG"),
            record(REASON_DATA_EXTEND, 250, 3, "three"),
        ],
    );
    let out = decode(&bytes, bytes.len());
    assert_eq!(out.records.len(), 3);
    assert_eq!(out.records[0].file_name, "one.txt");
    assert_eq!(out.records[1].file_name, "two.PNG");
    assert_eq!(out.records[1].operation, OperationKind::Delete);
    assert_eq!(out.records[1].file_type, FileType::Image);
    assert_eq!(out.records[1].extension, ".PNG");
    assert_eq!(out.records[2].file_name, "three");
    assert_eq!(out.records[2].operation, OperationKind::Modify);
    assert_eq!(out.records[2].file_type, FileType::NoExtension);
    assert_eq!(out.records[2].extension, "[no extension]");
    assert_eq!(out.records[0].usn, 100);
    assert_eq!(out.records[1].usn, 200);
    assert_eq!(out.records[2].usn, 250);
}

#[test]
fn truncation_mid_record_drops_only_the_cut_record() {
    let first = record(REASON_FILE_CREATE, 100, 1, "one.txt");
    let second = record(REASON_FILE_DELETE, 200, 2, "second.docx");
    let bytes = buffer(300, &[first.clone(), second.clone()]);
    let whole = decode(&bytes, bytes.len());
    assert_eq!(whole.records.len(), 2);
    let first_end = 8 + first.len();
    for length in 8..bytes.len() {
        let out = decode(&bytes, length);
        assert_eq!(out.next_cursor, Some(300));
        let expected = if length < first_end { 0 } else { 1 };
        assert_eq!(out.records.len(), expected, "length {}", length);
        if expected == 1 {
            assert_eq!(out.records[0].file_name, "one.txt");
            assert_eq!(out.records[0].usn, 100);
        }
    }
    let cut = bytes[..bytes.len() - 3].to_vec();
    let out = decode(&cut, cut.len());
    assert_eq!(out.records.len(), 1);
    assert_eq!(out.records[0].file_name, "one.txt");
}

#[test]
fn zero_length_record_ends_the_walk() {
    let mut zero = record(REASON_FILE_CREATE, 1, 1, "zero.txt");
    zero[0..4].copy_from_slice(&0u32.to_le_bytes());
    let bytes = buffer(
        11,
        &[record(REASON_FILE_CREATE, 5, 6, "kept.txt"), zero, record(REASON_FILE_CREATE, 7, 8, "lost.txt")],
    );
    let out = decode(&bytes, bytes.len());
    assert_eq!(out.next_cursor, Some(11));
    assert_eq!(out.records.len(), 1);
    assert_eq!(out.records[0].file_name, "kept.txt");
    let only_zero = buffer(12, &[vec![0u8; 64]]);
    let out = decode(&only_zero, only_zero.len());
    assert_eq!(out.next_cursor, Some(12));
    assert!(out.records.is_empty());
}

#[test]
fn record_longer_than_the_buffer_is_not_decoded() {
    let mut long = record(REASON_FILE_CREATE, 1, 1, "long.txt");
    let declared = long.len() as u32 + 8;
    long[0..4].copy_from_slice(&declared.to_le_bytes());
    let bytes = buffer(1, &[long]);
    assert!(decode(&bytes, bytes.len()).records.is_empty());
}

#[test]
fn file_name_beyond_the_buffer_is_not_decoded() {
    let mut wide = record(REASON_FILE_CREATE, 1, 1, "wide.txt");
    wide[56..58].copy_from_slice(&400u16.to_le_bytes());
    let bytes = buffer(1, &[wide]);
    assert!(decode(&bytes, bytes.len()).records.is_empty());
    let mut far = record(REASON_FILE_CREATE, 1, 1, "far.txt");
    far[58..60].copy_from_slice(&0xFFF0u16.to_le_bytes());
    let bytes = buffer(1, &[far]);
    assert!(decode(&bytes, bytes.len()).records.is_empty());
}

#[test]
fn header_that_does_not_fit_is_not_decoded() {
    let mut bytes = buffer(1, &[]);
    bytes.extend_from_slice(&[8, 0, 0, 0, 0, 0, 0, 0]);
    let out = decode(&bytes, bytes.len());
    assert_eq!(out.next_cursor, Some(1));
    assert!(out.records.is_empty());
}

#[test]
fn odd_name_length_drops_the_half_unit() {
    let mut odd = record(REASON_FILE_CREATE, 1, 1, "ab.c");
    odd[56..58].copy_from_slice(&7u16.to_le_bytes());
    let bytes = buffer(1, &[odd]);
    let out = decode(&bytes, bytes.len());
    assert_eq!(out.records.len(), 1);
    assert_eq!(out.records[0].file_name, "ab.");
    assert_eq!(out.records[0].extension, ".");
    assert_eq!(out.records[0].file_type, FileType::NoExtension);
}

#[test]
fn decoding_twice_gives_the_same() {
    let bytes = buffer(
        77,
        &[record(REASON_FILE_CREATE | REASON_FILE_DELETE, 10, 11, "Report.PDF"), record(0x8000_0000, 12, 13, "x")],
    );
    let a = decode(&bytes, bytes.len());
    let b = decode(&bytes, bytes.len());
    assert_eq!(a.next_cursor, b.next_cursor);
    assert_eq!(a.records.len(), 2);
    assert_eq!(b.records.len(), 2);
    for k in 0..2 {
        assert_eq!(a.records[k].file_name, b.records[k].file_name);
        assert_eq!(a.records[k].usn, b.records[k].usn);
        assert_eq!(a.records[k].file_reference, b.records[k].file_reference);
        assert_eq!(a.records[k].reason, b.records[k].reason);
        assert_eq!(a.records[k].operation, b.records[k].operation);
        assert_eq!(a.records[k].file_type, b.records[k].file_type);
        assert_eq!(a.records[k].extension, b.records[k].extension);
    }
    assert_eq!(a.records[0].operation, OperationKind::Create);
    assert_eq!(a.records[0].file_type, FileType::Document);
    assert_eq!(a.records[1].operation, OperationKind::Change);
}

#[test]
fn bytes_behind_the_received_length_do_not_matter() {
    let first = record(REASON_FILE_CREATE, 100, 1, "one.txt");
    let mut a = buffer(300, &[first.clone()]);
    let mut b = a.clone();
    let length = a.len();
    a.extend_from_slice(&record(REASON_FILE_DELETE, 1, 1, "stale.txt"));
    b.extend_from_slice(&[0x5A; 90]);
    let da = decode(&a, length);
    let db = decode(&b, length);
    assert_eq!(da.records.len(), 1);
    assert_eq!(db.records.len(), 1);
    assert_eq!(da.records[0].file_name, db.records[0].file_name);
}

#[test]
fn stepping_gives_each_record_and_the_next_position() {
    let first = record(REASON_FILE_CREATE, 100, 1, "one.txt");
    let second = record(REASON_FILE_DELETE, 200, 2, "two.txt");
    let bytes = buffer(300, &[first.clone(), second]);
    let (r, next) = decode_at(&bytes, bytes.len(), 8).unwrap();
    assert_eq!(r.file_name, "one.txt");
    assert_eq!(next, 8 + first.len());
    let (r, next) = decode_at(&bytes, bytes.len(), next).unwrap();
    assert_eq!(r.file_name, "two.txt");
    assert_eq!(next, bytes.len());
    assert!(decode_at(&bytes, bytes.len(), next).is_none());
    assert!(decode_at(&bytes, bytes.len(), bytes.len() + 5).is_none());
    assert!(decode_at(&bytes, 8 + first.len() - 1, 8).is_none());
}

#[test]
fn unpaired_surrogates_are_replaced() {
    let units = [0x0061u16, 0xD800, 0x0062, 0xDC00, 0x002E, 0x0063];
    let bytes = buffer(1, &[record_with_units(REASON_FILE_CREATE, 1, 1, &units)]);
    let out = decode(&bytes, bytes.len());
    assert_eq!(out.records.len(), 1);
    assert_eq!(out.records[0].file_name, "a\u{FFFD}b\u{FFFD}.c");
    assert_eq!(out.records[0].extension, ".c");
    assert_eq!(out.records[0].file_type, FileType::Code);
}

#[test]
fn surrogate_pairs_and_other_scripts_are_kept() {
    let name = "r\u{e9}sum\u{e9}\u{1F600}\u{6587}.docx";
    let bytes = buffer(1, &[record(REASON_FILE_CREATE, 1, 1, name)]);
    let out = decode(&bytes, bytes.len());
    assert_eq!(out.records.len(), 1);
    assert_eq!(out.records[0].file_name, name);
    assert_eq!(out.records[0].file_type, FileType::Document);
    let lone_lead_at_end = [0x0078u16, 0xDBFF];
    let bytes = buffer(1, &[record_with_units(0, 1, 1, &lone_lead_at_end)]);
    let out = decode(&bytes, bytes.len());
    assert_eq!(out.records[0].file_name, "x\u{FFFD}");
}

#[test]
fn cut_buffer_keeps_exactly_the_complete_records() {
    let names = ["one.txt", "two.PNG", "three.tar.gz"];
    let extra = record(REASON_FILE_DELETE, 999, 9, "cut-short.docx");
    for complete in 0..=names.len() {
        let mut whole: Vec<Vec<u8>> = Vec::new();
        for (k, name) in names.iter().take(complete).enumerate() {
            whole.push(record(REASON_FILE_CREATE, 100 + k as i64, k as u64, name));
        }
        let head = buffer(-31, &whole);
        for kept in 1..extra.len() {
            let mut bytes = head.clone();
            bytes.extend_from_slice(&extra[..kept]);
            let out = decode(&bytes, bytes.len());
            assert_eq!(out.next_cursor, Some(-31));
            assert_eq!(out.records.len(), complete, "{} complete, {} bytes more", complete, kept);
            for k in 0..complete {
                assert_eq!(out.records[k].file_name, names[k]);
                assert_eq!(out.records[k].usn, 100 + k as i64);
                assert_eq!(out.records[k].file_reference, k as u64);
            }
        }
    }
}
