use usn_monitor::file_kind::FileType;
use usn_monitor::reason::OperationKind;
use usn_monitor::record::ChangeRecord;
use usn_monitor::sink::{format_event, format_file_reference, format_timestamp, is_system_or_temp_file};
use usn_monitor::volume::{
    device_path, is_eligible, is_ntfs, present_letters, root_path, select_volumes,
    type_is_eligible, DriveProbe, Volume, DRIVE_FIXED, DRIVE_REMOVABLE,
};

fn units(text: &str) -> Vec<u16> {
    text.encode_utf16().collect()
}

fn padded(text: &str, width: usize) -> Vec<u16> {
    let mut v = units(text);
    while v.len() < width {
        v.push(0);
    }
    v
}

#[test]
fn letters_follow_the_bits_of_the_mask() {
    assert_eq!(present_letters(0), Vec::<u8>::new());
    assert_eq!(present_letters(0b1), vec![b'A']);
    assert_eq!(present_letters(0b101), vec![b'A', b'C']);
    assert_eq!(present_letters(0b1100), vec![b'C', b'D']);
    assert_eq!(present_letters(1 << 25), vec![b'Z']);
    assert_eq!(present_letters(1 << 26), Vec::<u8>::new());
    assert_eq!(present_letters(0xFC00_0000), Vec::<u8>::new());
    let all = present_letters(0xFFFF_FFFF);
    assert_eq!(all, (b'A'..=b'Z').collect::<Vec<u8>>());
}

#[test]
fn fixed_and_removable_drives_are_eligible() {
    assert_eq!(DRIVE_REMOVABLE, 2);
    assert_eq!(DRIVE_FIXED, 3);
    assert!(type_is_eligible(2));
    assert!(type_is_eligible(3));
    for other in [0u32, 1, 4, 5, 6, 7, u32::MAX] {
        assert!(!type_is_eligible(other));
    }
}

#[test]
fn filesystem_name_is_matched_after_trimming_padding() {
    assert!(is_ntfs(&units("NTFS")));
    assert!(is_ntfs(&padded("NTFS", 32)));
    assert!(is_ntfs(&[0, 0, 0x4E, 0x54, 0x46, 0x53, 0]));
    assert!(!is_ntfs(&padded("FAT32", 32)));
    assert!(!is_ntfs(&padded("exFAT", 32)));
    assert!(!is_ntfs(&padded("ntfs", 32)));
    assert!(!is_ntfs(&padded("NTFS2", 32)));
    assert!(!is_ntfs(&padded("NTF", 32)));
    assert!(!is_ntfs(&padded("", 32)));
    assert!(!is_ntfs(&[]));
    assert!(!is_ntfs(&units(" NTFS")));
    assert!(!is_ntfs(&[0x4E, 0x54, 0x46, 0x53, 0, 0x41]));
    assert!(!is_ntfs(&[0x4E, 0, 0x54, 0x46, 0x53]));
    assert!(!is_ntfs(&[0x4E, 0x54, 0x46]));
}

#[test]
fn eligibility_needs_both_type_and_filesystem() {
    assert!(is_eligible(DRIVE_FIXED, &padded("NTFS", 32)));
    assert!(is_eligible(DRIVE_REMOVABLE, &padded("NTFS", 32)));
    assert!(!is_eligible(5, &padded("NTFS", 32)));
    assert!(!is_eligible(DRIVE_FIXED, &padded("FAT32", 32)));
    assert!(!is_eligible(4, &padded("FAT32", 32)));
}

#[test]
fn paths_of_a_drive() {
    assert_eq!(device_path(b'C'), "\\\\.\\C:");
    assert_eq!(device_path(b'Z'), r"\\.\Z:");
    assert_eq!(root_path(b'C'), vec![0x43u16, 0x3A, 0x5C, 0]);
    assert_eq!(root_path(b'A'), units("A:\\\0"));
    let volume = Volume::new(b'D');
    assert_eq!(volume.letter, b'D');
    assert_eq!(volume.device_path, r"\\.\D:");
}

#[test]
fn timestamp_has_fixed_width_fields() {
    assert_eq!(format_timestamp(0, 0), "00:00:00.000");
    assert_eq!(format_timestamp(3661, 5), "01:01:01.005");
    assert_eq!(format_timestamp(86399, 999), "23:59:59.999");
    assert_eq!(format_timestamp(86400, 0), "00:00:00.000");
    assert_eq!(format_timestamp(1_700_000_000, 42), "22:13:20.042");
    assert_eq!(format_timestamp(59, 1234), "00:00:59.1234");
}

#[test]
fn file_reference_is_sixteen_upper_case_hex_digits() {
    assert_eq!(format_file_reference(0), "0000000000000000");
    assert_eq!(format_file_reference(0x2A), "000000000000002A");
    assert_eq!(format_file_reference(0x0001_0000_0000_ABCD), "000100000000ABCD");
    assert_eq!(format_file_reference(u64::MAX), "FFFFFFFFFFFFFFFF");
    assert_eq!(format_file_reference(0x0123_4567_89AB_CDEF), "0123456789ABCDEF");
}

#[test]
fn event_line_has_every_field() {
    let record = ChangeRecord {
        file_name: String::from("notes.txt"),
        usn: 900,
        file_reference: 0x0001_0000_0000_002A,
        reason: 0x100,
        operation: OperationKind::Create,
        file_type: FileType::Document,
        extension: String::from(".txt"),
    };
    assert_eq!(
        format_event("12:34:56.789", &record),
        "[12:34:56.789] CREATE | File: notes.txt | Type: Document | Ext: .txt | USN: 900 | FileRef: 000100000000002A"
    );
    let odd = ChangeRecord {
        file_name: String::from("dir"),
        usn: i64::MIN,
        file_reference: u64::MAX,
        reason: 0,
        operation: OperationKind::Change,
        file_type: FileType::NoExtension,
        extension: String::from("[no extension]"),
    };
    assert_eq!(
        format_event("", &odd),
        "[] CHANGE | File: dir | Type: Folder/No Extension | Ext: [no extension] | USN: -9223372036854775808 | FileRef: FFFFFFFFFFFFFFFF"
    );
    let big = ChangeRecord { usn: i64::MAX, ..odd };
    assert!(format_event("t", &big).contains("| USN: 9223372036854775807 |"));
    let minus = ChangeRecord { usn: -10, ..big };
    assert!(format_event("t", &minus).contains("| USN: -10 |"));
}

#[test]
fn no_file_is_excluded() {
    assert!(!is_system_or_temp_file("notes.txt"));
    assert!(!is_system_or_temp_file("~$draft.docx"));
    assert!(!is_system_or_temp_file("thumbs.db"));
    assert!(!is_system_or_temp_file("pagefile.sys"));
    assert!(!is_system_or_temp_file(""));
}

#[test]
fn eligible_drives_are_selected_in_order() {
    let probes = vec![
        DriveProbe { letter: b'A', drive_type: DRIVE_REMOVABLE, fs_name: Some(padded("FAT", 32)) },
        DriveProbe { letter: b'C', drive_type: DRIVE_FIXED, fs_name: Some(padded("NTFS", 32)) },
        DriveProbe { letter: b'D', drive_type: 5, fs_name: Some(padded("NTFS", 32)) },
        DriveProbe { letter: b'E', drive_type: DRIVE_FIXED, fs_name: None },
        DriveProbe { letter: b'F', drive_type: DRIVE_REMOVABLE, fs_name: Some(padded("NTFS", 32)) },
        DriveProbe { letter: b'Z', drive_type: 4, fs_name: None },
    ];
    let volumes = select_volumes(&probes);
    assert_eq!(volumes.len(), 2);
    assert_eq!(volumes[0].letter, b'C');
    assert_eq!(volumes[0].device_path, r"\\.\C:");
    assert_eq!(volumes[1].letter, b'F');
    assert_eq!(volumes[1].device_path, r"\\.\F:");
    assert!(select_volumes(&[]).is_empty());
    assert!(select_volumes(&probes[..1]).is_empty());
}
