use monotools::platform::usn::{
    classify_reason, enumerate_records, filetime_to_unix, journal_changes, next_enum_start, parse_usn_buffer,
    volume_drive_letter, UsnChangeReason, UsnEntry,
};

fn record(frn: u64, parent: u64, usn: i64, ts: i64, reason: u32, attrs: u32, name: &str) -> Vec<u8> {
    let units: Vec<u16> = name.encode_utf16().collect();
    let len = 60 + units.len() * 2;
    let mut b = Vec::new();
    b.extend_from_slice(&(len as u32).to_le_bytes());
    b.extend_from_slice(&[2, 0, 0, 0]);
    b.extend_from_slice(&frn.to_le_bytes());
    b.extend_from_slice(&parent.to_le_bytes());
    b.extend_from_slice(&usn.to_le_bytes());
    b.extend_from_slice(&ts.to_le_bytes());
    b.extend_from_slice(&reason.to_le_bytes());
    b.extend_from_slice(&0u32.to_le_bytes());
    b.extend_from_slice(&0u32.to_le_bytes());
    b.extend_from_slice(&attrs.to_le_bytes());
    b.extend_from_slice(&((units.len() * 2) as u16).to_le_bytes());
    b.extend_from_slice(&60u16.to_le_bytes());
    for u in units {
        b.extend_from_slice(&u.to_le_bytes());
    }
    b
}

fn buffer(next: u64, records: &[Vec<u8>]) -> Vec<u8> {
    let mut b = next.to_le_bytes().to_vec();
    for r in records {
        b.extend_from_slice(r);
    }
    b
}

const DIR: u32 = 0x10;
const TICKS_2020: i64 = 132_223_104_000_000_000; // 2020-01-01T00:00:00Z

#[test]
fn parse_buffer_decodes_fields_and_trims_names() {
    let b = buffer(77, &[record(100, 5, 9, TICKS_2020, 0x100, DIR, " Users "), record(200, 100, -1, 0, 2, 0, "a😀.txt")]);
    let recs = parse_usn_buffer(&b, b.len());
    assert_eq!(recs.len(), 2);
    assert_eq!(recs[0].file_reference_number, 100);
    assert_eq!(recs[0].parent_file_reference, 5);
    assert_eq!(recs[0].usn, 9);
    assert_eq!(recs[0].time_stamp, TICKS_2020);
    assert_eq!(recs[0].reason, 0x100);
    assert_eq!(recs[0].file_attributes, DIR);
    assert_eq!(recs[0].file_name, "Users");
    assert_eq!(recs[1].usn, -1);
    assert_eq!(recs[1].file_name, "a😀.txt");
    assert_eq!(next_enum_start(&b, 0), Some(77));
    assert_eq!(next_enum_start(&b, 77), None);
    assert_eq!(next_enum_start(&[0u8; 4], 1), None);
}

#[test]
fn parse_buffer_stops_at_reported_length_and_zero_length() {
    let r1 = record(1, 5, 0, 0, 0, 0, "one");
    let r2 = record(2, 5, 0, 0, 0, 0, "two");
    let b = buffer(0, &[r1.clone(), r2]);
    assert_eq!(parse_usn_buffer(&b, 8 + r1.len()).len(), 1);
    assert_eq!(parse_usn_buffer(&b, 8 + r1.len() + 10).len(), 1);
    assert_eq!(parse_usn_buffer(&b, 4).len(), 0);
    let mut z = buffer(0, &[r1.clone()]);
    z.extend_from_slice(&[0u8; 64]);
    assert_eq!(parse_usn_buffer(&z, z.len()).len(), 1);
    let bad = vec![0xd800u16];
    let mut rb = record(3, 5, 0, 0, 0, 0, "");
    rb[56] = 2;
    rb[0] = 62;
    rb.extend_from_slice(&bad[0].to_le_bytes());
    let b = buffer(0, &[rb]);
    assert_eq!(parse_usn_buffer(&b, b.len())[0].file_name, "\u{fffd}");
}

#[test]
fn reasons_and_times() {
    assert_eq!(classify_reason(0x100 | 0x1000), UsnChangeReason::Created);
    assert_eq!(classify_reason(0x1000 | 0x2), UsnChangeReason::Deleted);
    assert_eq!(classify_reason(0x2 | 0x8000), UsnChangeReason::Modified);
    assert_eq!(classify_reason(0x8000 | 0x4000), UsnChangeReason::RenamedOldName);
    assert_eq!(classify_reason(0x4000), UsnChangeReason::RenamedNewName);
    assert_eq!(classify_reason(0x80000000), UsnChangeReason::Modified);
    assert_eq!(filetime_to_unix(TICKS_2020), 1_577_836_800);
    assert_eq!(filetime_to_unix(116_444_736_000_000_000), 0);
    assert_eq!(filetime_to_unix(0), -11_644_473_600);
    assert_eq!(filetime_to_unix(-15_000_000), -11_644_473_601);
    assert_eq!(filetime_to_unix(i64::MIN), i64::MIN / 10_000_000 - 11_644_473_600);
}

fn entries(b: &[u8]) -> Vec<UsnEntry> {
    parse_usn_buffer(b, b.len())
}

#[test]
fn enumeration_builds_paths_under_detected_root() {
    let b = buffer(
        0,
        &[
            record(101, 100, 0, 0, 0, DIR, "alice"),
            record(100, 5, 0, 0, 0, DIR, "Users"),
            record(9, 5, 0, 0, 0, DIR, "$Extend"),
            record(200, 101, 0, TICKS_2020, 0, 0, "Notes.TXT"),
            record(201, 777, 0, 0, 0, 0, "lost.bin"),
            record(202, 5, 0, 0, 0, 0, ".hidden"),
        ],
    );
    let (records, map) = enumerate_records(entries(&b), 'D');
    assert_eq!(map.get(&5).unwrap(), "D:\\");
    assert_eq!(map.get(&100).unwrap(), "D:\\Users");
    assert_eq!(map.get(&101).unwrap(), "D:\\Users\\alice");
    assert!(!map.contains_key(&9));
    let paths: Vec<&str> = records.iter().map(|r| r.full_path.as_str()).collect();
    assert_eq!(paths, vec!["D:\\Users", "D:\\Users\\alice", "D:\\Users\\alice\\Notes.TXT", "D:\\.hidden"]);
    let notes = &records[2];
    assert!(!notes.is_directory);
    assert_eq!(notes.extension.as_deref(), Some("txt"));
    assert_eq!(notes.last_write_time, 1_577_836_800);
    assert_eq!(notes.reason, UsnChangeReason::Created);
    assert!(records[0].is_directory);
    assert_eq!(records[0].extension, None);
    assert_eq!(records[3].extension, None);
}

#[test]
fn enumeration_falls_back_to_five_and_zero() {
    let b = buffer(0, &[record(300, 300, 0, 0, 0, DIR, "self")]);
    let (_, map) = enumerate_records(entries(&b), 'C');
    assert_eq!(map.get(&300).unwrap(), "C:\\");
    let (records, map) = enumerate_records(Vec::new(), 'C');
    assert!(records.is_empty());
    assert!(map.contains_key(&0) && map.contains_key(&5));
}

#[test]
fn journal_changes_report_every_record() {
    let b = buffer(
        0,
        &[
            record(100, 5, 40, 0, 0x100, DIR, "Docs"),
            record(400, 100, 41, TICKS_2020, 0x1000, 0, "old.DOCX"),
            record(401, 999, 42, 0, 0x4000, 0, "moved.md"),
            record(402, 100, 43, 0, 0, 0, ".tmp"),
        ],
    );
    let (changes, map) = journal_changes(entries(&b), 'E');
    assert_eq!(map.get(&100).unwrap(), "E:\\Docs");
    assert!(map.contains_key(&0));
    assert_eq!(changes.len(), 3);
    assert_eq!(changes[0].full_path, "E:\\Docs");
    assert_eq!(changes[0].reason, UsnChangeReason::Modified);
    assert_eq!(changes[0].usn, 40);
    assert_eq!(changes[0].last_write_time, 0);
    assert_eq!(changes[1].full_path, "E:\\Docs\\old.DOCX");
    assert_eq!(changes[1].reason, UsnChangeReason::Deleted);
    assert_eq!(changes[1].extension.as_deref(), Some("docx"));
    assert_eq!(changes[1].last_write_time, 1_577_836_800);
    assert_eq!(changes[2].full_path, "E:\\moved.md");
    assert_eq!(changes[2].reason, UsnChangeReason::RenamedNewName);
}

#[test]
fn journal_directories_sorted_stably_by_parent() {
    let b = buffer(
        0,
        &[
            record(12, 11, 0, 0, 0, DIR, "c"),
            record(11, 10, 0, 0, 0, DIR, "b"),
            record(10, 5, 0, 0, 0, DIR, "a"),
            record(13, 10, 0, 0, 0, DIR, "d"),
        ],
    );
    let (changes, _) = journal_changes(entries(&b), 'C');
    let names: Vec<&str> = changes.iter().map(|r| r.file_name.as_str()).collect();
    assert_eq!(names, vec!["a", "b", "d", "c"]);
    assert_eq!(changes[3].full_path, "C:\\a\\b\\c");
}

#[test]
fn volume_letters() {
    assert_eq!(volume_drive_letter("\\\\.\\D:"), Some('D'));
    assert_eq!(volume_drive_letter("\\\\.\\D"), Some('C'));
    assert_eq!(volume_drive_letter("\\\\?\\Volume{1234}\\"), None);
    assert_eq!(volume_drive_letter("E:"), Some('C'));
}

#[test]
fn specified_drives_become_device_paths() {
    assert_eq!(
        monotools::platform::usn::specified_volumes(&['c', 'D']),
        vec!["\\\\.\\C:".to_string(), "\\\\.\\D:".to_string()]
    );
}

#[test]
fn volume_indexed_needs_ntfs_and_letter() {
    let ntfs: Vec<u16> = " ntfs ".encode_utf16().collect();
    assert!(monotools::platform::usn::volume_indexed(&ntfs, true));
    assert!(!monotools::platform::usn::volume_indexed(&ntfs, false));
    let fat: Vec<u16> = "FAT32".encode_utf16().collect();
    assert!(!monotools::platform::usn::volume_indexed(&fat, true));
    let mut padded: Vec<u16> = "NTFS".encode_utf16().collect();
    padded.resize(256, 0);
    assert!(!monotools::platform::usn::volume_indexed(&padded, true));
}
