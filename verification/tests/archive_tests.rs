use hypercircuit::archive::{ZipArchive, crc32, put_u16, put_u32, stored_archive_members};

#[test]
fn crc32_check_value() {
    assert_eq!(crc32(b"123456789"), 0xCBF4_3926);
    assert_eq!(crc32(b""), 0);
}

#[test]
fn little_endian_fields() {
    let mut out = Vec::new();
    put_u16(&mut out, 0x0102);
    put_u32(&mut out, 0x0304_0506);
    assert_eq!(out, vec![0x02, 0x01, 0x06, 0x05, 0x04, 0x03]);
}

#[test]
fn stored_archive_round_trips() {
    let mut archive = ZipArchive::new();
    archive.add("project2.json", b"{\"a\":1}".to_vec());
    archive.add("project.epru", b"line\n".to_vec());
    let bytes = archive.finish().unwrap();
    assert_eq!(&bytes[0..4], &[0x50, 0x4b, 0x03, 0x04]);
    let members = stored_archive_members(&bytes).unwrap();
    assert_eq!(
        members,
        vec![
            ("project2.json".to_string(), b"{\"a\":1}".to_vec()),
            ("project.epru".to_string(), b"line\n".to_vec()),
        ]
    );
}

#[test]
fn corrupted_member_is_rejected() {
    let mut archive = ZipArchive::new();
    archive.add("a.txt", b"hello".to_vec());
    let mut bytes = archive.finish().unwrap();
    let content_at = 30 + "a.txt".len();
    bytes[content_at] ^= 0xff;
    assert!(stored_archive_members(&bytes).is_none());
}

#[test]
fn duplicate_member_names_are_rejected() {
    let mut archive = ZipArchive::new();
    archive.add("a.txt", b"one".to_vec());
    archive.add("a.txt", b"two".to_vec());
    let bytes = archive.finish().unwrap();
    assert!(stored_archive_members(&bytes).is_none());
}

#[test]
fn non_archive_is_rejected() {
    assert!(stored_archive_members(b"not a zip").is_none());
    assert!(stored_archive_members(&[]).is_none());
}
