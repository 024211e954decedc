use fsevents_decoder::flags;
use fsevents_decoder::Archive;
use fsevents_decoder::EventFlag;
use fsevents_decoder::Page;
use fsevents_decoder::PageHeader;
use fsevents_decoder::ParseError;
use fsevents_decoder::Version;

use std::io::Write;

/// Marker + 4 reserved bytes + little-endian declared length.
fn header_bytes(marker: &[u8; 4], declared: u32) -> Vec<u8> {
    let mut v = Vec::new();
    v.extend_from_slice(marker);
    v.extend_from_slice(&[0u8; 4]);
    v.extend_from_slice(&declared.to_le_bytes());
    v
}

/// One record: path, terminator, event id, flags, zero node id.
fn record_bytes(path: &[u8], id: u64, flag_bits: u32) -> Vec<u8> {
    let mut v = Vec::new();
    v.extend_from_slice(path);
    v.push(0);
    v.extend_from_slice(&id.to_le_bytes());
    v.extend_from_slice(&flag_bits.to_le_bytes());
    v.extend_from_slice(&[0u8; 8]);
    v
}

/// A whole page declaring its true total length.
fn page_bytes(records: &[(&[u8], u64, u32)]) -> Vec<u8> {
    let mut body = Vec::new();
    for (path, id, bits) in records {
        body.extend_from_slice(&record_bytes(path, *id, *bits));
    }
    let mut v = header_bytes(b"2SLD", (12 + body.len()) as u32);
    v.extend_from_slice(&body);
    v
}

fn gzip(data: &[u8]) -> Vec<u8> {
    let mut enc = flate2::write::GzEncoder::new(Vec::new(), flate2::Compression::default());
    enc.write_all(data).unwrap();
    enc.finish().unwrap()
}

#[test]
fn header_rejects_short_buffers() {
    for len in 0..12usize {
        let mut buf = vec![0u8; len];
        if len >= 1 {
            buf[0] = b'2';
        }
        if len >= 2 {
            buf[1] = b'S';
        }
        if len >= 3 {
            buf[2] = b'L';
        }
        if len >= 4 {
            buf[3] = b'D';
        }
        let r = PageHeader::new(&buf);
        assert!(matches!(r, Err(ParseError::InvalidHeader)));
    }
}

#[test]
fn header_rejects_declared_length_past_buffer() {
    let buf = header_bytes(b"2SLD", 13);
    assert!(matches!(PageHeader::new(&buf), Err(ParseError::InvalidHeader)));
}

#[test]
fn header_rejects_unknown_marker() {
    let buf = header_bytes(b"3SLD", 12);
    assert!(matches!(PageHeader::new(&buf), Err(ParseError::InvalidHeader)));
}

#[test]
fn header_accepts_exact_fit() {
    let buf = header_bytes(b"2SLD", 12);
    let h = PageHeader::new(&buf).unwrap();
    assert!(matches!(h.version, Version::V2));
    assert_eq!(h.stream_size, 12);
}

#[test]
fn header_reads_legacy_marker() {
    let buf = header_bytes(b"1SLD", 12);
    let h = PageHeader::new(&buf).unwrap();
    assert!(matches!(h.version, Version::V1));
}

#[test]
fn header_fixed_size() {
    assert_eq!(PageHeader::len(), 12);
}

#[test]
fn page_single_entry() {
    // "2SLD" + 4 zero bytes + u32le(0x18) + "/tmp/a\0" + u64le(1)
    // + u32le(0x00000001) + 8 zero bytes
    let mut buf = header_bytes(b"2SLD", 0x18);
    buf.extend_from_slice(&record_bytes(b"/tmp/a", 1, 0x00000001));
    let (page, consumed) = Page::new(&buf).unwrap();
    assert_eq!(page.entries.len(), 1);
    assert_eq!(page.entries[0].full_path, "/tmp/a");
    assert_eq!(page.entries[0].event_id, 1);
    assert_eq!(page.entries[0].flags.bits(), flags::FSE_CREATE_FILE);
    assert!(page.entries[0].flags.contains(flags::FSE_CREATE_FILE));
    assert!(!page.entries[0].flags.contains(flags::FSE_DELETE));
    assert_eq!(consumed, buf.len());
}

#[test]
fn page_round_trip_two_entries() {
    let records: [(&[u8], u64, u32); 2] = [
        (b"/var/log/system.log", 0xdead_beef_0123_4567, 0x00800010),
        (b"/Users/me/new dir", 78, 0x01000080),
    ];
    let buf = page_bytes(&records);
    let (page, consumed) = Page::new(&buf).unwrap();
    assert_eq!(consumed, buf.len());
    assert_eq!(page.header.stream_size as usize, buf.len());
    assert_eq!(page.entries.len(), 2);
    assert_eq!(page.entries[0].full_path, "/var/log/system.log");
    assert_eq!(page.entries[0].event_id, 0xdead_beef_0123_4567);
    assert_eq!(page.entries[0].flags.bits(), 0x00800010);
    assert_eq!(page.entries[1].full_path, "/Users/me/new dir");
    assert_eq!(page.entries[1].event_id, 78);
    assert_eq!(page.entries[1].flags.bits(), 0x01000080);
}

#[test]
fn page_decode_is_idempotent() {
    let records: [(&[u8], u64, u32); 2] = [(b"/a", 1, 2), (b"/b", 3, 4)];
    let buf = page_bytes(&records);
    let (p1, c1) = Page::new(&buf).unwrap();
    let (p2, c2) = Page::new(&buf).unwrap();
    assert_eq!(c1, c2);
    assert_eq!(p1.header.stream_size, p2.header.stream_size);
    assert_eq!(p1.entries.len(), p2.entries.len());
    for (a, b) in p1.entries.iter().zip(p2.entries.iter()) {
        assert_eq!(a.full_path, b.full_path);
        assert_eq!(a.event_id, b.event_id);
        assert_eq!(a.flags.bits(), b.flags.bits());
    }
}

#[test]
fn page_drops_truncated_trailing_record() {
    // one whole record, then a second whose fixed trailing fields would
    // cross the buffer end: the second is dropped, without error
    let whole = page_bytes(&[(b"/ok", 5, 0)]);
    let mut buf = whole.clone();
    buf.extend_from_slice(b"/cut");
    buf.push(0);
    buf.extend_from_slice(&[0u8; 10]); // 10 of the 20 trailing bytes
    let declared = buf.len() as u32;
    buf[8..12].copy_from_slice(&declared.to_le_bytes());
    let (page, consumed) = Page::new(&buf).unwrap();
    assert_eq!(page.entries.len(), 1);
    assert_eq!(page.entries[0].full_path, "/ok");
    // the scan stops at the start of the discarded record
    assert_eq!(consumed, whole.len());
}

#[test]
fn page_without_terminator_stops_cleanly() {
    let mut buf = header_bytes(b"2SLD", 40);
    buf.extend_from_slice(b"no terminator at all, only path bytes...");
    let (page, consumed) = Page::new(&buf).unwrap();
    assert_eq!(page.entries.len(), 0);
    assert_eq!(consumed, buf.len());
}

#[test]
fn page_with_zero_declared_length_has_no_entries() {
    // the declared stream end lies before the entry area: nothing is read
    let mut buf = header_bytes(b"2SLD", 0);
    buf.extend_from_slice(&record_bytes(b"/never", 9, 9));
    let (page, consumed) = Page::new(&buf).unwrap();
    assert_eq!(page.entries.len(), 0);
    assert_eq!(consumed, 12);
}

#[test]
fn page_rejects_legacy_version() {
    let mut buf = header_bytes(b"1SLD", 0x18);
    buf.extend_from_slice(&record_bytes(b"/tmp/a", 1, 1));
    let r = Page::new(&buf);
    assert!(matches!(r, Err(ParseError::UnsupportedVersion)));
}

#[test]
fn page_invalid_header_takes_precedence_over_version() {
    // legacy marker, but the declared length overruns the buffer
    let buf = header_bytes(b"1SLD", 1000);
    assert!(matches!(Page::new(&buf), Err(ParseError::InvalidHeader)));
}

#[test]
fn page_not_found_without_marker() {
    let buf = vec![7u8; 64];
    assert!(matches!(Page::new(&buf), Err(ParseError::NoPageFound)));
}

#[test]
fn page_marker_after_garbage() {
    let mut buf = vec![b'X', b'Y'];
    buf.extend_from_slice(&page_bytes(&[(b"/a", 9, 0)]));
    let (page, consumed) = Page::new(&buf).unwrap();
    assert_eq!(page.entries.len(), 1);
    assert_eq!(page.entries[0].event_id, 9);
    assert_eq!(consumed, buf.len());
}

#[test]
fn page_path_with_invalid_utf8_is_replaced_not_fatal() {
    let path: [u8; 3] = [0xff, b'/', b'a'];
    let buf = page_bytes(&[(&path, 1, 0)]);
    let (page, _) = Page::new(&buf).unwrap();
    assert_eq!(page.entries.len(), 1);
    assert_eq!(page.entries[0].full_path, "\u{fffd}/a");
}

#[test]
fn archive_decodes_gzipped_pages() {
    let mut raw = page_bytes(&[(b"/one", 1, 1), (b"/two", 2, 2)]);
    raw.extend_from_slice(&page_bytes(&[(b"/three", 3, 4)]));
    let compressed = gzip(&raw);
    let a = Archive::new(String::from("0000000000abcdef"), 10, 20, &compressed).unwrap();
    assert_eq!(a.filename, "0000000000abcdef");
    assert_eq!(a.mtime, 10);
    assert_eq!(a.ctime, 20);
    assert_eq!(a.pages.len(), 2);
    assert_eq!(a.pages[0].entries.len(), 2);
    assert_eq!(a.pages[1].entries.len(), 1);
    assert_eq!(a.pages[1].entries[0].full_path, "/three");
}

#[test]
fn archive_supports_multi_member_gzip() {
    let mut compressed = gzip(&page_bytes(&[(b"/first", 1, 0)]));
    compressed.extend_from_slice(&gzip(&page_bytes(&[(b"/second", 2, 0)])));
    let a = Archive::new(String::from("a"), 0, 0, &compressed).unwrap();
    assert_eq!(a.pages.len(), 2);
    assert_eq!(a.pages[0].entries[0].full_path, "/first");
    assert_eq!(a.pages[1].entries[0].full_path, "/second");
}

#[test]
fn archive_keeps_pages_before_a_legacy_page() {
    let mut raw = page_bytes(&[(b"/kept", 1, 0)]);
    let mut legacy = page_bytes(&[(b"/lost", 2, 0)]);
    legacy[0] = b'1';
    raw.extend_from_slice(&legacy);
    let a = Archive::new(String::from("a"), 0, 0, &gzip(&raw)).unwrap();
    assert_eq!(a.pages.len(), 1);
    assert_eq!(a.pages[0].entries[0].full_path, "/kept");
}

#[test]
fn archive_rejects_corrupt_gzip() {
    let junk = vec![1u8, 2, 3, 4, 5];
    let r = Archive::new(String::from("a"), 0, 0, &junk);
    assert!(matches!(r, Err(ParseError::IoError(_))));
}

#[test]
fn archive_of_empty_stream_has_no_pages() {
    let a = Archive::new(String::from("a"), 0, 0, &gzip(&[])).unwrap();
    assert_eq!(a.pages.len(), 0);
}

#[test]
fn error_descriptions() {
    assert_eq!(ParseError::NoPageFound.describe(), "no page found");
    assert_eq!(ParseError::InvalidHeader.describe(), "invalid header");
    assert_eq!(
        ParseError::UnsupportedVersion.describe(),
        "page version not supported"
    );
    assert_eq!(
        ParseError::IoError(String::from("gone")).describe(),
        "gone"
    );
}

#[test]
fn event_flag_preserves_unknown_bits() {
    let f = EventFlag::from_bits(0x8000_0001);
    assert_eq!(f.bits(), 0x8000_0001);
    assert!(f.contains(flags::FSE_CREATE_FILE));
    assert!(!f.is_empty());
    assert!(EventFlag::from_bits(0).is_empty());
}
