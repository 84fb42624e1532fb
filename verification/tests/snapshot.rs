use redis_starter_rust::expiry::NEVER;
use redis_starter_rust::rdb::{SnapshotError, RDB};

fn holding(bytes: &[u8]) -> RDB {
    RDB {
        buffer: bytes.to_vec(),
        data: Vec::new(),
        version: String::new(),
        hash_size: 0,
        expire_hash_size: 0,
    }
}

fn snapshot(sections: &[u8]) -> Vec<u8> {
    let mut buf: Vec<u8> = b"REDIS0011".to_vec();
    buf.extend_from_slice(sections);
    buf
}

fn record(key: &str, value: &str, expires_at: u64) -> (String, String, u64) {
    (key.to_string(), value.to_string(), expires_at)
}

#[test]
fn six_bit_length() {
    assert_eq!(holding(&[0b0000_0101]).length_encoding(0), Ok((5, 1, false)));
    assert_eq!(holding(&[0x3F, 0xAA]).length_encoding(0), Ok((63, 1, false)));
}

#[test]
fn fourteen_bit_length_is_most_significant_first() {
    assert_eq!(holding(&[0b0100_0001, 0x05]).length_encoding(0), Ok((0x0105, 2, false)));
    assert_eq!(holding(&[0x7F, 0xFF]).length_encoding(0), Ok((0x3FFF, 2, false)));
}

#[test]
fn four_byte_length_is_most_significant_first() {
    assert_eq!(
        holding(&[0x80, 0x01, 0x02, 0x03, 0x04]).length_encoding(0),
        Ok((0x0102_0304, 5, false))
    );
    assert_eq!(
        holding(&[0xBF, 0x00, 0x00, 0x01, 0x00]).length_encoding(0),
        Ok((256, 5, false))
    );
}

#[test]
fn special_integers_are_least_significant_first() {
    assert_eq!(holding(&[0xC0, 0x7B]).length_encoding(0), Ok((123, 2, true)));
    assert_eq!(holding(&[0xC1, 0x39, 0x30]).length_encoding(0), Ok((0x3039, 3, true)));
    assert_eq!(
        holding(&[0xC2, 0x04, 0x03, 0x02, 0x01]).length_encoding(0),
        Ok((0x0102_0304, 5, true))
    );
}

#[test]
fn other_special_codes_hold_zero() {
    assert_eq!(holding(&[0xC4, 0x09]).length_encoding(0), Ok((0, 1, true)));
    assert_eq!(holding(&[0xFF]).length_encoding(0), Ok((0, 1, true)));
}

#[test]
fn compressed_strings_are_unsupported() {
    assert_eq!(holding(&[0xC3, 0x01]).length_encoding(0), Err(SnapshotError::UnsupportedEncoding));
    assert_eq!(holding(&[0xC3]).string_encoding(0), Err(SnapshotError::UnsupportedEncoding));
}

#[test]
fn a_length_cut_short_is_malformed() {
    assert_eq!(holding(&[]).length_encoding(0), Err(SnapshotError::MalformedSnapshot));
    assert_eq!(holding(&[0x05]).length_encoding(1), Err(SnapshotError::MalformedSnapshot));
    assert_eq!(holding(&[0x05]).length_encoding(7), Err(SnapshotError::MalformedSnapshot));
    assert_eq!(holding(&[0x41]).length_encoding(0), Err(SnapshotError::MalformedSnapshot));
    assert_eq!(holding(&[0x80, 1, 2, 3]).length_encoding(0), Err(SnapshotError::MalformedSnapshot));
    assert_eq!(holding(&[0xC0]).length_encoding(0), Err(SnapshotError::MalformedSnapshot));
    assert_eq!(holding(&[0xC1, 1]).length_encoding(0), Err(SnapshotError::MalformedSnapshot));
    assert_eq!(holding(&[0xC2, 1, 2, 3]).length_encoding(0), Err(SnapshotError::MalformedSnapshot));
}

#[test]
fn a_length_is_read_where_it_stands() {
    assert_eq!(holding(&[0xAA, 0x41, 0x05]).length_encoding(1), Ok((0x0105, 3, false)));
}

#[test]
fn a_string_is_its_bytes_as_text() {
    assert_eq!(holding(b"\x03foo!").string_encoding(0), Ok(("foo".to_string(), 4)));
    assert_eq!(holding(b"\x00").string_encoding(0), Ok((String::new(), 1)));
    assert_eq!(
        holding(&[0x02, 0xC3, 0xA9]).string_encoding(0),
        Ok(("\u{e9}".to_string(), 3))
    );
}

#[test]
fn a_special_integer_is_its_decimal_text() {
    assert_eq!(holding(&[0xC0, 0x7B]).string_encoding(0), Ok(("123".to_string(), 2)));
    assert_eq!(holding(&[0xC0, 0x00]).string_encoding(0), Ok(("0".to_string(), 2)));
    assert_eq!(holding(&[0xC1, 0x39, 0x30]).string_encoding(0), Ok(("12345".to_string(), 3)));
    assert_eq!(
        holding(&[0xC2, 0xFF, 0xFF, 0xFF, 0xFF]).string_encoding(0),
        Ok(("4294967295".to_string(), 5))
    );
    assert_eq!(holding(&[0xC9]).string_encoding(0), Ok(("0".to_string(), 1)));
}

#[test]
fn a_string_cut_short_or_not_utf8_is_invalid() {
    assert_eq!(holding(b"\x04foo").string_encoding(0), Err(SnapshotError::InvalidEncoding));
    assert_eq!(holding(&[0x01, 0xFF]).string_encoding(0), Err(SnapshotError::InvalidEncoding));
    assert_eq!(
        holding(&[0x80, 0xFF, 0xFF, 0xFF, 0xFF, b'a']).string_encoding(0),
        Err(SnapshotError::InvalidEncoding)
    );
    assert_eq!(holding(&[]).string_encoding(0), Err(SnapshotError::MalformedSnapshot));
}

#[test]
fn loads_one_entry_without_expiry() {
    let rdb = RDB::new(snapshot(b"\xFB\x01\x00\x00\x03foo\x03bar\xFF")).unwrap();
    assert_eq!(rdb.version, "0011");
    assert_eq!(rdb.hash_size, 1);
    assert_eq!(rdb.expire_hash_size, 0);
    assert_eq!(rdb.data, vec![record("foo", "bar", NEVER)]);
}

#[test]
fn loads_a_snapshot_with_metadata_and_expiries() {
    let mut sections: Vec<u8> = Vec::new();
    sections.extend_from_slice(b"\xFA\x09redis-ver\x057.2.0");
    sections.extend_from_slice(b"\xFA\x0Aredis-bits\xC0\x40");
    sections.extend_from_slice(&[0xFE, 0x00]);
    sections.extend_from_slice(&[0xFB, 0x03, 0x02]);
    sections.extend_from_slice(b"\x00\x06foobar\x06bazqux");
    sections.extend_from_slice(&[0xFC, 0x15, 0x72, 0xE7, 0x07, 0x8F, 0x01, 0x00, 0x00]);
    sections.extend_from_slice(b"\x00\x03foo\x03bar");
    sections.extend_from_slice(&[0xFD, 0x52, 0xED, 0x2A, 0x66]);
    sections.extend_from_slice(b"\x00\x03baz\x03qux");
    sections.push(0xFF);
    sections.extend_from_slice(&[1, 2, 3, 4, 5, 6, 7, 8]);
    let rdb = RDB::new(snapshot(&sections)).unwrap();
    assert_eq!(rdb.hash_size, 3);
    assert_eq!(rdb.expire_hash_size, 2);
    assert_eq!(
        rdb.data,
        vec![
            record("foobar", "bazqux", NEVER),
            record("foo", "bar", 0x0000_018F_07E7_7215),
            record("baz", "qux", 0x662A_ED52 * 1000),
        ]
    );
}

#[test]
fn an_expiry_holds_for_the_next_entry_only() {
    let mut sections: Vec<u8> = Vec::new();
    sections.extend_from_slice(&[0xFD, 0x0A, 0x00, 0x00, 0x00]);
    sections.extend_from_slice(b"\x00\x01a\x01b");
    sections.extend_from_slice(b"\x00\x01c\x01d");
    let rdb = RDB::new(snapshot(&sections)).unwrap();
    assert_eq!(rdb.data, vec![record("a", "b", 10_000), record("c", "d", NEVER)]);
    assert_eq!(rdb.hash_size, 0);
}

#[test]
fn an_expiry_waits_through_metadata() {
    let mut sections: Vec<u8> = Vec::new();
    sections.extend_from_slice(&[0xFC, 0x07, 0, 0, 0, 0, 0, 0, 0]);
    sections.extend_from_slice(b"\xFA\x01k\x01v");
    sections.extend_from_slice(b"\x00\x01a\x01b");
    let rdb = RDB::new(snapshot(&sections)).unwrap();
    assert_eq!(rdb.data, vec![record("a", "b", 7)]);
}

#[test]
fn entries_stand_outside_a_database_too() {
    let rdb = RDB::new(snapshot(b"\x00\x01a\x01b\x09\x01c\xC0\x2A")).unwrap();
    assert_eq!(rdb.data, vec![record("a", "b", NEVER), record("c", "42", NEVER)]);
}

#[test]
fn nothing_after_the_end_marker_is_read() {
    let rdb = RDB::new(snapshot(b"\xFF\x00\x05ab")).unwrap();
    assert_eq!(rdb.data, Vec::new());
    assert_eq!(RDB::new(snapshot(b"")).unwrap().data, Vec::new());
}

#[test]
fn a_database_owes_the_entries_that_it_announces() {
    let short = RDB::new(snapshot(b"\xFB\x02\x00\x00\x01a\x01b\xFF"));
    assert_eq!(short.err(), Some(SnapshotError::MalformedSnapshot));
    let cut = RDB::new(snapshot(b"\xFB\x02\x00\x00\x01a\x01b"));
    assert_eq!(cut.err(), Some(SnapshotError::MalformedSnapshot));
    let more = RDB::new(snapshot(b"\xFB\x01\x00\x00\x01a\x01b\x00\x01c\x01d\xFF")).unwrap();
    assert_eq!(more.data, vec![record("a", "b", NEVER), record("c", "d", NEVER)]);
}

#[test]
fn the_last_database_gives_the_sizes() {
    let rdb = RDB::new(snapshot(b"\xFB\x01\x00\x00\x01a\x01b\xFE\x01\xFB\x00\x41\x05\xFF")).unwrap();
    assert_eq!(rdb.hash_size, 0);
    assert_eq!(rdb.expire_hash_size, 0x0105);
}

#[test]
fn rejects_a_broken_header() {
    assert_eq!(RDB::new(b"REDIS001".to_vec()).err(), Some(SnapshotError::MalformedSnapshot));
    assert_eq!(RDB::new(b"XEDIS0011\xFF".to_vec()).err(), Some(SnapshotError::MalformedSnapshot));
    assert_eq!(RDB::new(b"redis0011\xFF".to_vec()).err(), Some(SnapshotError::MalformedSnapshot));
    assert_eq!(
        RDB::new(b"REDIS00\xC3\xA9\xFF".to_vec()).err(),
        Some(SnapshotError::MalformedSnapshot)
    );
    assert_eq!(RDB::new(Vec::new()).err(), Some(SnapshotError::MalformedSnapshot));
}

#[test]
fn rejects_broken_sections() {
    let malformed = Some(SnapshotError::MalformedSnapshot);
    assert_eq!(RDB::new(snapshot(b"\xFE")).err(), malformed);
    assert_eq!(RDB::new(snapshot(b"\xFC\x01\x02")).err(), malformed);
    assert_eq!(RDB::new(snapshot(b"\xFD\x01\x02\x03")).err(), malformed);
    assert_eq!(RDB::new(snapshot(b"\xFB\x01")).err(), malformed);
    assert_eq!(RDB::new(snapshot(b"\xFA\x03ab")).err(), malformed);
    assert_eq!(RDB::new(snapshot(b"\x00\x01a")).err(), malformed);
    assert_eq!(RDB::new(snapshot(b"\x00\x01\xFF\x01b")).err(), malformed);
    assert_eq!(
        RDB::new(snapshot(b"\x00\x01a\xC3")).err(),
        Some(SnapshotError::UnsupportedEncoding)
    );
}

#[test]
fn a_failed_load_leaves_the_snapshot_as_it_was() {
    let mut rdb = holding(b"REDIS0011\xFB\x01");
    rdb.version = "old".to_string();
    rdb.hash_size = 9;
    rdb.data = vec![record("k", "v", 1)];
    assert_eq!(rdb.load(), Err(SnapshotError::MalformedSnapshot));
    assert_eq!(rdb.version, "old");
    assert_eq!(rdb.hash_size, 9);
    assert_eq!(rdb.data, vec![record("k", "v", 1)]);
}

#[test]
fn a_load_replaces_what_was_loaded() {
    let mut rdb = holding(b"REDIS0007\x00\x01a\x01b");
    rdb.hash_size = 9;
    rdb.data = vec![record("k", "v", 1)];
    assert_eq!(rdb.load(), Ok(()));
    assert_eq!(rdb.version, "0007");
    assert_eq!(rdb.hash_size, 0);
    assert_eq!(rdb.data, vec![record("a", "b", NEVER)]);
}
