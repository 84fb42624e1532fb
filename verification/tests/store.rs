use redis_starter_rust::database::Database;
use redis_starter_rust::expiry::NEVER;
use redis_starter_rust::rdb::SnapshotError;

fn store() -> Database {
    Database::new("/tmp/redis-files".to_string(), "dump.rdb".to_string())
}

fn words(list: &[&str]) -> Vec<String> {
    list.iter().map(|w| w.to_string()).collect()
}

fn snapshot(sections: &[u8]) -> Vec<u8> {
    let mut buf: Vec<u8> = b"REDIS0011".to_vec();
    buf.extend_from_slice(sections);
    buf
}

#[test]
fn a_key_never_written_is_absent() {
    let mut db = store();
    assert_eq!(db.get("foo", 0), None);
    assert_eq!(db.get("", 12), None);
    db.set("bar".to_string(), "1".to_string(), NEVER);
    assert_eq!(db.get("foo", 0), None);
    assert_eq!(db.get("ba", 0), None);
    assert_eq!(db.get("BAR", 0), None);
}

#[test]
fn a_value_without_expiry_is_read_back() {
    let mut db = store();
    db.set("foo".to_string(), "bar".to_string(), NEVER);
    assert_eq!(db.get("foo", 0), Some("bar".to_string()));
    assert_eq!(db.get("foo", 1_700_000_000_000), Some("bar".to_string()));
    assert_eq!(db.get("foo", u64::MAX - 1), Some("bar".to_string()));
    db.set("empty".to_string(), String::new(), NEVER);
    assert_eq!(db.get("empty", 5), Some(String::new()));
}

#[test]
fn a_write_replaces_the_value_and_the_expiry() {
    let mut db = store();
    db.set("k".to_string(), "old".to_string(), 10);
    db.set("k".to_string(), "new".to_string(), NEVER);
    assert_eq!(db.get("k", 50), Some("new".to_string()));
    db.set("k".to_string(), "short".to_string(), 20);
    assert_eq!(db.get("k", 19), Some("short".to_string()));
    assert_eq!(db.get("k", 50), None);
    assert_eq!(db.get_key_list(), words(&["k"]));
}

#[test]
fn an_entry_is_read_until_its_expiry_and_not_from_then_on() {
    let mut db = store();
    db.set("k".to_string(), "v".to_string(), 1_001);
    assert_eq!(db.get("k", 1_000), Some("v".to_string()));
    assert_eq!(db.get("k", 1_001), None);
    assert_eq!(db.get("k", 1_002), None);
    assert_eq!(db.get("k", u64::MAX), None);
}

#[test]
fn an_expired_entry_stays_listed() {
    let mut db = store();
    db.set("gone".to_string(), "v".to_string(), 5);
    db.set("here".to_string(), "w".to_string(), NEVER);
    assert_eq!(db.get("gone", 9), None);
    assert_eq!(db.get_key_list(), words(&["gone", "here"]));
}

#[test]
fn the_keys_are_those_written_each_once() {
    let mut db = store();
    assert_eq!(db.get_key_list(), Vec::<String>::new());
    db.set("b".to_string(), "1".to_string(), NEVER);
    db.set("a".to_string(), "2".to_string(), 3);
    db.set("b".to_string(), "3".to_string(), 4);
    db.set("c".to_string(), "4".to_string(), NEVER);
    db.set("a".to_string(), "5".to_string(), NEVER);
    assert_eq!(db.get_key_list(), words(&["b", "a", "c"]));
}

#[test]
fn the_configuration_holds_two_names() {
    let db = store();
    assert_eq!(db.config_get("dir"), Some(words(&["dir", "/tmp/redis-files"])));
    assert_eq!(db.config_get("dbfilename"), Some(words(&["dbfilename", "dump.rdb"])));
    assert_eq!(db.config_get("unknown"), None);
    assert_eq!(db.config_get("DIR"), None);
    assert_eq!(db.config_get(""), None);
}

#[test]
fn the_snapshot_lies_in_the_directory() {
    assert_eq!(store().snapshot_path(), Some("/tmp/redis-files/dump.rdb".to_string()));
    let none = Database::new("/tmp".to_string(), String::new());
    assert_eq!(none.snapshot_path(), None);
    let bare = Database::new(String::new(), "x".to_string());
    assert_eq!(bare.snapshot_path(), Some("/x".to_string()));
}

#[test]
fn a_loaded_snapshot_is_read_back() {
    let mut db = store();
    assert_eq!(db.load(snapshot(b"\xFB\x01\x00\x00\x03foo\x03bar\xFF")), Ok(()));
    assert_eq!(db.get("foo", 1_700_000_000_000), Some("bar".to_string()));
    assert_eq!(db.get_key_list(), words(&["foo"]));
}

#[test]
fn later_records_overwrite_earlier_ones() {
    let mut db = store();
    db.set("k".to_string(), "mine".to_string(), NEVER);
    let mut sections: Vec<u8> = Vec::new();
    sections.extend_from_slice(b"\x00\x01a\x011");
    sections.extend_from_slice(&[0xFD, 0x02, 0x00, 0x00, 0x00]);
    sections.extend_from_slice(b"\x00\x01k\x012");
    sections.extend_from_slice(b"\x00\x01a\x013");
    assert_eq!(db.load(snapshot(&sections)), Ok(()));
    assert_eq!(db.get("a", 0), Some("3".to_string()));
    assert_eq!(db.get("k", 1_999), Some("2".to_string()));
    assert_eq!(db.get("k", 2_000), None);
    assert_eq!(db.get_key_list(), words(&["k", "a"]));
}

#[test]
fn a_failed_load_leaves_the_store_as_it_was() {
    let mut db = store();
    db.set("k".to_string(), "v".to_string(), NEVER);
    assert_eq!(
        db.load(snapshot(b"\x00\x01a\x011\x00\x01b")),
        Err(SnapshotError::MalformedSnapshot)
    );
    assert_eq!(
        db.load(snapshot(b"\x00\x01a\xC3")),
        Err(SnapshotError::UnsupportedEncoding)
    );
    assert_eq!(db.load(b"nothing".to_vec()), Err(SnapshotError::MalformedSnapshot));
    assert_eq!(db.get_key_list(), words(&["k"]));
    assert_eq!(db.get("a", 0), None);
}

#[test]
fn a_store_without_a_snapshot_file_loads_nothing() {
    let mut db = Database::new("/tmp".to_string(), String::new());
    assert_eq!(db.load(snapshot(b"\x00\x01a\x011")), Ok(()));
    assert_eq!(db.get_key_list(), Vec::<String>::new());
    assert_eq!(db.load(b"broken".to_vec()), Ok(()));
}

#[test]
fn restores_records_in_order() {
    let mut db = store();
    let records = vec![
        ("x".to_string(), "1".to_string(), 10u64),
        ("y".to_string(), "2".to_string(), NEVER),
        ("x".to_string(), "3".to_string(), 30u64),
    ];
    db.restore(&records);
    assert_eq!(db.get("x", 20), Some("3".to_string()));
    assert_eq!(db.get("y", 20), Some("2".to_string()));
    assert_eq!(db.get_key_list(), words(&["x", "y"]));
}
