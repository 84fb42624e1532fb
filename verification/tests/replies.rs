use redis_starter_rust::database::Database;
use redis_starter_rust::process::{
    answer, array, error, execute, failure, is_idle, null, result, serve,
};
use redis_starter_rust::expiry::NEVER;
use redis_starter_rust::redis_message::{
    decode_tokens, ArityError, ArityReason, Commands, RedisCommand, RequestError,
};

fn store() -> Database {
    Database::new("/data".to_string(), "dump.rdb".to_string())
}

fn words(list: &[&str]) -> Vec<String> {
    list.iter().map(|w| w.to_string()).collect()
}

fn command(list: &[&str], now: u64) -> RedisCommand {
    RedisCommand::new(words(list), now).unwrap()
}

#[test]
fn writes_simple_null_and_error_replies() {
    assert_eq!(result("PONG"), "+PONG\r\n");
    assert_eq!(result(""), "+\r\n");
    assert_eq!(null(), "$-1\r\n");
    assert_eq!(error("INVALID COMMAND"), "-INVALID COMMAND\r\n");
}

#[test]
fn writes_array_replies() {
    assert_eq!(array(&Vec::new()), "*0\r\n");
    assert_eq!(array(&words(&["dir", "/tmp"])), "*2\r\n$3\r\ndir\r\n$4\r\n/tmp\r\n");
    assert_eq!(array(&words(&[""])), "*1\r\n$0\r\n\r\n");
    assert_eq!(array(&words(&["0123456789ab"])), "*1\r\n$12\r\n0123456789ab\r\n");
}

#[test]
fn an_array_counts_the_bytes_of_an_item() {
    assert_eq!(array(&words(&["caf\u{e9}"])), "*1\r\n$5\r\ncaf\u{e9}\r\n");
}

#[test]
fn an_array_keeps_the_order_of_its_items() {
    let items: Vec<String> = (0..11).map(|i| format!("k{}", i)).collect();
    let mut expected = String::from("*11\r\n");
    for item in &items {
        expected.push_str(&format!("${}\r\n{}\r\n", item.len(), item));
    }
    assert_eq!(array(&items), expected);
}

#[test]
fn answers_commands_that_read() {
    let mut db = store();
    db.set("foo".to_string(), "bar".to_string(), 100);
    db.set("baz".to_string(), "qux".to_string(), NEVER);
    assert_eq!(answer(&db, &command(&["COMMAND", "DOCS"], 0), 0), "+CONNECTED\r\n");
    assert_eq!(answer(&db, &command(&["PING"], 0), 0), "+PONG\r\n");
    assert_eq!(answer(&db, &command(&["ECHO", "hey"], 0), 0), "+hey\r\n");
    assert_eq!(answer(&db, &command(&["GET", "foo"], 0), 99), "+bar\r\n");
    assert_eq!(answer(&db, &command(&["GET", "foo"], 0), 100), "$-1\r\n");
    assert_eq!(answer(&db, &command(&["GET", "nope"], 0), 0), "$-1\r\n");
    assert_eq!(
        answer(&db, &command(&["KEYS", "*"], 0), 500),
        "*2\r\n$3\r\nfoo\r\n$3\r\nbaz\r\n"
    );
    assert_eq!(
        answer(&db, &command(&["CONFIG", "GET", "dir"], 0), 0),
        "*2\r\n$3\r\ndir\r\n$5\r\n/data\r\n"
    );
    assert_eq!(
        answer(&db, &command(&["CONFIG", "GET", "dbfilename"], 0), 0),
        "*2\r\n$10\r\ndbfilename\r\n$8\r\ndump.rdb\r\n"
    );
    assert_eq!(
        answer(&db, &command(&["CONFIG", "GET", "port"], 0), 0),
        "-Unsupported key\r\n"
    );
    assert_eq!(answer(&db, &command(&["FLUSHALL"], 0), 0), "-INVALID COMMAND\r\n");
}

#[test]
fn a_stored_empty_value_is_no_absence() {
    let mut db = store();
    db.set("k".to_string(), String::new(), NEVER);
    assert_eq!(answer(&db, &command(&["GET", "k"], 0), 0), "+\r\n");
}

#[test]
fn executes_a_write() {
    let mut db = store();
    assert_eq!(execute(&mut db, &command(&["SET", "k", "v"], 10), 10), "+OK\r\n");
    assert_eq!(db.get("k", u64::MAX - 1), Some("v".to_string()));
    assert_eq!(execute(&mut db, &command(&["SET", "t", "w", "PX", "5"], 10), 10), "+OK\r\n");
    assert_eq!(db.get("t", 14), Some("w".to_string()));
    assert_eq!(db.get("t", 15), None);
    assert_eq!(execute(&mut db, &command(&["GET", "k"], 10), 10), "+v\r\n");
    assert_eq!(db.get_key_list(), words(&["k", "t"]));
}

#[test]
fn answers_a_request_that_gave_no_command() {
    assert_eq!(
        failure(&RequestError::ProtocolParseError),
        "-Failed to parse message: malformed request\r\n"
    );
    let e = ArityError { command: Commands::Echo, reason: ArityReason::TooFewTokens };
    assert_eq!(
        failure(&RequestError::ArityError(e)),
        "-Failed to parse message: ECHO - too few tokens\r\n"
    );
}

#[test]
fn serves_frames() {
    let mut db = store();
    assert_eq!(serve(&mut db, b"*1\r\n$4\r\nPING\r\n", 0), Some("+PONG\r\n".to_string()));
    assert_eq!(
        serve(&mut db, b"*3\r\n$3\r\nSET\r\n$3\r\nfoo\r\n$3\r\nbar\r\n", 0),
        Some("+OK\r\n".to_string())
    );
    assert_eq!(
        serve(&mut db, b"*2\r\n$3\r\nGET\r\n$3\r\nfoo\r\n", 7),
        Some("+bar\r\n".to_string())
    );
    assert_eq!(
        serve(&mut db, b"*5\r\n$3\r\nSET\r\n$1\r\nt\r\n$1\r\nv\r\n$2\r\npx\r\n$3\r\n100\r\n", 1_000),
        Some("+OK\r\n".to_string())
    );
    assert_eq!(serve(&mut db, b"*2\r\n$3\r\nGET\r\n$1\r\nt\r\n", 1_099), Some("+v\r\n".to_string()));
    assert_eq!(serve(&mut db, b"*2\r\n$3\r\nGET\r\n$1\r\nt\r\n", 1_100), Some("$-1\r\n".to_string()));
    assert_eq!(
        serve(&mut db, b"*1\r\n$4\r\nKEYS\r\n", 2_000),
        Some("*2\r\n$3\r\nfoo\r\n$1\r\nt\r\n".to_string())
    );
}

#[test]
fn a_frame_without_a_request_gets_no_reply() {
    let mut db = store();
    assert_eq!(serve(&mut db, &[0u8; 32], 0), None);
    assert_eq!(serve(&mut db, &[], 0), None);
    assert_eq!(serve(&mut db, &[0, b'*', b'1'], 0), None);
}

#[test]
fn a_broken_frame_gets_an_error_reply_and_changes_nothing() {
    let mut db = store();
    assert_eq!(
        serve(&mut db, b"SET foo bar\r\n", 0),
        Some("-Failed to parse message: malformed request\r\n".to_string())
    );
    assert_eq!(
        serve(&mut db, b"*2\r\n$3\r\nSET\r\n$3\r\nfoo\r\n", 0),
        Some("-Failed to parse message: SET - too few tokens\r\n".to_string())
    );
    assert_eq!(
        serve(&mut db, b"*1\r\n$5\r\nHELLO\r\n", 0),
        Some("-INVALID COMMAND\r\n".to_string())
    );
    assert_eq!(serve(&mut db, b"*0\r\n", 0), Some("-INVALID COMMAND\r\n".to_string()));
    assert_eq!(db.get_key_list(), Vec::<String>::new());
}

#[test]
fn tells_a_frame_without_a_request() {
    assert!(is_idle(&[]));
    assert!(is_idle(&[0, 1, 2]));
    assert!(!is_idle(b"*1\r\n"));
}

#[test]
fn a_written_array_decodes_to_its_items() {
    for items in [
        words(&[]),
        words(&["PING"]),
        words(&["SET", "k\r\n", "", "px", "10"]),
        words(&["caf\u{e9}", "0123456789abcdef"]),
    ] {
        let mut frame = array(&items).into_bytes();
        assert_eq!(decode_tokens(&frame), Some(items.clone()));
        frame.extend_from_slice(&[0, 0, b'$']);
        assert_eq!(decode_tokens(&frame), Some(items));
    }
}
