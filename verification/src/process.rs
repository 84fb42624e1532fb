//! Replies: how they are written, and which one a command gets.

use crate::database::{config_spec, Database, Stored};
use crate::number::{decimal, decimal_text};
use crate::redis_message::{parse_spec, texts, Commands, RedisCommand, Request, RequestError};
use vstd::prelude::*;
use vstd::string::StringExecFns;
use vstd::utf8::encode_utf8;

verus! {

/// A simple reply: a plus sign, the message, and the end of the line.
pub open spec fn simple_reply(message: Seq<char>) -> Seq<char> {
    "+"@ + message + "\r\n"@
}

/// The null reply.
pub open spec fn null_reply() -> Seq<char> {
    "$-1\r\n"@
}

/// An error reply: a dash, the message, and the end of the line.
pub open spec fn error_reply(message: Seq<char>) -> Seq<char> {
    "-"@ + message + "\r\n"@
}

/// A bulk string: a dollar sign, the number of bytes of the item's UTF-8
/// encoding, the end of the line, the item, and the end of the line.
pub open spec fn bulk(item: Seq<char>) -> Seq<char> {
    "$"@ + decimal(encode_utf8(item).len()) + "\r\n"@ + item + "\r\n"@
}

/// The items as bulk strings, one after the other.
pub open spec fn bulks(items: Seq<Seq<char>>) -> Seq<char>
    decreases items.len(),
{
    if items.len() == 0 {
        Seq::empty()
    } else {
        bulks(items.drop_last()) + bulk(items.last())
    }
}

/// An array reply: a star, the number of items, the end of the line, and
/// each item as a bulk string, in order.
pub open spec fn array_reply(items: Seq<Seq<char>>) -> Seq<char> {
    "*"@ + decimal(items.len()) + "\r\n"@ + bulks(items)
}

/// Writes a simple reply.
pub fn result(msg: &str) -> (r: String)
    ensures
        r@ == simple_reply(msg@),
{
    let mut r = "+".to_owned();
    r.append(msg);
    r.append("\r\n");
    r
}

/// Writes the null reply.
pub fn null() -> (r: String)
    ensures
        r@ == null_reply(),
{
    "$-1\r\n".to_owned()
}

/// Writes an error reply.
pub fn error(msg: &str) -> (r: String)
    ensures
        r@ == error_reply(msg@),
{
    let mut r = "-".to_owned();
    r.append(msg);
    r.append("\r\n");
    r
}

/// Writes an array reply.
pub fn array(items: &Vec<String>) -> (r: String)
    ensures
        r@ == array_reply(texts(items@)),
{
    let mut r = "*".to_owned();
    r.append(decimal_text(items.len() as u64).as_str());
    r.append("\r\n");
    let ghost head = r@;
    let mut i: usize = 0;
    assert(texts(items@).take(0) =~= Seq::<Seq<char>>::empty());
    assert(r@ =~= head + bulks(texts(items@).take(0)));
    while i < items.len()
        invariant
            i <= items.len(),
            head == "*"@ + decimal(items@.len()) + "\r\n"@,
            r@ == head + bulks(texts(items@).take(i as int)),
        decreases items.len() - i,
    {
        let item: &str = items[i].as_str();
        assert(texts(items@).take(i + 1).drop_last() =~= texts(items@).take(i as int));
        assert(texts(items@).take(i + 1).last() == item@);
        let ghost before = r@;
        let size: usize = item.as_bytes().len();
        r.append("$");
        r.append(decimal_text(size as u64).as_str());
        r.append("\r\n");
        r.append(item);
        r.append("\r\n");
        assert(r@ =~= before + bulk(item@));
        assert(bulks(texts(items@).take(i + 1)) == bulks(texts(items@).take(i as int)) + bulk(
            item@,
        ));
        assert(r@ =~= head + bulks(texts(items@).take(i + 1)));
        i += 1;
    }
    assert(texts(items@).take(items.len() as int) =~= texts(items@));
    r
}

/// The reply that a command gets from a store at the instant `now`.
///
/// `GET` answers with the value as a simple reply, or with the null reply
/// where the key reads as absent. `KEYS` lists every stored key. `CONFIG GET`
/// answers with the name and its value, or with an error for a name that the
/// configuration does not hold.
pub open spec fn reply_spec(
    store: Stored,
    dir: Seq<char>,
    dbfilename: Seq<char>,
    request: Request,
    now: u64,
) -> Seq<char> {
    match request.command {
        Commands::Command => simple_reply("CONNECTED"@),
        Commands::Ping => simple_reply("PONG"@),
        Commands::Keys => array_reply(store.keys),
        Commands::Get => match store.value_at(request.tokens[0], now) {
            Some(value) => simple_reply(value),
            None => null_reply(),
        },
        Commands::SetKey => simple_reply("OK"@),
        Commands::Echo => simple_reply(request.tokens[0]),
        Commands::ConfigGet => match config_spec(dir, dbfilename, request.tokens[0]) {
            Some(pair) => array_reply(pair),
            None => error_reply("Unsupported key"@),
        },
        Commands::Invalid => error_reply("INVALID COMMAND"@),
    }
}

/// The store after a command: `SET` writes its value under its key, with the
/// command's expiry; no other command changes the store.
pub open spec fn store_after(store: Stored, request: Request) -> Stored {
    if request.command == Commands::SetKey {
        store.put(request.tokens[0], request.tokens[1], request.expiry)
    } else {
        store
    }
}

/// The reply to a request that gave no command.
pub open spec fn failure_reply(e: RequestError) -> Seq<char> {
    error_reply("Failed to parse message: "@ + e.message_spec())
}

/// Whether a frame holds no request yet: it is empty or starts with a zero
/// byte.
pub open spec fn idle(frame: Seq<u8>) -> bool {
    frame.len() == 0 || frame[0] == 0
}

/// What serving a frame gives at the instant `now`: the store afterwards
/// and the reply, if the frame holds a request.
pub open spec fn serve_spec(
    store: Stored,
    dir: Seq<char>,
    dbfilename: Seq<char>,
    frame: Seq<u8>,
    now: u64,
) -> (Stored, Option<Seq<char>>) {
    if idle(frame) {
        (store, None)
    } else {
        match parse_spec(frame, now) {
            Err(e) => (store, Some(failure_reply(e))),
            Ok(request) => (
                store_after(store, request),
                Some(reply_spec(store, dir, dbfilename, request, now)),
            ),
        }
    }
}

/// Whether a frame holds no request yet.
pub fn is_idle(frame: &[u8]) -> (r: bool)
    ensures
        r == idle(frame@),
{
    frame.len() == 0 || frame[0] == 0
}

/// Answers a command that does not change the store.
pub fn answer(database: &Database, redis_cmd: &RedisCommand, now: u64) -> (r: String)
    requires
        redis_cmd@.well_formed(),
        redis_cmd.command != Commands::SetKey,
    ensures
        r@ == reply_spec(
            database@,
            database.dir_view(),
            database.dbfilename_view(),
            redis_cmd@,
            now,
        ),
{
    match redis_cmd.command {
        Commands::Command => result("CONNECTED"),
        Commands::Ping => result("PONG"),
        Commands::Keys => {
            let keys = database.get_key_list();
            array(&keys)
        },
        Commands::Get => {
            assert(redis_cmd@.tokens[0] == redis_cmd.tokens@[0]@);
            match database.get(redis_cmd.tokens[0].as_str(), now) {
                Some(value) => result(value.as_str()),
                None => null(),
            }
        },
        Commands::SetKey => result("OK"),
        Commands::Echo => {
            assert(redis_cmd@.tokens[0] == redis_cmd.tokens@[0]@);
            result(redis_cmd.tokens[0].as_str())
        },
        Commands::ConfigGet => {
            assert(redis_cmd@.tokens[0] == redis_cmd.tokens@[0]@);
            match database.config_get(redis_cmd.tokens[0].as_str()) {
                Some(pair) => array(&pair),
                None => error("Unsupported key"),
            }
        },
        Commands::Invalid => error("INVALID COMMAND"),
    }
}

/// Carries out a command and answers it.
pub fn execute(database: &mut Database, redis_cmd: &RedisCommand, now: u64) -> (r: String)
    requires
        redis_cmd@.well_formed(),
    ensures
        r@ == reply_spec(
            old(database)@,
            old(database).dir_view(),
            old(database).dbfilename_view(),
            redis_cmd@,
            now,
        ),
        final(database)@ == store_after(old(database)@, redis_cmd@),
        old(database)@.wf() ==> final(database)@.wf(),
        final(database).dir_view() == old(database).dir_view(),
        final(database).dbfilename_view() == old(database).dbfilename_view(),
{
    match redis_cmd.command {
        Commands::SetKey => {
            assert(redis_cmd@.tokens[0] == redis_cmd.tokens@[0]@);
            assert(redis_cmd@.tokens[1] == redis_cmd.tokens@[1]@);
            database.set(redis_cmd.tokens[0].clone(), redis_cmd.tokens[1].clone(), redis_cmd.expiry);
            result("OK")
        },
        _ => answer(database, redis_cmd, now),
    }
}

/// Answers a request that gave no command.
pub fn failure(e: &RequestError) -> (r: String)
    ensures
        r@ == failure_reply(*e),
{
    let mut message = "Failed to parse message: ".to_owned();
    message.append(e.message().as_str());
    error(message.as_str())
}

/// Serves one frame at the instant `now`, in milliseconds since the Unix
/// epoch: decodes the request, carries out its command, and writes the
/// reply. A frame that holds no request yet gets none.
pub fn serve(database: &mut Database, frame: &[u8], now: u64) -> (r: Option<String>)
    ensures
        ({
            let (store, reply) = serve_spec(
                old(database)@,
                old(database).dir_view(),
                old(database).dbfilename_view(),
                frame@,
                now,
            );
            &&& final(database)@ == store
            &&& match r {
                Some(text) => reply == Some(text@),
                None => reply is None,
            }
        }),
        old(database)@.wf() ==> final(database)@.wf(),
        final(database).dir_view() == old(database).dir_view(),
        final(database).dbfilename_view() == old(database).dbfilename_view(),
{
    if is_idle(frame) {
        return None;
    }
    match RedisCommand::parse_request(frame, now) {
        Ok(redis_cmd) => Some(execute(database, &redis_cmd, now)),
        Err(e) => Some(failure(&e)),
    }
}

} // verus!
