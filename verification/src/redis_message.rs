//! Requests: the wire format that carries them, and the commands that they
//! name.

use crate::number::{parse_u64, parse_u64_in, parse_u64_spec};
use crate::expiry::{expiry_of, NEVER};
use crate::text::{lowercase, lowercase_of, same_text, text_of};
use vstd::prelude::*;
use vstd::slice::{slice_subrange, slice_to_vec};
use vstd::string::StringExecFns;
use vstd::utf8::{decode_utf8, encode_utf8, valid_utf8};

verus! {

/// The kinds of command.
#[derive(Clone, Copy, Debug, PartialEq, Eq, Structural)]
pub enum Commands {
    /// `COMMAND`: the greeting of a client.
    Command,
    /// `KEYS`: lists the stored keys.
    Keys,
    /// `GET key`.
    Get,
    /// `PING`.
    Ping,
    /// `ECHO message`.
    Echo,
    /// `SET key value [PX milliseconds]`.
    SetKey,
    /// `CONFIG GET name`.
    ConfigGet,
    /// Anything else.
    Invalid,
}

/// What is wrong with the tokens of a command.
#[derive(Clone, Copy, Debug, PartialEq, Eq, Structural)]
pub enum ArityReason {
    /// More tokens than the command takes.
    TooManyTokens,
    /// Fewer tokens than the command takes.
    TooFewTokens,
    /// `SET` names a unit of time and no amount.
    MissingTimeValue,
    /// The amount of time of `SET` is no number.
    InvalidTimeValue,
}

/// A command whose tokens do not fit it.
#[derive(Clone, Copy, Debug, PartialEq, Eq, Structural)]
pub struct ArityError {
    /// The command.
    pub command: Commands,
    /// What is wrong with its tokens.
    pub reason: ArityReason,
}

/// Why a request gave no command.
#[derive(Clone, Copy, Debug, PartialEq, Eq, Structural)]
pub enum RequestError {
    /// The request is not framed as an array of bulk strings.
    ProtocolParseError,
    /// The tokens do not fit the command that they name.
    ArityError(ArityError),
}

/// A command as plain values.
pub struct Request {
    /// The kind of command.
    pub command: Commands,
    /// The arguments: the tokens after the command's own words.
    pub tokens: Seq<Seq<char>>,
    /// For `SET`, the instant at which the entry expires, in milliseconds
    /// since the Unix epoch; `NEVER` otherwise.
    pub expiry: u64,
}

impl Request {
    /// Whether the command has the arguments that its kind takes: one for
    /// `GET`, `ECHO` and `CONFIG GET`, and for `SET` the key and the value,
    /// alone or with a unit and an amount of time.
    pub open spec fn well_formed(self) -> bool {
        match self.command {
            Commands::Get | Commands::Echo | Commands::ConfigGet => self.tokens.len() == 1,
            Commands::SetKey => self.tokens.len() == 2 || self.tokens.len() == 4,
            _ => true,
        }
    }
}

/// A command with its arguments.
#[derive(Debug)]
pub struct RedisCommand {
    /// The kind of command.
    pub command: Commands,
    /// The arguments: the tokens after the command's own words.
    pub tokens: Vec<String>,
    /// For `SET`, the instant at which the entry expires, in milliseconds
    /// since the Unix epoch; `NEVER` otherwise.
    pub expiry: u64,
}

/// The texts of `tokens`.
pub open spec fn texts(tokens: Seq<String>) -> Seq<Seq<char>> {
    tokens.map_values(|t: String| t@)
}

impl View for RedisCommand {
    type V = Request;

    open spec fn view(&self) -> Request {
        Request { command: self.command, tokens: texts(self.tokens@), expiry: self.expiry }
    }
}

impl Commands {
    /// The command that two lowercase words name. The second word counts for
    /// `config get` alone.
    pub open spec fn of_words(first: Seq<char>, second: Seq<char>) -> Commands {
        if first == "command"@ {
            Commands::Command
        } else if first == "keys"@ {
            Commands::Keys
        } else if first == "ping"@ {
            Commands::Ping
        } else if first == "echo"@ {
            Commands::Echo
        } else if first == "get"@ {
            Commands::Get
        } else if first == "set"@ {
            Commands::SetKey
        } else if first == "config"@ && second == "get"@ {
            Commands::ConfigGet
        } else {
            Commands::Invalid
        }
    }

    /// The command that the first tokens of a request name, whatever their
    /// case. No token names no command.
    pub open spec fn of_tokens(tokens: Seq<Seq<char>>) -> Commands {
        if tokens.len() == 0 {
            Commands::Invalid
        } else if tokens.len() == 1 {
            Self::of_words(lowercase_of(tokens[0]), lowercase_of(""@))
        } else {
            Self::of_words(lowercase_of(tokens[0]), lowercase_of(tokens[1]))
        }
    }

    /// The command that two lowercase words name.
    pub fn classify(first: &str, second: &str) -> (r: Commands)
        ensures
            r == Self::of_words(first@, second@),
    {
        if same_text(first, "command") {
            Commands::Command
        } else if same_text(first, "keys") {
            Commands::Keys
        } else if same_text(first, "ping") {
            Commands::Ping
        } else if same_text(first, "echo") {
            Commands::Echo
        } else if same_text(first, "get") {
            Commands::Get
        } else if same_text(first, "set") {
            Commands::SetKey
        } else if same_text(first, "config") && same_text(second, "get") {
            Commands::ConfigGet
        } else {
            Commands::Invalid
        }
    }

    /// The command that two tokens name, whatever their case.
    pub fn from_str(token1: &str, token2: &str) -> (r: Commands)
        ensures
            r == Self::of_words(lowercase_of(token1@), lowercase_of(token2@)),
    {
        let first = lowercase(token1);
        let second = lowercase(token2);
        Self::classify(first.as_str(), second.as_str())
    }

    /// The name of the command in error messages.
    pub open spec fn label(self) -> Seq<char> {
        match self {
            Commands::Command => "COMMAND"@,
            Commands::Keys => "KEYS"@,
            Commands::Get => "GET"@,
            Commands::Ping => "PING"@,
            Commands::Echo => "ECHO"@,
            Commands::SetKey => "SET"@,
            Commands::ConfigGet => "config get"@,
            Commands::Invalid => "INVALID"@,
        }
    }
}

impl ArityReason {
    /// The reason in words.
    pub open spec fn text(self) -> Seq<char> {
        match self {
            ArityReason::TooManyTokens => "too many tokens"@,
            ArityReason::TooFewTokens => "too few tokens"@,
            ArityReason::MissingTimeValue => "missing time value"@,
            ArityReason::InvalidTimeValue => "invalid time value"@,
        }
    }
}

impl ArityError {
    /// The message of the error: the command, a dash, and the reason.
    pub open spec fn message_spec(self) -> Seq<char> {
        self.command.label() + " - "@ + self.reason.text()
    }

    /// The message of the error.
    pub fn message(&self) -> (r: String)
        ensures
            r@ == self.message_spec(),
    {
        let label: &str = match self.command {
            Commands::Command => "COMMAND",
            Commands::Keys => "KEYS",
            Commands::Get => "GET",
            Commands::Ping => "PING",
            Commands::Echo => "ECHO",
            Commands::SetKey => "SET",
            Commands::ConfigGet => "config get",
            Commands::Invalid => "INVALID",
        };
        let reason: &str = match self.reason {
            ArityReason::TooManyTokens => "too many tokens",
            ArityReason::TooFewTokens => "too few tokens",
            ArityReason::MissingTimeValue => "missing time value",
            ArityReason::InvalidTimeValue => "invalid time value",
        };
        let mut r = label.to_owned();
        r.append(" - ");
        r.append(reason);
        r
    }
}

impl RequestError {
    /// The message of the error.
    pub open spec fn message_spec(self) -> Seq<char> {
        match self {
            RequestError::ProtocolParseError => "malformed request"@,
            RequestError::ArityError(e) => e.message_spec(),
        }
    }

    /// The message of the error.
    pub fn message(&self) -> (r: String)
        ensures
            r@ == self.message_spec(),
    {
        match self {
            RequestError::ProtocolParseError => "malformed request".to_owned(),
            RequestError::ArityError(e) => e.message(),
        }
    }
}

/// What is wrong with `count` tokens for `command`, if anything. `time` is
/// what the fifth token of a `SET` reads as.
pub open spec fn arity_fault(command: Commands, count: nat, time: Option<u64>) -> Option<
    ArityReason,
> {
    match command {
        Commands::Echo | Commands::Get => if count >= 3 {
            Some(ArityReason::TooManyTokens)
        } else if count <= 1 {
            Some(ArityReason::TooFewTokens)
        } else {
            None
        },
        Commands::SetKey => if count >= 6 {
            Some(ArityReason::TooManyTokens)
        } else if count <= 2 {
            Some(ArityReason::TooFewTokens)
        } else if count == 4 {
            Some(ArityReason::MissingTimeValue)
        } else if count == 5 && time is None {
            Some(ArityReason::InvalidTimeValue)
        } else {
            None
        },
        Commands::ConfigGet => if count >= 4 {
            Some(ArityReason::TooManyTokens)
        } else if count <= 2 {
            Some(ArityReason::TooFewTokens)
        } else {
            None
        },
        _ => None,
    }
}

/// The amount of time that the tokens of a `SET` give: what the fifth token
/// reads as, where there are five.
pub open spec fn time_value(tokens: Seq<Seq<char>>) -> Option<u64> {
    if tokens.len() == 5 {
        parse_u64_spec(encode_utf8(tokens[4]))
    } else {
        None
    }
}

/// The command of kind `command` that `tokens` make at the instant `now`, or
/// what is wrong with them.
///
/// The arguments are the tokens without the command's own words: two words
/// for `CONFIG GET`, one for any other command. A `SET` with an amount of
/// time expires that many milliseconds after `now`; any other command gets
/// `NEVER`.
pub open spec fn build_spec(command: Commands, tokens: Seq<Seq<char>>, now: u64) -> Result<
    Request,
    ArityError,
> {
    match arity_fault(command, tokens.len(), time_value(tokens)) {
        Some(reason) => Err(ArityError { command, reason }),
        None => Ok(
            Request {
                command,
                tokens: if command == Commands::ConfigGet {
                    tokens.skip(2)
                } else if tokens.len() > 0 {
                    tokens.skip(1)
                } else {
                    tokens
                },
                expiry: if command == Commands::SetKey && tokens.len() == 5 {
                    expiry_of((now + time_value(tokens).unwrap()) as nat)
                } else {
                    NEVER
                },
            },
        ),
    }
}

/// The byte that ends the text of a line.
pub const CR: u8 = 0x0D;

/// The byte that follows it.
pub const LF: u8 = 0x0A;

/// The byte that opens an array: `*`.
pub const ARRAY: u8 = 0x2A;

/// The byte that opens a bulk string: `$`.
pub const BULK: u8 = 0x24;

/// The position of the first `CR` at or after `from`, or the end of `buf`
/// where there is none.
pub open spec fn line_end(buf: Seq<u8>, from: int) -> int
    decreases buf.len() - from,
{
    if from < 0 || from >= buf.len() {
        buf.len() as int
    } else if buf[from] == CR {
        from
    } else {
        line_end(buf, from + 1)
    }
}

/// The number of the header line at `pos`, and the position after the line:
/// the byte `marker`, a number, `CR` and `LF`.
pub open spec fn decode_header(buf: Seq<u8>, pos: int, marker: u8) -> Option<(u64, int)> {
    let end = line_end(buf, pos + 1);
    if 0 <= pos < buf.len() && buf[pos] == marker && end + 2 <= buf.len() && buf[end + 1] == LF {
        match parse_u64_spec(buf.subrange(pos + 1, end)) {
            Some(number) => Some((number, end + 2)),
            None => None,
        }
    } else {
        None
    }
}

/// The bulk string at `pos`, and the position after it: a header line with
/// the number of bytes, that many bytes of UTF-8 text, `CR` and `LF`.
pub open spec fn decode_bulk(buf: Seq<u8>, pos: int) -> Option<(Seq<char>, int)> {
    match decode_header(buf, pos, BULK) {
        None => None,
        Some((size, start)) => {
            if start + size + 2 <= buf.len() && buf[start + size] == CR && buf[start + size + 1]
                == LF && valid_utf8(buf.subrange(start, start + size)) {
                Some((decode_utf8(buf.subrange(start, start + size)), start + size + 2))
            } else {
                None
            }
        },
    }
}

/// `found` and after it the `count` bulk strings that stand one after the
/// other at `pos`.
pub open spec fn decode_bulks(buf: Seq<u8>, pos: int, count: nat, found: Seq<Seq<char>>) -> Option<
    Seq<Seq<char>>,
>
    decreases count,
{
    if count == 0 {
        Some(found)
    } else {
        match decode_bulk(buf, pos) {
            None => None,
            Some((text, next)) => decode_bulks(buf, next, (count - 1) as nat, found.push(text)),
        }
    }
}

/// The tokens of the request in `buf`: an array header with the number of
/// tokens, then each token as a bulk string. What follows the last token is
/// not read.
pub open spec fn decode_request(buf: Seq<u8>) -> Option<Seq<Seq<char>>> {
    match decode_header(buf, 0, ARRAY) {
        None => None,
        Some((count, start)) => decode_bulks(buf, start, count as nat, Seq::empty()),
    }
}

/// What a request gives at the instant `now`: the command that its tokens
/// make, or why there is none.
pub open spec fn parse_spec(buf: Seq<u8>, now: u64) -> Result<Request, RequestError> {
    match decode_request(buf) {
        None => Err(RequestError::ProtocolParseError),
        Some(tokens) => match build_spec(Commands::of_tokens(tokens), tokens, now) {
            Err(e) => Err(RequestError::ArityError(e)),
            Ok(request) => Ok(request),
        },
    }
}

/// The line that starts at `from` ends at or after `from`, inside the
/// buffer, and holds no `CR`.
pub proof fn lemma_line_end(buf: Seq<u8>, from: int)
    requires
        0 <= from <= buf.len(),
    ensures
        from <= line_end(buf, from) <= buf.len(),
        line_end(buf, from) < buf.len() ==> buf[line_end(buf, from)] == CR,
        forall|i: int| from <= i < line_end(buf, from) ==> buf[i] != CR,
    decreases buf.len() - from,
{
    if from < buf.len() && buf[from] != CR {
        lemma_line_end(buf, from + 1);
    }
}

/// Finds the end of the line that starts at `from`.
fn find_line_end(buf: &[u8], from: usize) -> (r: usize)
    requires
        from <= buf.len(),
    ensures
        r == line_end(buf@, from as int),
{
    let mut i: usize = from;
    while i < buf.len() && buf[i] != CR
        invariant
            from <= i <= buf.len(),
            line_end(buf@, from as int) == line_end(buf@, i as int),
        decreases buf.len() - i,
    {
        i += 1;
    }
    i
}

/// Reads the header line at `pos`.
fn read_header(buf: &[u8], pos: usize, marker: u8) -> (r: Option<(u64, usize)>)
    ensures
        match r {
            Some((number, next)) => decode_header(buf@, pos as int, marker) == Some(
                (number, next as int),
            ),
            None => decode_header(buf@, pos as int, marker) is None,
        },
{
    if pos >= buf.len() || buf[pos] != marker {
        return None;
    }
    let end = find_line_end(buf, pos + 1);
    proof {
        lemma_line_end(buf@, pos + 1);
    }
    if buf.len() - end < 2 || buf[end + 1] != LF {
        return None;
    }
    match parse_u64_in(buf, pos + 1, end) {
        Some(number) => Some((number, end + 2)),
        None => None,
    }
}

/// Reads the bulk string at `pos`.
fn read_bulk(buf: &[u8], pos: usize) -> (r: Option<(String, usize)>)
    ensures
        match r {
            Some((text, next)) => decode_bulk(buf@, pos as int) == Some((text@, next as int)),
            None => decode_bulk(buf@, pos as int) is None,
        },
{
    let (size, start) = match read_header(buf, pos, BULK) {
        Some(found) => found,
        None => {
            return None;
        },
    };
    proof {
        lemma_line_end(buf@, pos + 1);
    }
    let left: usize = buf.len() - start;
    if left < 2 || size > (left - 2) as u64 {
        return None;
    }
    let stop: usize = start + size as usize;
    if buf[stop] != CR || buf[stop + 1] != LF {
        return None;
    }
    match text_of(slice_to_vec(slice_subrange(buf, start, stop))) {
        Some(text) => Some((text, stop + 2)),
        None => None,
    }
}

/// Decodes the tokens of a request.
pub fn decode_tokens(request: &[u8]) -> (r: Option<Vec<String>>)
    ensures
        match r {
            Some(tokens) => decode_request(request@) == Some(texts(tokens@)),
            None => decode_request(request@) is None,
        },
{
    let (count, start) = match read_header(request, 0, ARRAY) {
        Some(found) => found,
        None => {
            return None;
        },
    };
    let mut tokens: Vec<String> = Vec::new();
    let mut left: u64 = count;
    let mut pos: usize = start;
    assert(texts(tokens@) =~= Seq::<Seq<char>>::empty());
    while left > 0
        invariant
            decode_request(request@) == decode_bulks(
                request@,
                pos as int,
                left as nat,
                texts(tokens@),
            ),
        decreases left,
    {
        let (text, next) = match read_bulk(request, pos) {
            Some(found) => found,
            None => {
                return None;
            },
        };
        let ghost before = tokens@;
        tokens.push(text);
        assert(texts(tokens@) =~= texts(before).push(text@));
        pos = next;
        left -= 1;
    }
    Some(tokens)
}

impl RedisCommand {
    /// The command of kind `command` that `tokens` make at the instant `now`.
    pub fn assemble(command: Commands, tokens: Vec<String>, now: u64) -> (r: Result<
        RedisCommand,
        ArityError,
    >)
        ensures
            match r {
                Ok(c) => build_spec(command, texts(tokens@), now) == Ok::<Request, ArityError>(c@)
                    && c@.well_formed(),
                Err(e) => build_spec(command, texts(tokens@), now) == Err::<Request, ArityError>(
                    e,
                ),
            },
    {
        let count = tokens.len();
        let mut expiry: u64 = NEVER;
        match command {
            Commands::Echo | Commands::Get => {
                if count >= 3 {
                    return Err(ArityError { command, reason: ArityReason::TooManyTokens });
                } else if count <= 1 {
                    return Err(ArityError { command, reason: ArityReason::TooFewTokens });
                }
            },
            Commands::SetKey => {
                if count >= 6 {
                    return Err(ArityError { command, reason: ArityReason::TooManyTokens });
                } else if count <= 2 {
                    return Err(ArityError { command, reason: ArityReason::TooFewTokens });
                } else if count == 4 {
                    return Err(ArityError { command, reason: ArityReason::MissingTimeValue });
                } else if count == 5 {
                    assert(texts(tokens@)[4] == tokens@[4]@);
                    match parse_u64(tokens[4].as_str().as_bytes()) {
                        Some(millis) => {
                            expiry = now.saturating_add(millis);
                        },
                        None => {
                            return Err(
                                ArityError { command, reason: ArityReason::InvalidTimeValue },
                            );
                        },
                    }
                }
            },
            Commands::ConfigGet => {
                if count >= 4 {
                    return Err(ArityError { command, reason: ArityReason::TooManyTokens });
                } else if count <= 2 {
                    return Err(ArityError { command, reason: ArityReason::TooFewTokens });
                }
            },
            _ => {},
        }
        let mut tokens = tokens;
        let ghost all = tokens@;
        if count > 0 {
            tokens.remove(0);
        }
        match command {
            Commands::ConfigGet => {
                tokens.remove(0);
                assert(texts(tokens@) =~= texts(all).skip(2));
            },
            _ => {
                assert(texts(tokens@) =~= if all.len() > 0 {
                    texts(all).skip(1)
                } else {
                    texts(all)
                });
            },
        }
        Ok(RedisCommand { command, tokens, expiry })
    }

    /// The command that `tokens` make at the instant `now`, in milliseconds
    /// since the Unix epoch.
    pub fn new(tokens: Vec<String>, now: u64) -> (r: Result<RedisCommand, ArityError>)
        ensures
            match r {
                Ok(c) => build_spec(Commands::of_tokens(texts(tokens@)), texts(tokens@), now)
                    == Ok::<Request, ArityError>(c@) && c@.well_formed(),
                Err(e) => build_spec(Commands::of_tokens(texts(tokens@)), texts(tokens@), now)
                    == Err::<Request, ArityError>(e),
            },
    {
        let command = if tokens.len() > 1 {
            Commands::from_str(tokens[0].as_str(), tokens[1].as_str())
        } else if tokens.len() == 1 {
            Commands::from_str(tokens[0].as_str(), "")
        } else {
            Commands::Invalid
        };
        Self::assemble(command, tokens, now)
    }

    /// Decodes a request, at the instant `now` in milliseconds since the Unix
    /// epoch, into the command that it carries.
    pub fn parse_request(request: &[u8], now: u64) -> (r: Result<RedisCommand, RequestError>)
        ensures
            match r {
                Ok(c) => parse_spec(request@, now) == Ok::<Request, RequestError>(c@)
                    && c@.well_formed(),
                Err(e) => parse_spec(request@, now) == Err::<Request, RequestError>(e),
            },
    {
        let tokens = match decode_tokens(request) {
            Some(tokens) => tokens,
            None => {
                return Err(RequestError::ProtocolParseError);
            },
        };
        match RedisCommand::new(tokens, now) {
            Ok(command) => Ok(command),
            Err(e) => Err(RequestError::ArityError(e)),
        }
    }

    /// Whether the command has the arguments that its kind takes.
    pub fn is_well_formed(&self) -> (r: bool)
        ensures
            r == self@.well_formed(),
    {
        let count = self.tokens.len();
        match self.command {
            Commands::Get | Commands::Echo | Commands::ConfigGet => count == 1,
            Commands::SetKey => count == 2 || count == 4,
            _ => true,
        }
    }

    /// Whether carrying out the command changes the store.
    pub fn mutates(&self) -> (r: bool)
        ensures
            r == (self.command == Commands::SetKey),
    {
        match self.command {
            Commands::SetKey => true,
            _ => false,
        }
    }
}

} // verus!
