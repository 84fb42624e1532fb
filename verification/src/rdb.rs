//! The snapshot format: its length and string encodings, and the loader that
//! turns a snapshot into records.

use crate::endian::{big_endian, little_endian, read_be_u32, read_le_u16, read_le_u32, read_le_u64};
use crate::expiry::{expiry_of, NEVER};
use crate::number::{decimal, decimal_text};
use crate::text::{is_ascii_bytes, lemma_ascii_is_utf8, text_of};
use vstd::prelude::*;
use vstd::slice::{slice_subrange, slice_to_vec};
use vstd::utf8::{decode_utf8, valid_utf8};

pub mod op_code;

verus! {

/// Why a snapshot could not be read.
#[derive(Clone, Copy, Debug, PartialEq, Eq, Structural)]
pub enum SnapshotError {
    /// A string is stored compressed.
    UnsupportedEncoding,
    /// A string's bytes are cut short or are not UTF-8.
    InvalidEncoding,
    /// The snapshot's structure is broken.
    MalformedSnapshot,
}

/// What decoding a length gives: the value, the position after it, and
/// whether the value is an integer that stands for a string.
pub type Length = (nat, int, bool);

/// The length that is encoded at `pos`.
///
/// The top two bits of the first byte select the layout: the low six bits
/// alone; the low six bits and the next byte, most significant first; the
/// next four bytes, most significant first; or an integer of one, two or four
/// bytes, least significant first, that stands for a string.
pub open spec fn decode_length(buf: Seq<u8>, pos: int) -> Result<Length, SnapshotError> {
    if pos < 0 || pos >= buf.len() {
        Err(SnapshotError::MalformedSnapshot)
    } else {
        let first = buf[pos];
        let low = (first % 64) as nat;
        if first / 64 == 0 {
            Ok((low, pos + 1, false))
        } else if first / 64 == 1 {
            if pos + 2 <= buf.len() {
                Ok((256 * low + buf[pos + 1] as nat, pos + 2, false))
            } else {
                Err(SnapshotError::MalformedSnapshot)
            }
        } else if first / 64 == 2 {
            if pos + 5 <= buf.len() {
                Ok((big_endian(buf.subrange(pos + 1, pos + 5)), pos + 5, false))
            } else {
                Err(SnapshotError::MalformedSnapshot)
            }
        } else if low == 0 {
            if pos + 2 <= buf.len() {
                Ok((buf[pos + 1] as nat, pos + 2, true))
            } else {
                Err(SnapshotError::MalformedSnapshot)
            }
        } else if low == 1 {
            if pos + 3 <= buf.len() {
                Ok((little_endian(buf.subrange(pos + 1, pos + 3)), pos + 3, true))
            } else {
                Err(SnapshotError::MalformedSnapshot)
            }
        } else if low == 2 {
            if pos + 5 <= buf.len() {
                Ok((little_endian(buf.subrange(pos + 1, pos + 5)), pos + 5, true))
            } else {
                Err(SnapshotError::MalformedSnapshot)
            }
        } else if low == 3 {
            Err(SnapshotError::UnsupportedEncoding)
        } else {
            Ok((0, pos + 1, true))
        }
    }
}

/// The string that is encoded at `pos`, and the position after it.
///
/// A length that stands for a string gives its decimal text. Any other length
/// counts the bytes of UTF-8 text that follow it.
pub open spec fn decode_string(buf: Seq<u8>, pos: int) -> Result<(Seq<char>, int), SnapshotError> {
    match decode_length(buf, pos) {
        Err(e) => Err(e),
        Ok((value, next, special)) => {
            if special {
                Ok((decimal(value), next))
            } else if next + value <= buf.len() && valid_utf8(
                buf.subrange(next, next + value),
            ) {
                Ok((decode_utf8(buf.subrange(next, next + value)), next + value))
            } else {
                Err(SnapshotError::InvalidEncoding)
            }
        },
    }
}


/// A record of a snapshot: key, value, and expiry in milliseconds since the
/// Unix epoch.
pub type Record = (Seq<char>, Seq<char>, u64);

/// What the scan of a snapshot's sections has gathered.
pub struct Scan {
    /// The records found, in order.
    pub records: Seq<Record>,
    /// The table size of the last database announced.
    pub hash_size: nat,
    /// The size of that database's table of expiring entries.
    pub expire_hash_size: nat,
}

/// What a snapshot holds.
pub struct Contents {
    /// The version that the header declares.
    pub version: Seq<char>,
    /// The records, in order.
    pub records: Seq<Record>,
    /// The table size of the last database announced, 0 without one.
    pub hash_size: nat,
    /// The size of that database's table of expiring entries.
    pub expire_hash_size: nat,
}

/// The marker that opens every snapshot: `REDIS`.
pub open spec fn magic() -> Seq<u8> {
    seq![0x52u8, 0x45u8, 0x44u8, 0x49u8, 0x53u8]
}

/// The error that the loader reports for an error of a decoder: a string
/// that cannot be decoded is a broken structure.
pub open spec fn structural(e: SnapshotError) -> SnapshotError {
    match e {
        SnapshotError::UnsupportedEncoding => SnapshotError::UnsupportedEncoding,
        _ => SnapshotError::MalformedSnapshot,
    }
}

/// The two strings that are encoded one after the other at `pos`, and the
/// position after them.
pub open spec fn decode_pair(buf: Seq<u8>, pos: int) -> Result<
    (Seq<char>, Seq<char>, int),
    SnapshotError,
> {
    match decode_string(buf, pos) {
        Err(e) => Err(structural(e)),
        Ok((first, middle)) => match decode_string(buf, middle) {
            Err(e) => Err(structural(e)),
            Ok((second, next)) => Ok((first, second, next)),
        },
    }
}

/// The two lengths that are encoded one after the other at `pos`, and the
/// position after them.
pub open spec fn decode_sizes(buf: Seq<u8>, pos: int) -> Result<(nat, nat, int), SnapshotError> {
    match decode_length(buf, pos) {
        Err(e) => Err(structural(e)),
        Ok((first, middle, _)) => match decode_length(buf, middle) {
            Err(e) => Err(structural(e)),
            Ok((second, next, _)) => Ok((first, second, next)),
        },
    }
}

/// The scan of the sections from `pos` on.
///
/// `pending` is the expiry that the next entry gets, `owed` the number of
/// entries that the database announced last still has to deliver, and `found`
/// what the scan has gathered so far.
///
/// An expiry section sets the expiry of the next entry, wherever it stands.
/// While entries are owed only an entry may follow: a value-type tag that is
/// no section marker, a key and a value. Otherwise a section marker opens its
/// section, the end marker stops the scan, and any other byte is the tag of
/// an entry. An entry takes the pending expiry with it. The scan ends at the
/// end marker or where the bytes end, and there no entry may be owed.
pub open spec fn scan(buf: Seq<u8>, pos: int, pending: u64, owed: nat, found: Scan) -> Result<
    Scan,
    SnapshotError,
>
    decreases buf.len() - pos,
    via scan_decreases
{
    if pos < 0 || pos >= buf.len() {
        if owed == 0 {
            Ok(found)
        } else {
            Err(SnapshotError::MalformedSnapshot)
        }
    } else if buf[pos] == op_code::EXPIRETIME_MS {
        if pos + 9 <= buf.len() {
            scan(
                buf,
                pos + 9,
                expiry_of(little_endian(buf.subrange(pos + 1, pos + 9))),
                owed,
                found,
            )
        } else {
            Err(SnapshotError::MalformedSnapshot)
        }
    } else if buf[pos] == op_code::EXPIRETIME {
        if pos + 5 <= buf.len() {
            scan(
                buf,
                pos + 5,
                expiry_of(1000 * little_endian(buf.subrange(pos + 1, pos + 5))),
                owed,
                found,
            )
        } else {
            Err(SnapshotError::MalformedSnapshot)
        }
    } else if buf[pos] < op_code::AUX {
        match decode_pair(buf, pos + 1) {
            Err(e) => Err(e),
            Ok((key, value, next)) => scan(
                buf,
                next,
                NEVER,
                if owed > 0 {
                    (owed - 1) as nat
                } else {
                    0
                },
                Scan { records: found.records.push((key, value, pending)), ..found },
            ),
        }
    } else if owed > 0 {
        Err(SnapshotError::MalformedSnapshot)
    } else if buf[pos] == op_code::AUX {
        match decode_pair(buf, pos + 1) {
            Err(e) => Err(e),
            Ok((_, _, next)) => scan(buf, next, pending, owed, found),
        }
    } else if buf[pos] == op_code::SELECTDB {
        if pos + 2 <= buf.len() {
            scan(buf, pos + 2, pending, owed, found)
        } else {
            Err(SnapshotError::MalformedSnapshot)
        }
    } else if buf[pos] == op_code::RESIZEDB {
        match decode_sizes(buf, pos + 1) {
            Err(e) => Err(e),
            Ok((size, expire_size, next)) => scan(
                buf,
                next,
                pending,
                size,
                Scan { records: found.records, hash_size: size, expire_hash_size: expire_size },
            ),
        }
    } else {
        Ok(found)
    }
}

#[via_fn]
proof fn scan_decreases(buf: Seq<u8>, pos: int, pending: u64, owed: nat, found: Scan) {
    lemma_decode_pair_bounds(buf, pos + 1);
    lemma_decode_sizes_bounds(buf, pos + 1);
}

/// What loading the snapshot `buf` gives.
///
/// A snapshot opens with the marker `REDIS` and a version of four ASCII
/// characters; its sections follow.
pub open spec fn load_spec(buf: Seq<u8>) -> Result<Contents, SnapshotError> {
    if buf.len() >= 9 && buf.subrange(0, 5) == magic() && is_ascii_bytes(buf.subrange(5, 9)) {
        match scan(
            buf,
            9,
            NEVER,
            0,
            Scan { records: Seq::empty(), hash_size: 0, expire_hash_size: 0 },
        ) {
            Err(e) => Err(e),
            Ok(found) => Ok(
                Contents {
                    version: decode_utf8(buf.subrange(5, 9)),
                    records: found.records,
                    hash_size: found.hash_size,
                    expire_hash_size: found.expire_hash_size,
                },
            ),
        }
    } else {
        Err(SnapshotError::MalformedSnapshot)
    }
}

/// The records of `data` as plain values.
pub open spec fn records_view(data: Seq<(String, String, u64)>) -> Seq<Record> {
    data.map_values(|r: (String, String, u64)| (r.0@, r.1@, r.2))
}

/// A decoded length lies past its first byte, inside the buffer, and is a
/// 32-bit value.
pub proof fn lemma_decode_length_bounds(buf: Seq<u8>, pos: int)
    ensures
        decode_length(buf, pos) matches Ok((value, next, _)) ==> pos < next <= buf.len() && value
            <= u32::MAX,
{
    if 0 <= pos && pos + 5 <= buf.len() {
        crate::endian::lemma_big_endian_4(buf.subrange(pos + 1, pos + 5));
        crate::endian::lemma_little_endian_4(buf.subrange(pos + 1, pos + 5));
    }
    if 0 <= pos && pos + 3 <= buf.len() {
        crate::endian::lemma_little_endian_2(buf.subrange(pos + 1, pos + 3));
    }
}

/// A decoded string ends past its first byte, inside the buffer.
pub proof fn lemma_decode_string_bounds(buf: Seq<u8>, pos: int)
    ensures
        decode_string(buf, pos) matches Ok((_, next)) ==> pos < next <= buf.len(),
{
    lemma_decode_length_bounds(buf, pos);
}

/// Two decoded strings end past the first one's first byte, inside the buffer.
pub proof fn lemma_decode_pair_bounds(buf: Seq<u8>, pos: int)
    ensures
        decode_pair(buf, pos) matches Ok((_, _, next)) ==> pos < next <= buf.len(),
{
    lemma_decode_string_bounds(buf, pos);
    if let Ok((_, middle)) = decode_string(buf, pos) {
        lemma_decode_string_bounds(buf, middle);
    }
}

/// Two decoded lengths end past the first one's first byte, inside the
/// buffer, and are 32-bit values.
pub proof fn lemma_decode_sizes_bounds(buf: Seq<u8>, pos: int)
    ensures
        decode_sizes(buf, pos) matches Ok((first, second, next)) ==> pos < next <= buf.len()
            && first <= u32::MAX && second <= u32::MAX,
{
    lemma_decode_length_bounds(buf, pos);
    if let Ok((_, middle, _)) = decode_length(buf, pos) {
        lemma_decode_length_bounds(buf, middle);
    }
}

/// How the first byte of a length splits into its top two and low six bits.
proof fn lemma_length_bits(first: u8)
    by (bit_vector)
    ensures
        first & 192 == 0 <==> first / 64 == 0,
        first & 192 == 64 <==> first / 64 == 1,
        first & 192 == 128 <==> first / 64 == 2,
        first & 192 == 192 <==> first / 64 == 3,
        first & 63 == first % 64,
        first / 64 == 0 ==> first % 64 == first,
{
}

/// A snapshot: its bytes, and what loading them gave.
pub struct RDB {
    /// The snapshot's bytes.
    pub buffer: Vec<u8>,
    /// The records, each a key, a value and an expiry in milliseconds since
    /// the Unix epoch, in the order in which the snapshot holds them.
    pub data: Vec<(String, String, u64)>,
    /// The version that the snapshot declares.
    pub version: String,
    /// The size of the last database's table.
    pub hash_size: usize,
    /// The size of the last database's table of expiring entries.
    pub expire_hash_size: usize,
}

impl RDB {
    /// Decodes the length at `p`.
    pub fn length_encoding(&self, p: usize) -> (r: Result<(usize, usize, bool), SnapshotError>)
        ensures
            match r {
                Ok((value, next, special)) => decode_length(self.buffer@, p as int) == Ok::<
                    Length,
                    SnapshotError,
                >((value as nat, next as int, special)),
                Err(e) => decode_length(self.buffer@, p as int) == Err::<Length, SnapshotError>(e),
            },
    {
        let buf = self.buffer.as_slice();
        let len = buf.len();
        if p >= len {
            return Err(SnapshotError::MalformedSnapshot);
        }
        let first: u8 = buf[p];
        let code: u8 = first & 192;
        let low: u8 = first & 63;
        proof {
            lemma_length_bits(first);
        }
        if code == 0 {
            Ok((first as usize, p + 1, false))
        } else if code == 64 {
            if len - p < 2 {
                return Err(SnapshotError::MalformedSnapshot);
            }
            let second: u8 = buf[p + 1];
            let value: u16 = ((low as u16) << 8) | (second as u16);
            assert(((low as u16) << 8) | (second as u16) == 256 * low + second) by (bit_vector);
            Ok((value as usize, p + 2, false))
        } else if code == 128 {
            if len - p < 5 {
                return Err(SnapshotError::MalformedSnapshot);
            }
            let value: u32 = read_be_u32(buf, p + 1);
            Ok((value as usize, p + 5, false))
        } else if low == 0 {
            if len - p < 2 {
                return Err(SnapshotError::MalformedSnapshot);
            }
            Ok((buf[p + 1] as usize, p + 2, true))
        } else if low == 1 {
            if len - p < 3 {
                return Err(SnapshotError::MalformedSnapshot);
            }
            let value: u16 = read_le_u16(buf, p + 1);
            Ok((value as usize, p + 3, true))
        } else if low == 2 {
            if len - p < 5 {
                return Err(SnapshotError::MalformedSnapshot);
            }
            let value: u32 = read_le_u32(buf, p + 1);
            Ok((value as usize, p + 5, true))
        } else if low == 3 {
            Err(SnapshotError::UnsupportedEncoding)
        } else {
            Ok((0, p + 1, true))
        }
    }

    /// Decodes the string at `p`.
    pub fn string_encoding(&self, p: usize) -> (r: Result<(String, usize), SnapshotError>)
        ensures
            match r {
                Ok((text, next)) => decode_string(self.buffer@, p as int) == Ok::<
                    (Seq<char>, int),
                    SnapshotError,
                >((text@, next as int)),
                Err(e) => decode_string(self.buffer@, p as int) == Err::<
                    (Seq<char>, int),
                    SnapshotError,
                >(e),
            },
    {
        let (value, next, special) = match self.length_encoding(p) {
            Ok(found) => found,
            Err(e) => {
                return Err(e);
            },
        };
        proof {
            lemma_decode_length_bounds(self.buffer@, p as int);
        }
        if special {
            return Ok((decimal_text(value as u64), next));
        }
        let buf = self.buffer.as_slice();
        if value > buf.len() - next {
            return Err(SnapshotError::InvalidEncoding);
        }
        let raw: Vec<u8> = slice_to_vec(slice_subrange(buf, next, next + value));
        match text_of(raw) {
            Some(text) => Ok((text, next + value)),
            None => Err(SnapshotError::InvalidEncoding),
        }
    }
    /// Decodes the two strings at `p`.
    fn pair_encoding(&self, p: usize) -> (r: Result<(String, String, usize), SnapshotError>)
        ensures
            match r {
                Ok((first, second, next)) => decode_pair(self.buffer@, p as int) == Ok::<
                    (Seq<char>, Seq<char>, int),
                    SnapshotError,
                >((first@, second@, next as int)),
                Err(e) => decode_pair(self.buffer@, p as int) == Err::<
                    (Seq<char>, Seq<char>, int),
                    SnapshotError,
                >(e),
            },
    {
        let (first, middle) = match self.string_encoding(p) {
            Ok(found) => found,
            Err(e) => {
                return Err(loader_error(e));
            },
        };
        match self.string_encoding(middle) {
            Ok((second, next)) => Ok((first, second, next)),
            Err(e) => Err(loader_error(e)),
        }
    }

    /// Decodes the two lengths at `p`.
    fn sizes_encoding(&self, p: usize) -> (r: Result<(usize, usize, usize), SnapshotError>)
        ensures
            match r {
                Ok((first, second, next)) => decode_sizes(self.buffer@, p as int) == Ok::<
                    (nat, nat, int),
                    SnapshotError,
                >((first as nat, second as nat, next as int)),
                Err(e) => decode_sizes(self.buffer@, p as int) == Err::<
                    (nat, nat, int),
                    SnapshotError,
                >(e),
            },
    {
        let (first, middle, _) = match self.length_encoding(p) {
            Ok(found) => found,
            Err(e) => {
                return Err(loader_error(e));
            },
        };
        match self.length_encoding(middle) {
            Ok((second, next, _)) => Ok((first, second, next)),
            Err(e) => Err(loader_error(e)),
        }
    }

    /// Scans the sections that follow the header.
    fn sections(&self) -> (r: Result<(Vec<(String, String, u64)>, usize, usize), SnapshotError>)
        requires
            self.buffer@.len() >= 9,
        ensures
            match r {
                Ok((data, hash_size, expire_hash_size)) => scan(
                    self.buffer@,
                    9,
                    NEVER,
                    0,
                    Scan { records: Seq::empty(), hash_size: 0, expire_hash_size: 0 },
                ) == Ok::<Scan, SnapshotError>(
                    Scan {
                        records: records_view(data@),
                        hash_size: hash_size as nat,
                        expire_hash_size: expire_hash_size as nat,
                    },
                ),
                Err(e) => scan(
                    self.buffer@,
                    9,
                    NEVER,
                    0,
                    Scan { records: Seq::empty(), hash_size: 0, expire_hash_size: 0 },
                ) == Err::<Scan, SnapshotError>(e),
            },
    {
        let buf = self.buffer.as_slice();
        let len = buf.len();
        let mut pointer: usize = 9;
        let mut pending: u64 = NEVER;
        let mut owed: usize = 0;
        let mut data: Vec<(String, String, u64)> = Vec::new();
        let mut hash_size: usize = 0;
        let mut expire_hash_size: usize = 0;
        let ghost whole = scan(
            self.buffer@,
            9,
            NEVER,
            0,
            Scan { records: Seq::empty(), hash_size: 0, expire_hash_size: 0 },
        );
        assert(records_view(data@) =~= Seq::<Record>::empty());
        while pointer < len
            invariant
                buf@ == self.buffer@,
                len == buf@.len(),
                whole == scan(
                    self.buffer@,
                    pointer as int,
                    pending,
                    owed as nat,
                    Scan {
                        records: records_view(data@),
                        hash_size: hash_size as nat,
                        expire_hash_size: expire_hash_size as nat,
                    },
                ),
                whole == scan(
                    self.buffer@,
                    9,
                    NEVER,
                    0,
                    Scan { records: Seq::empty(), hash_size: 0, expire_hash_size: 0 },
                ),
            decreases len - pointer,
        {
            let op: u8 = buf[pointer];
            if op == op_code::EXPIRETIME_MS {
                if len - pointer < 9 {
                    return Err(SnapshotError::MalformedSnapshot);
                }
                pending = read_le_u64(buf, pointer + 1);
                pointer += 9;
            } else if op == op_code::EXPIRETIME {
                if len - pointer < 5 {
                    return Err(SnapshotError::MalformedSnapshot);
                }
                let seconds: u32 = read_le_u32(buf, pointer + 1);
                pending = 1000 * (seconds as u64);
                pointer += 5;
            } else if op < op_code::AUX {
                proof {
                    lemma_decode_pair_bounds(self.buffer@, pointer + 1);
                }
                let (key, value, next) = match self.pair_encoding(pointer + 1) {
                    Ok(found) => found,
                    Err(e) => {
                        return Err(e);
                    },
                };
                let ghost before = data@;
                data.push((key, value, pending));
                assert(records_view(data@) =~= records_view(before).push(
                    (key@, value@, pending),
                ));
                pending = NEVER;
                if owed > 0 {
                    owed -= 1;
                }
                pointer = next;
            } else if owed > 0 {
                return Err(SnapshotError::MalformedSnapshot);
            } else if op == op_code::AUX {
                proof {
                    lemma_decode_pair_bounds(self.buffer@, pointer + 1);
                }
                match self.pair_encoding(pointer + 1) {
                    Ok((_, _, next)) => {
                        pointer = next;
                    },
                    Err(e) => {
                        return Err(e);
                    },
                }
            } else if op == op_code::SELECTDB {
                if len - pointer < 2 {
                    return Err(SnapshotError::MalformedSnapshot);
                }
                pointer += 2;
            } else if op == op_code::RESIZEDB {
                proof {
                    lemma_decode_sizes_bounds(self.buffer@, pointer + 1);
                }
                match self.sizes_encoding(pointer + 1) {
                    Ok((size, expire_size, next)) => {
                        hash_size = size;
                        expire_hash_size = expire_size;
                        owed = size;
                        pointer = next;
                    },
                    Err(e) => {
                        return Err(e);
                    },
                }
            } else {
                return Ok((data, hash_size, expire_hash_size));
            }
        }
        if owed > 0 {
            return Err(SnapshotError::MalformedSnapshot);
        }
        Ok((data, hash_size, expire_hash_size))
    }

    /// What the snapshot holds after a load.
    pub open spec fn contents(&self) -> Contents {
        Contents {
            version: self.version@,
            records: records_view(self.data@),
            hash_size: self.hash_size as nat,
            expire_hash_size: self.expire_hash_size as nat,
        }
    }

    /// Loads the snapshot's bytes: on success the snapshot holds what its
    /// bytes say, and on failure it is left as it was.
    pub fn load(&mut self) -> (r: Result<(), SnapshotError>)
        ensures
            final(self).buffer@ == old(self).buffer@,
            match r {
                Ok(()) => load_spec(old(self).buffer@) == Ok::<Contents, SnapshotError>(
                    final(self).contents(),
                ),
                Err(e) => load_spec(old(self).buffer@) == Err::<Contents, SnapshotError>(e)
                    && *final(self) == *old(self),
            },
    {
        let buf = self.buffer.as_slice();
        if buf.len() < 9 {
            return Err(SnapshotError::MalformedSnapshot);
        }
        if !(buf[0] == 0x52 && buf[1] == 0x45 && buf[2] == 0x44 && buf[3] == 0x49 && buf[4]
            == 0x53) {
            assert(buf@.subrange(0, 5)[0] == buf@[0]);
            assert(buf@.subrange(0, 5)[1] == buf@[1]);
            assert(buf@.subrange(0, 5)[2] == buf@[2]);
            assert(buf@.subrange(0, 5)[3] == buf@[3]);
            assert(buf@.subrange(0, 5)[4] == buf@[4]);
            return Err(SnapshotError::MalformedSnapshot);
        }
        assert(buf@.subrange(0, 5) =~= magic());
        if !(buf[5] < 0x80 && buf[6] < 0x80 && buf[7] < 0x80 && buf[8] < 0x80) {
            assert(buf@.subrange(5, 9)[0] == buf@[5]);
            assert(buf@.subrange(5, 9)[1] == buf@[6]);
            assert(buf@.subrange(5, 9)[2] == buf@[7]);
            assert(buf@.subrange(5, 9)[3] == buf@[8]);
            return Err(SnapshotError::MalformedSnapshot);
        }
        assert(is_ascii_bytes(buf@.subrange(5, 9)));
        let (data, hash_size, expire_hash_size) = match self.sections() {
            Ok(found) => found,
            Err(e) => {
                return Err(e);
            },
        };
        proof {
            lemma_ascii_is_utf8(buf@.subrange(5, 9));
        }
        let version = match text_of(slice_to_vec(slice_subrange(buf, 5, 9))) {
            Some(text) => text,
            None => {
                return Err(SnapshotError::MalformedSnapshot);
            },
        };
        self.version = version;
        self.data = data;
        self.hash_size = hash_size;
        self.expire_hash_size = expire_hash_size;
        Ok(())
    }

    /// A snapshot made of `buffer` and loaded.
    pub fn new(buffer: Vec<u8>) -> (r: Result<RDB, SnapshotError>)
        ensures
            match r {
                Ok(rdb) => rdb.buffer@ == buffer@ && load_spec(buffer@) == Ok::<
                    Contents,
                    SnapshotError,
                >(rdb.contents()),
                Err(e) => load_spec(buffer@) == Err::<Contents, SnapshotError>(e),
            },
    {
        let mut rdb = RDB {
            buffer,
            data: Vec::new(),
            version: String::new(),
            hash_size: 0,
            expire_hash_size: 0,
        };
        match rdb.load() {
            Ok(()) => Ok(rdb),
            Err(e) => Err(e),
        }
    }
}

/// The error that the loader reports for an error of a decoder.
fn loader_error(e: SnapshotError) -> (r: SnapshotError)
    ensures
        r == structural(e),
{
    match e {
        SnapshotError::UnsupportedEncoding => SnapshotError::UnsupportedEncoding,
        _ => SnapshotError::MalformedSnapshot,
    }
}

} // verus!
