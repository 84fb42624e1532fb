//! How the two directions of the wire format agree: what is written as an
//! array of bulk strings is what a request is decoded from.

use crate::number::{
    decimal, decimal_bytes, is_digit, lemma_decimal_bytes_value,
    lemma_decimal_encoding, parse_u64_spec, unsigned_part,
};
use crate::process::{array_reply, bulk, bulks};
use crate::redis_message::{
    decode_bulk, decode_bulks, decode_header, decode_request, line_end, ARRAY, BULK, CR, LF,
};
use vstd::prelude::*;
use vstd::utf8::{
    encode_utf8, encode_utf8_decode_utf8, encode_utf8_valid_utf8, is_ascii_chars,
    is_ascii_chars_encode_utf8,
};

verus! {

/// The bytes of a header line: the marker, the number, and the end of the
/// line.
spec fn header_bytes(marker: u8, number: nat) -> Seq<u8> {
    seq![marker] + decimal_bytes(number) + seq![CR, LF]
}

/// The bytes of a bulk string.
spec fn bulk_bytes(item: Seq<char>) -> Seq<u8> {
    header_bytes(BULK, encode_utf8(item).len()) + encode_utf8(item) + seq![CR, LF]
}

/// The bytes of bulk strings that stand one after the other.
spec fn bulks_bytes(items: Seq<Seq<char>>) -> Seq<u8>
    decreases items.len(),
{
    if items.len() == 0 {
        Seq::empty()
    } else {
        bulk_bytes(items[0]) + bulks_bytes(items.drop_first())
    }
}

/// The encoding of two texts in a row is the two encodings in a row.
pub proof fn lemma_encoding_of_concat(a: Seq<char>, b: Seq<char>)
    ensures
        encode_utf8(a + b) == encode_utf8(a) + encode_utf8(b),
    decreases a.len(),
{
    if a.len() == 0 {
        assert(a + b =~= b);
        assert(encode_utf8(a) + encode_utf8(b) =~= encode_utf8(b));
    } else {
        assert((a + b).drop_first() =~= a.drop_first() + b);
        lemma_encoding_of_concat(a.drop_first(), b);
        assert(encode_utf8(a + b) =~= encode_utf8(a) + encode_utf8(b));
    }
}

/// The encodings of the marks of the wire format.
proof fn lemma_marks()
    ensures
        encode_utf8("*"@) == seq![ARRAY],
        encode_utf8("$"@) == seq![BULK],
        encode_utf8("\r\n"@) == seq![CR, LF],
{
    reveal_strlit("*");
    reveal_strlit("$");
    reveal_strlit("\r\n");
    assert(is_ascii_chars("*"@));
    assert(is_ascii_chars("$"@));
    assert(is_ascii_chars("\r\n"@));
    is_ascii_chars_encode_utf8("*"@);
    is_ascii_chars_encode_utf8("$"@);
    is_ascii_chars_encode_utf8("\r\n"@);
    assert(encode_utf8("*"@) =~= seq![ARRAY]);
    assert(encode_utf8("$"@) =~= seq![BULK]);
    assert(encode_utf8("\r\n"@) =~= seq![CR, LF]);
}

/// A written header line is its bytes.
proof fn lemma_header_encoding(mark: Seq<char>, marker: u8, number: nat)
    requires
        encode_utf8(mark) == seq![marker],
    ensures
        encode_utf8(mark + decimal(number) + "\r\n"@) == header_bytes(marker, number),
{
    lemma_marks();
    lemma_decimal_encoding(number);
    lemma_encoding_of_concat(mark, decimal(number));
    lemma_encoding_of_concat(mark + decimal(number), "\r\n"@);
}

/// A written bulk string is its bytes.
proof fn lemma_bulk_encoding(item: Seq<char>)
    ensures
        encode_utf8(bulk(item)) == bulk_bytes(item),
{
    lemma_marks();
    let head = "$"@ + decimal(encode_utf8(item).len()) + "\r\n"@;
    lemma_header_encoding("$"@, BULK, encode_utf8(item).len());
    lemma_encoding_of_concat(head, item);
    lemma_encoding_of_concat(head + item, "\r\n"@);
}

/// One more bulk string at the end adds its bytes at the end.
proof fn lemma_bulks_bytes_push(items: Seq<Seq<char>>, item: Seq<char>)
    ensures
        bulks_bytes(items.push(item)) == bulks_bytes(items) + bulk_bytes(item),
    decreases items.len(),
{
    let all = items.push(item);
    if items.len() == 0 {
        assert(all.drop_first().len() == 0);
        assert(bulks_bytes(all.drop_first()) =~= Seq::<u8>::empty());
        assert(bulks_bytes(items) =~= Seq::<u8>::empty());
        assert(all[0] == item);
        assert(bulks_bytes(all) =~= bulks_bytes(items) + bulk_bytes(item));
    } else {
        assert(all.drop_first() =~= items.drop_first().push(item));
        lemma_bulks_bytes_push(items.drop_first(), item);
        assert(bulks_bytes(all) =~= bulks_bytes(items) + bulk_bytes(item));
    }
}

/// Written bulk strings are their bytes.
proof fn lemma_bulks_encoding(items: Seq<Seq<char>>)
    ensures
        encode_utf8(bulks(items)) == bulks_bytes(items),
    decreases items.len(),
{
    if items.len() > 0 {
        lemma_bulks_encoding(items.drop_last());
        lemma_bulk_encoding(items.last());
        lemma_encoding_of_concat(bulks(items.drop_last()), bulk(items.last()));
        lemma_bulks_bytes_push(items.drop_last(), items.last());
        assert(items.drop_last().push(items.last()) =~= items);
    }
}

/// A written array is its bytes.
proof fn lemma_array_encoding(items: Seq<Seq<char>>)
    ensures
        encode_utf8(array_reply(items)) == header_bytes(ARRAY, items.len()) + bulks_bytes(items),
{
    lemma_marks();
    lemma_header_encoding("*"@, ARRAY, items.len());
    lemma_bulks_encoding(items);
    lemma_encoding_of_concat("*"@ + decimal(items.len()) + "\r\n"@, bulks(items));
}

/// A line of `count` bytes that are no `CR`, with a `CR` after it, ends at
/// that `CR`.
proof fn lemma_line_end_at(buf: Seq<u8>, from: int, count: nat)
    requires
        0 <= from,
        from + count < buf.len(),
        forall|i: int| from <= i < from + count ==> buf[i] != CR,
        buf[from + count] == CR,
    ensures
        line_end(buf, from) == from + count,
    decreases count,
{
    if count > 0 {
        lemma_line_end_at(buf, from + 1, (count - 1) as nat);
    }
}

/// A written header line decodes to its number, wherever it stands.
proof fn lemma_header_decodes(before: Seq<u8>, marker: u8, number: nat, after: Seq<u8>)
    requires
        number <= u64::MAX,
    ensures
        decode_header(before + header_bytes(marker, number) + after, before.len() as int, marker)
            == Some((number as u64, (before.len() + header_bytes(marker, number).len()) as int)),
{
    let digits = decimal_bytes(number);
    let buf = before + header_bytes(marker, number) + after;
    let pos = before.len() as int;
    lemma_decimal_bytes_value(number);
    assert(buf[pos] == marker);
    assert forall|i: int| pos + 1 <= i < pos + 1 + digits.len() implies buf[i] != CR by {
        assert(buf[i] == digits[i - pos - 1]);
        assert(is_digit(digits[i - pos - 1]));
    }
    assert(buf[pos + 1 + digits.len()] == CR);
    assert(buf[pos + 2 + digits.len()] == LF);
    lemma_line_end_at(buf, pos + 1, digits.len());
    assert(buf.subrange(pos + 1, pos + 1 + digits.len()) =~= digits);
    assert(is_digit(digits[0]));
    assert(unsigned_part(digits) == digits);
    assert(parse_u64_spec(digits) == Some(number as u64));
}

/// A written bulk string decodes to its item, wherever it stands.
proof fn lemma_bulk_decodes(before: Seq<u8>, item: Seq<char>, after: Seq<u8>)
    requires
        encode_utf8(item).len() <= u64::MAX,
    ensures
        decode_bulk(before + bulk_bytes(item) + after, before.len() as int) == Some(
            (item, (before.len() + bulk_bytes(item).len()) as int),
        ),
{
    let payload = encode_utf8(item);
    let size = payload.len();
    let head = header_bytes(BULK, size);
    let buf = before + bulk_bytes(item) + after;
    let tail = payload + seq![CR, LF] + after;
    assert(buf =~= before + head + tail);
    lemma_header_decodes(before, BULK, size, tail);
    let start: int = (before.len() + head.len()) as int;
    assert(buf.subrange(start, start + size as int) =~= payload);
    assert(buf[start + size as int] == CR);
    assert(buf[start + size as int + 1] == LF);
    encode_utf8_valid_utf8(item);
    encode_utf8_decode_utf8(item);
}

/// Written bulk strings decode to their items, wherever they stand.
proof fn lemma_bulks_decode(
    before: Seq<u8>,
    items: Seq<Seq<char>>,
    after: Seq<u8>,
    found: Seq<Seq<char>>,
)
    requires
        forall|i: int| 0 <= i < items.len() ==> encode_utf8(#[trigger] items[i]).len() <= u64::MAX,
    ensures
        decode_bulks(
            before + bulks_bytes(items) + after,
            before.len() as int,
            items.len(),
            found,
        ) == Some(found + items),
    decreases items.len(),
{
    let buf = before + bulks_bytes(items) + after;
    if items.len() == 0 {
        assert(found + items =~= found);
    } else {
        let first = items[0];
        let rest = items.drop_first();
        let tail = bulks_bytes(rest) + after;
        assert(buf =~= before + bulk_bytes(first) + tail);
        lemma_bulk_decodes(before, first, tail);
        let next = before + bulk_bytes(first);
        assert(buf =~= next + bulks_bytes(rest) + after);
        assert forall|i: int| 0 <= i < rest.len() implies encode_utf8(#[trigger] rest[i]).len()
            <= u64::MAX by {
            assert(rest[i] == items[i + 1]);
        }
        lemma_bulks_decode(next, rest, after, found.push(first));
        assert(found.push(first) + rest =~= found + items);
    }
}

/// The items of an array reply are the tokens of the request that its bytes
/// make, whatever follows them: the two directions of the wire format agree.
/// The number of items and the number of bytes of each item have to fit in
/// 64 bits.
pub proof fn law_written_array_decodes(items: Seq<Seq<char>>, rest: Seq<u8>)
    requires
        items.len() <= u64::MAX,
        forall|i: int| 0 <= i < items.len() ==> encode_utf8(#[trigger] items[i]).len() <= u64::MAX,
    ensures
        decode_request(encode_utf8(array_reply(items)) + rest) == Some(items),
{
    let head = header_bytes(ARRAY, items.len());
    let buf = encode_utf8(array_reply(items)) + rest;
    lemma_array_encoding(items);
    let tail = bulks_bytes(items) + rest;
    assert(buf =~= Seq::<u8>::empty() + head + tail);
    lemma_header_decodes(Seq::empty(), ARRAY, items.len(), tail);
    assert(buf =~= head + bulks_bytes(items) + rest);
    lemma_bulks_decode(head, items, rest, Seq::empty());
    assert(Seq::<Seq<char>>::empty() + items =~= items);
}

} // verus!
