//! Integers laid out in bytes, least or most significant byte first.

use vstd::prelude::*;

verus! {

/// The number that `s` holds with its least significant byte first.
pub open spec fn little_endian(s: Seq<u8>) -> nat
    decreases s.len(),
{
    if s.len() == 0 {
        0
    } else {
        s[0] as nat + 256 * little_endian(s.drop_first())
    }
}

/// The number that `s` holds with its most significant byte first.
pub open spec fn big_endian(s: Seq<u8>) -> nat
    decreases s.len(),
{
    if s.len() == 0 {
        0
    } else {
        256 * big_endian(s.drop_last()) + s.last() as nat
    }
}

/// Two bytes, least significant first.
pub proof fn lemma_little_endian_2(s: Seq<u8>)
    requires
        s.len() == 2,
    ensures
        little_endian(s) == s[0] + 256 * s[1],
{
    reveal_with_fuel(little_endian, 3);
    assert(s.drop_first().drop_first().len() == 0);
}

/// Four bytes, least significant first.
pub proof fn lemma_little_endian_4(s: Seq<u8>)
    requires
        s.len() == 4,
    ensures
        little_endian(s) == s[0] + 256 * s[1] + 65536 * s[2] + 16777216 * s[3],
{
    lemma_little_endian_2(s.subrange(2, 4));
    assert(s.drop_first().drop_first() =~= s.subrange(2, 4));
    reveal_with_fuel(little_endian, 3);
}

/// Eight bytes, least significant first.
pub proof fn lemma_little_endian_8(s: Seq<u8>)
    requires
        s.len() == 8,
    ensures
        little_endian(s) == little_endian(s.subrange(0, 4)) + 4294967296 * little_endian(
            s.subrange(4, 8),
        ),
{
    let lo = s.subrange(0, 4);
    let hi = s.subrange(4, 8);
    lemma_little_endian_4(lo);
    lemma_little_endian_4(hi);
    reveal_with_fuel(little_endian, 5);
    assert(s.drop_first().drop_first().drop_first().drop_first() =~= hi);
}

/// Four bytes, most significant first.
pub proof fn lemma_big_endian_4(s: Seq<u8>)
    requires
        s.len() == 4,
    ensures
        big_endian(s) == 16777216 * s[0] + 65536 * s[1] + 256 * s[2] + s[3],
{
    reveal_with_fuel(big_endian, 5);
    assert(s.drop_last().drop_last().drop_last().drop_last().len() == 0);
}

/// Two bytes, most significant first.
pub proof fn lemma_big_endian_2(s: Seq<u8>)
    requires
        s.len() == 2,
    ensures
        big_endian(s) == 256 * s[0] + s[1],
{
    reveal_with_fuel(big_endian, 3);
    assert(s.drop_last().drop_last().len() == 0);
}

/// Reads two bytes at `pos`, least significant first.
pub fn read_le_u16(buf: &[u8], pos: usize) -> (r: u16)
    requires
        pos + 2 <= buf.len(),
    ensures
        r == little_endian(buf@.subrange(pos as int, pos + 2)),
{
    let b0: u8 = buf[pos];
    let b1: u8 = buf[pos + 1];
    let r: u16 = ((b1 as u16) << 8) | (b0 as u16);
    proof {
        lemma_little_endian_2(buf@.subrange(pos as int, pos + 2));
        assert(((b1 as u16) << 8) | (b0 as u16) == b0 + 256 * b1) by (bit_vector);
    }
    r
}

/// Reads four bytes at `pos`, least significant first.
pub fn read_le_u32(buf: &[u8], pos: usize) -> (r: u32)
    requires
        pos + 4 <= buf.len(),
    ensures
        r == little_endian(buf@.subrange(pos as int, pos + 4)),
{
    let b0: u8 = buf[pos];
    let b1: u8 = buf[pos + 1];
    let b2: u8 = buf[pos + 2];
    let b3: u8 = buf[pos + 3];
    let r: u32 = ((b3 as u32) << 24) | ((b2 as u32) << 16) | ((b1 as u32) << 8) | (b0 as u32);
    proof {
        lemma_little_endian_4(buf@.subrange(pos as int, pos + 4));
        assert(((b3 as u32) << 24) | ((b2 as u32) << 16) | ((b1 as u32) << 8) | (b0 as u32) == b0
            + 256 * b1 + 65536 * b2 + 16777216 * b3) by (bit_vector);
    }
    r
}

/// Reads eight bytes at `pos`, least significant first.
pub fn read_le_u64(buf: &[u8], pos: usize) -> (r: u64)
    requires
        pos + 8 <= buf.len(),
    ensures
        r == little_endian(buf@.subrange(pos as int, pos + 8)),
{
    let lo: u32 = read_le_u32(buf, pos);
    let hi: u32 = read_le_u32(buf, pos + 4);
    let r: u64 = ((hi as u64) << 32) | (lo as u64);
    proof {
        let s = buf@.subrange(pos as int, pos + 8);
        lemma_little_endian_8(s);
        assert(s.subrange(0, 4) =~= buf@.subrange(pos as int, pos + 4));
        assert(s.subrange(4, 8) =~= buf@.subrange(pos + 4, pos + 8));
        assert(((hi as u64) << 32) | (lo as u64) == lo + 4294967296 * hi) by (bit_vector);
    }
    r
}

/// Reads four bytes at `pos`, most significant first.
pub fn read_be_u32(buf: &[u8], pos: usize) -> (r: u32)
    requires
        pos + 4 <= buf.len(),
    ensures
        r == big_endian(buf@.subrange(pos as int, pos + 4)),
{
    let b0: u8 = buf[pos];
    let b1: u8 = buf[pos + 1];
    let b2: u8 = buf[pos + 2];
    let b3: u8 = buf[pos + 3];
    let r: u32 = ((b0 as u32) << 24) | ((b1 as u32) << 16) | ((b2 as u32) << 8) | (b3 as u32);
    proof {
        lemma_big_endian_4(buf@.subrange(pos as int, pos + 4));
        assert(((b0 as u32) << 24) | ((b1 as u32) << 16) | ((b2 as u32) << 8) | (b3 as u32)
            == 16777216 * b0 + 65536 * b1 + 256 * b2 + b3) by (bit_vector);
    }
    r
}

} // verus!
