//! Bit-level facts about bytes and words that the register decoders and the memory
//! mappings rely on: masks are remainders, shifts are divisions, flag bits are digits.

use vstd::prelude::*;

verus! {

/// Masks, shifts and single bits of a byte, read as arithmetic.
pub proof fn lemma_byte(v: u8)
    ensures
        v & 0x1 == v % 2,
        v & 0x3 == v % 4,
        v & 0x7 == v % 8,
        v & 0xf == v % 16,
        v & 0x3f == v % 64,
        v & 0x7f == v % 128,
        v >> 3u8 == v / 8,
        v >> 4u8 == v / 16,
        v >> 6u8 == v / 64,
        ((v >> 7u8) != 0) == (v >= 0x80),
        ((v & 0x01) != 0) == (v % 2 == 1),
        ((v & 0x02) != 0) == ((v / 2) % 2 == 1),
        ((v & 0x04) != 0) == ((v / 4) % 2 == 1),
        ((v & 0x08) != 0) == ((v / 8) % 2 == 1),
        ((v & 0x10) != 0) == ((v / 16) % 2 == 1),
        ((v & 0x20) != 0) == ((v / 32) % 2 == 1),
        ((v & 0x40) != 0) == ((v / 64) % 2 == 1),
        ((v & 0x80) != 0) == ((v / 128) % 2 == 1),
        ((v & 0x80) != 0) == (v >= 0x80),
        ((v & 0x40) == 0) == ((v / 64) % 2 == 0),
        ((v >> 2u8) & 3) == (v / 4) % 4,
        ((v >> 4u8) & 0x7) == (v / 16) % 8,
        (((v >> 0u8) & 1) != 0) == (v % 2 == 1),
        (((v >> 1u8) & 1) != 0) == ((v / 2) % 2 == 1),
        (((v >> 3u8) & 0x1) != 0) == ((v / 8) % 2 == 1),
        (((v >> 4u8) & 1) == 0) == !((v / 16) % 2 == 1),
        (((v >> 5u8) & 1) != 0) == ((v / 32) % 2 == 1),
        (((v >> 7u8) & 1) != 0) == ((v / 128) % 2 == 1),
        (v as usize) & 0xf == v % 16,
        v & 0xfe == v - v % 2,
        (v & 0xfe) | 1 == v - v % 2 + 1,
        v.wrapping_add(1) & 7 == (v + 1) % 8,
        (3u8 << 2u8) == 0x0c,
{
    assert({
        &&& v & 0x1 == v % 2
        &&& v & 0x3 == v % 4
        &&& v & 0x7 == v % 8
        &&& v & 0xf == v % 16
        &&& v & 0x3f == v % 64
        &&& v & 0x7f == v % 128
        &&& v >> 3u8 == v / 8
        &&& v >> 4u8 == v / 16
        &&& v >> 6u8 == v / 64
        &&& ((v >> 7u8) != 0) == (v >= 0x80)
        &&& ((v & 0x01) != 0) == (v % 2 == 1)
        &&& ((v & 0x02) != 0) == ((v / 2) % 2 == 1)
        &&& ((v & 0x04) != 0) == ((v / 4) % 2 == 1)
        &&& ((v & 0x08) != 0) == ((v / 8) % 2 == 1)
        &&& ((v & 0x10) != 0) == ((v / 16) % 2 == 1)
        &&& ((v & 0x20) != 0) == ((v / 32) % 2 == 1)
        &&& ((v & 0x40) != 0) == ((v / 64) % 2 == 1)
        &&& ((v & 0x80) != 0) == ((v / 128) % 2 == 1)
        &&& ((v & 0x80) != 0) == (v >= 0x80)
        &&& ((v & 0x40) == 0) == ((v / 64) % 2 == 0)
        &&& ((v >> 2u8) & 3) == (v / 4) % 4
        &&& ((v >> 4u8) & 0x7) == (v / 16) % 8
        &&& (((v >> 0u8) & 1) != 0) == (v % 2 == 1)
        &&& (((v >> 1u8) & 1) != 0) == ((v / 2) % 2 == 1)
        &&& (((v >> 3u8) & 0x1) != 0) == ((v / 8) % 2 == 1)
        &&& (((v >> 4u8) & 1) == 0) == !((v / 16) % 2 == 1)
        &&& (((v >> 5u8) & 1) != 0) == ((v / 32) % 2 == 1)
        &&& (((v >> 7u8) & 1) != 0) == ((v / 128) % 2 == 1)
        &&& (v as usize) & 0xf == v % 16
        &&& v & 0xfe == v - v % 2
        &&& (v & 0xfe) | 1 == v - v % 2 + 1
        &&& v.wrapping_add(1) & 7 == (v + 1) % 8
        &&& (3u8 << 2u8) == 0x0c
    }) by (bit_vector);
}

/// Masks and halves of a 16-bit word, read as arithmetic.
pub proof fn lemma_word(a: u16)
    ensures
        a & 0x3 == a % 4,
        a & 0x7 == a % 8,
        a & 0x1f == a % 0x20,
        a & 0x3ff == a % 0x400,
        a & 0x7ff == a % 0x800,
        a & 0x0fff == a % 0x1000,
        a & 0x1fff == a % 0x2000,
        a & 0x3fff == a % 0x4000,
        a & 0x7fff == a % 0x8000,
        (a & 1 == 0) == (a % 2 == 0),
        (a & 1 == 1) == (a % 2 == 1),
        a as u8 == a % 256,
        (a >> 8u16) as u8 == (a / 256) % 256,
        (a & 0xff) as u8 == a % 256,
        ((a >> 8u16) & 0xff) as u8 == a / 256,
{
    assert({
        &&& a & 0x3 == a % 4
        &&& a & 0x7 == a % 8
        &&& a & 0x1f == a % 0x20
        &&& a & 0x3ff == a % 0x400
        &&& a & 0x7ff == a % 0x800
        &&& a & 0x0fff == a % 0x1000
        &&& a & 0x1fff == a % 0x2000
        &&& a & 0x3fff == a % 0x4000
        &&& a & 0x7fff == a % 0x8000
        &&& (a & 1 == 0) == (a % 2 == 0)
        &&& (a & 1 == 1) == (a % 2 == 1)
        &&& a as u8 == a % 256
        &&& (a >> 8u16) as u8 == (a / 256) % 256
        &&& (a & 0xff) as u8 == a % 256
        &&& ((a >> 8u16) & 0xff) as u8 == a / 256
    }) by (bit_vector);
}

/// A little-endian word built from two bytes.
pub proof fn lemma_bytes_to_word(lo: u8, hi: u8)
    ensures
        (lo as u16 | (hi as u16) << 8u16) == lo + hi * 256,
        ((hi as u16) << 8u16 | lo as u16) == lo + 256 * hi,
        ((hi as u16) << 8u16) == hi * 256,
{
    assert({
        &&& (lo as u16 | (hi as u16) << 8u16) == lo + hi * 256
        &&& ((hi as u16) << 8u16 | lo as u16) == lo + 256 * hi
        &&& ((hi as u16) << 8u16) == hi * 256
    }) by (bit_vector);
}

} // verus!
