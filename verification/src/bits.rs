use vstd::prelude::*;

verus! {

/// Two bytes as a little-endian word: `lo | hi << 8`.
pub proof fn lemma_word_of_bytes(lo: u16, hi: u16)
    requires
        lo < 256,
        hi < 256,
    ensures
        lo | (hi << 8u16) == lo + 256 * hi,
        (hi << 8u16) | lo == lo + 256 * hi,
{
    assert(lo | (hi << 8u16) == lo + 256 * hi && (hi << 8u16) | lo == lo + 256 * hi) by (bit_vector)
        requires
            lo < 256,
            hi < 256,
    ;
}

/// The bit tests and masks of a byte, as arithmetic.
pub proof fn lemma_byte_bits(v: u8)
    ensures
        (v & 0x80 != 0) == (v >= 128),
        (v & 1 != 0) == (v % 2 == 1),
        v >> 1u8 == v / 2,
        v >> 4u8 == v / 16,
        v & 0x0f == v % 16,
        v & 0x3f == v % 64,
        v & 0x03 <= 3,
        v & !0xc0u8 == v & 0x3f,
        v & !0x80u8 == v & 0x7f,
        (v << 1u8) as int == (v as int * 2) % 256,
{
    assert((v & 0x80 != 0) == (v >= 128) && (v & 1 != 0) == (v % 2 == 1) && v >> 1u8 == v / 2 && v
        >> 4u8 == v / 16 && v & 0x0f == v % 16 && v & 0x3f == v % 64 && v & 0x03 <= 3 && v & !0xc0u8
        == v & 0x3f && v & !0x80u8 == v & 0x7f && (v << 1u8) as int == (v as int * 2) % 256)
        by (bit_vector);
}

/// The low bits of a 16-bit value, as arithmetic.
pub proof fn lemma_u16_bits(v: u16)
    ensures
        v & 7 == v % 8,
        v & 0x3fff == v % 0x4000,
        (v >> 8u16) as u8 == v / 256,
        v as u8 == v % 256,
        v < 256 ==> 0x0100u16 | v == 0x100 + v,
{
    assert(v & 7 == v % 8 && v & 0x3fff == v % 0x4000 && (v >> 8u16) as u8 == v / 256 && v as u8 == v
        % 256 && (v < 256 ==> 0x0100u16 | v == 0x100 + v)) by (bit_vector);
}

/// The low bits of an index, as arithmetic.
pub proof fn lemma_usize_bits(v: usize)
    ensures
        v & 1 == v % 2,
        (v >> 1usize) & 1 == (v / 2) % 2,
        v & 7 == v % 8,
        v & 0x1f == v % 32,
        v & 0xff == v % 256,
        v & 0x3ff == v % 0x400,
        v & 0x7ff == v % 0x800,
        v & 0x3fff == v % 0x4000,
        v & 0x7fff == v % 0x8000,
{
    assert(v & 1 == v % 2 && (v >> 1usize) & 1 == (v / 2) % 2 && v & 7 == v % 8 && v & 0x1f == v % 32
        && v & 0xff == v % 256 && v & 0x3ff == v % 0x400 && v & 0x7ff == v % 0x800 && v & 0x3fff == v % 0x4000
        && v & 0x7fff == v % 0x8000) by (bit_vector);
}

/// Masking never exceeds the mask.
pub proof fn lemma_and_le(v: usize, mask: usize)
    ensures
        v & mask <= mask,
{
    assert(v & mask <= mask) by (bit_vector);
}

/// The column within a tile of a background-plane position.
pub proof fn lemma_fine_x(v: usize)
    ensures
        v & 7 == (v % 256) % 8,
{
    assert(v & 7 == (v % 256) % 8) by (bit_vector);
}

} // verus!
