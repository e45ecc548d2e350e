//! Cyclic redundancy checks, MSB first, zero initial value, no final XOR:
//! CRC-8 (polynomial 0x07) and CRC-16 (0x8005) of FLAC frames, and the
//! CRC-32 (0x04C11DB7) of Ogg pages.
use vstd::prelude::*;

use crate::bits::{byte_bits, bytes_bits, lemma_bytes_bits_push};

verus! {

/// One step of the CRC-8 shift register fed with message bit `b`.
pub open spec fn crc8_step(r: u8, b: bool) -> u8 {
    if ((r >> 7u8) & 1 == 1) != b {
        (r << 1u8) ^ 0x07u8
    } else {
        r << 1u8
    }
}

/// The CRC-8 register after feeding `bits` one at a time, starting from `r`.
pub open spec fn crc8_fold(r: u8, bits: Seq<bool>) -> u8
    decreases bits.len(),
{
    if bits.len() == 0 {
        r
    } else {
        crc8_step(crc8_fold(r, bits.drop_last()), bits.last())
    }
}

/// The CRC-8 of a byte string.
pub open spec fn spec_crc8(data: Seq<u8>) -> u8 {
    crc8_fold(0, bytes_bits(data))
}

pub open spec fn crc16_step(r: u16, b: bool) -> u16 {
    if ((r >> 15u16) & 1 == 1) != b {
        (r << 1u16) ^ 0x8005u16
    } else {
        r << 1u16
    }
}

pub open spec fn crc16_fold(r: u16, bits: Seq<bool>) -> u16
    decreases bits.len(),
{
    if bits.len() == 0 {
        r
    } else {
        crc16_step(crc16_fold(r, bits.drop_last()), bits.last())
    }
}

/// The CRC-16 of a byte string.
pub open spec fn spec_crc16(data: Seq<u8>) -> u16 {
    crc16_fold(0, bytes_bits(data))
}

pub open spec fn crc32_step(r: u32, b: bool) -> u32 {
    if ((r >> 31u32) & 1 == 1) != b {
        (r << 1u32) ^ 0x04c1_1db7u32
    } else {
        r << 1u32
    }
}

pub open spec fn crc32_fold(r: u32, bits: Seq<bool>) -> u32
    decreases bits.len(),
{
    if bits.len() == 0 {
        r
    } else {
        crc32_step(crc32_fold(r, bits.drop_last()), bits.last())
    }
}

/// The Ogg CRC-32 of a byte string.
pub open spec fn spec_crc32(data: Seq<u8>) -> u32 {
    crc32_fold(0, bytes_bits(data))
}

proof fn lemma_byte_bit(byte: u8, i: u8)
    requires
        i < 8,
    ensures
        byte_bits(byte)[i as int] == ((byte >> ((7 - i) as u8)) & 1 == 1),
{
    if i == 0 {
    } else if i == 1 {
    } else if i == 2 {
    } else if i == 3 {
    } else if i == 4 {
    } else if i == 5 {
    } else if i == 6 {
    } else {
    }
}

proof fn lemma_crc8_shift(f: u8, byte: u8, i: u8)
    requires
        i < 8,
    ensures
        ({
            let x = f ^ (byte << i);
            let sx = if x & 0x80 != 0 {
                (x << 1u8) ^ 0x07u8
            } else {
                x << 1u8
            };
            sx == crc8_step(f, (byte >> ((7 - i) as u8)) & 1 == 1) ^ (byte << ((i + 1) as u8))
        }),
{
    assert({
        let x = f ^ (byte << i);
        let sx = if x & 0x80 != 0 {
            (x << 1u8) ^ 0x07u8
        } else {
            x << 1u8
        };
        let b = (byte >> ((7 - i) as u8)) & 1 == 1;
        let st = if ((f >> 7u8) & 1 == 1) != b {
            (f << 1u8) ^ 0x07u8
        } else {
            f << 1u8
        };
        sx == st ^ (byte << ((i + 1) as u8))
    }) by (bit_vector)
        requires
            i < 8,
    ;
}

/// Feeds one byte into the CRC-8 register.
fn crc8_byte(r: u8, byte: u8) -> (out: u8)
    ensures
        out == crc8_fold(r, byte_bits(byte)),
{
    let mut x: u8 = r ^ byte;
    let mut i: u8 = 0;
    proof {
        assert(byte << 0u8 == byte) by (bit_vector);
        assert(byte_bits(byte).take(0) =~= Seq::<bool>::empty());
    }
    while i < 8
        invariant
            i <= 8,
            x == crc8_fold(r, byte_bits(byte).take(i as int)) ^ (byte << i),
        decreases 8 - i,
    {
        let ghost f = crc8_fold(r, byte_bits(byte).take(i as int));
        proof {
            lemma_crc8_shift(f, byte, i);
            lemma_byte_bit(byte, i);
            assert(byte_bits(byte).take(i + 1).drop_last() =~= byte_bits(byte).take(i as int));
        }
        x = if x & 0x80 != 0 {
            (x << 1) ^ 0x07
        } else {
            x << 1
        };
        i = i + 1;
    }
    proof {
        let f = crc8_fold(r, byte_bits(byte).take(i as int));
        assert(x == f) by (bit_vector)
            requires
                x == f ^ (byte << i),
                i == 8,
        ;
        assert(byte_bits(byte).take(8) =~= byte_bits(byte));
    }
    x
}

proof fn lemma_crc8_fold_concat(r: u8, a: Seq<bool>, b: Seq<bool>)
    ensures
        crc8_fold(r, a + b) == crc8_fold(crc8_fold(r, a), b),
    decreases b.len(),
{
    if b.len() == 0 {
        assert(a + b =~= a);
    } else {
        lemma_crc8_fold_concat(r, a, b.drop_last());
        assert((a + b).drop_last() =~= a + b.drop_last());
    }
}

/// The CRC-8 (polynomial x^8 + x^2 + x + 1) of `data`.
pub fn crc8(data: &[u8]) -> (r: u8)
    ensures
        r == spec_crc8(data@),
{
    let mut crc: u8 = 0;
    let mut i: usize = 0;
    while i < data.len()
        invariant
            i <= data@.len(),
            crc == crc8_fold(0, bytes_bits(data@.take(i as int))),
        decreases data@.len() - i,
    {
        let ghost pre = data@.take(i as int);
        crc = crc8_byte(crc, data[i]);
        proof {
            lemma_bytes_bits_push(pre, data@[i as int]);
            assert(data@.take(i + 1) =~= pre.push(data@[i as int]));
            lemma_crc8_fold_concat(0, bytes_bits(pre), byte_bits(data@[i as int]));
        }
        i = i + 1;
    }
    proof {
        assert(data@.take(i as int) =~= data@);
    }
    crc
}

proof fn lemma_crc16_shift(f: u16, byte: u8, i: u16)
    requires
        i < 8,
    ensures
        ({
            let w = byte as u16;
            let x = f ^ (w << ((8 + i) as u16));
            let sx = if x & 0x8000 != 0 {
                (x << 1u16) ^ 0x8005u16
            } else {
                x << 1u16
            };
            sx == crc16_step(f, (byte >> ((7 - i) as u8)) & 1 == 1) ^ (w << ((9 + i) as u16))
        }),
{
    let w = byte as u16;
    let j = i as u8;
    assert(((byte >> ((7 - j) as u8)) & 1 == 1) == ((w >> ((7 - i) as u16)) & 1 == 1))
        by (bit_vector)
        requires
            w == byte as u16,
            j == i,
            i < 8,
    ;
    assert({
        let x = f ^ (w << ((8 + i) as u16));
        let sx = if x & 0x8000 != 0 {
            (x << 1u16) ^ 0x8005u16
        } else {
            x << 1u16
        };
        let b = (w >> ((7 - i) as u16)) & 1 == 1;
        let st = if ((f >> 15u16) & 1 == 1) != b {
            (f << 1u16) ^ 0x8005u16
        } else {
            f << 1u16
        };
        sx == st ^ (w << ((9 + i) as u16))
    }) by (bit_vector)
        requires
            i < 8,
            w <= 255,
    ;
}

fn crc16_byte(r: u16, byte: u8) -> (out: u16)
    ensures
        out == crc16_fold(r, byte_bits(byte)),
{
    let w: u16 = byte as u16;
    let mut x: u16 = r ^ (w << 8);
    let mut i: u16 = 0;
    proof {
        assert(byte_bits(byte).take(0) =~= Seq::<bool>::empty());
    }
    while i < 8
        invariant
            i <= 8,
            w == byte as u16,
            x == crc16_fold(r, byte_bits(byte).take(i as int)) ^ (w << ((8 + i) as u16)),
        decreases 8 - i,
    {
        let ghost f = crc16_fold(r, byte_bits(byte).take(i as int));
        proof {
            lemma_crc16_shift(f, byte, i);
            lemma_byte_bit(byte, i as u8);
            assert(byte_bits(byte).take(i + 1).drop_last() =~= byte_bits(byte).take(i as int));
        }
        x = if x & 0x8000 != 0 {
            (x << 1) ^ 0x8005
        } else {
            x << 1
        };
        i = i + 1;
    }
    proof {
        let f = crc16_fold(r, byte_bits(byte).take(i as int));
        assert(x == f) by (bit_vector)
            requires
                x == f ^ (w << ((8 + i) as u16)),
                i == 8,
        ;
        assert(byte_bits(byte).take(8) =~= byte_bits(byte));
    }
    x
}

proof fn lemma_crc16_fold_concat(r: u16, a: Seq<bool>, b: Seq<bool>)
    ensures
        crc16_fold(r, a + b) == crc16_fold(crc16_fold(r, a), b),
    decreases b.len(),
{
    if b.len() == 0 {
        assert(a + b =~= a);
    } else {
        lemma_crc16_fold_concat(r, a, b.drop_last());
        assert((a + b).drop_last() =~= a + b.drop_last());
    }
}

/// The CRC-16 (polynomial x^16 + x^15 + x^2 + 1) of `data`.
pub fn crc16(data: &[u8]) -> (r: u16)
    ensures
        r == spec_crc16(data@),
{
    let mut crc: u16 = 0;
    let mut i: usize = 0;
    while i < data.len()
        invariant
            i <= data@.len(),
            crc == crc16_fold(0, bytes_bits(data@.take(i as int))),
        decreases data@.len() - i,
    {
        let ghost pre = data@.take(i as int);
        crc = crc16_byte(crc, data[i]);
        proof {
            lemma_bytes_bits_push(pre, data@[i as int]);
            assert(data@.take(i + 1) =~= pre.push(data@[i as int]));
            lemma_crc16_fold_concat(0, bytes_bits(pre), byte_bits(data@[i as int]));
        }
        i = i + 1;
    }
    proof {
        assert(data@.take(i as int) =~= data@);
    }
    crc
}

proof fn lemma_crc32_shift(f: u32, byte: u8, i: u32)
    requires
        i < 8,
    ensures
        ({
            let w = byte as u32;
            let x = f ^ (w << ((24 + i) as u32));
            let sx = if x & 0x8000_0000 != 0 {
                (x << 1u32) ^ 0x04c1_1db7u32
            } else {
                x << 1u32
            };
            sx == crc32_step(f, (byte >> ((7 - i) as u8)) & 1 == 1) ^ (w << ((25 + i) as u32))
        }),
{
    let w = byte as u32;
    let j = i as u8;
    assert(((byte >> ((7 - j) as u8)) & 1 == 1) == ((w >> ((7 - i) as u32)) & 1 == 1))
        by (bit_vector)
        requires
            w == byte as u32,
            j == i,
            i < 8,
    ;
    assert({
        let x = f ^ (w << ((24 + i) as u32));
        let sx = if x & 0x8000_0000 != 0 {
            (x << 1u32) ^ 0x04c1_1db7u32
        } else {
            x << 1u32
        };
        let b = (w >> ((7 - i) as u32)) & 1 == 1;
        let st = if ((f >> 31u32) & 1 == 1) != b {
            (f << 1u32) ^ 0x04c1_1db7u32
        } else {
            f << 1u32
        };
        sx == st ^ (w << ((25 + i) as u32))
    }) by (bit_vector)
        requires
            i < 8,
            w <= 255,
    ;
}

fn crc32_byte(r: u32, byte: u8) -> (out: u32)
    ensures
        out == crc32_fold(r, byte_bits(byte)),
{
    let w: u32 = byte as u32;
    let mut x: u32 = r ^ (w << 24);
    let mut i: u32 = 0;
    proof {
        assert(byte_bits(byte).take(0) =~= Seq::<bool>::empty());
    }
    while i < 8
        invariant
            i <= 8,
            w == byte as u32,
            x == crc32_fold(r, byte_bits(byte).take(i as int)) ^ (w << ((24 + i) as u32)),
        decreases 8 - i,
    {
        let ghost f = crc32_fold(r, byte_bits(byte).take(i as int));
        proof {
            lemma_crc32_shift(f, byte, i);
            lemma_byte_bit(byte, i as u8);
            assert(byte_bits(byte).take(i + 1).drop_last() =~= byte_bits(byte).take(i as int));
        }
        x = if x & 0x8000_0000 != 0 {
            (x << 1) ^ 0x04c1_1db7
        } else {
            x << 1
        };
        i = i + 1;
    }
    proof {
        let f = crc32_fold(r, byte_bits(byte).take(i as int));
        assert(x == f) by (bit_vector)
            requires
                x == f ^ (w << ((24 + i) as u32)),
                i == 8,
        ;
        assert(byte_bits(byte).take(8) =~= byte_bits(byte));
    }
    x
}

proof fn lemma_crc32_fold_concat(r: u32, a: Seq<bool>, b: Seq<bool>)
    ensures
        crc32_fold(r, a + b) == crc32_fold(crc32_fold(r, a), b),
    decreases b.len(),
{
    if b.len() == 0 {
        assert(a + b =~= a);
    } else {
        lemma_crc32_fold_concat(r, a, b.drop_last());
        assert((a + b).drop_last() =~= a + b.drop_last());
    }
}

/// The Ogg page CRC-32 (polynomial 0x04C11DB7) of `data`.
pub fn ogg_crc(data: &[u8]) -> (r: u32)
    ensures
        r == spec_crc32(data@),
{
    let mut crc: u32 = 0;
    let mut i: usize = 0;
    while i < data.len()
        invariant
            i <= data@.len(),
            crc == crc32_fold(0, bytes_bits(data@.take(i as int))),
        decreases data@.len() - i,
    {
        let ghost pre = data@.take(i as int);
        crc = crc32_byte(crc, data[i]);
        proof {
            lemma_bytes_bits_push(pre, data@[i as int]);
            assert(data@.take(i + 1) =~= pre.push(data@[i as int]));
            lemma_crc32_fold_concat(0, bytes_bits(pre), byte_bits(data@[i as int]));
        }
        i = i + 1;
    }
    proof {
        assert(data@.take(i as int) =~= data@);
    }
    crc
}

} // verus!
