//! Bit-sequence and byte-sequence models shared by the bit writer, the CRCs
//! and the container writers.
use vstd::prelude::*;

verus! {

/// The eight bits of `b`, most significant first.
pub open spec fn byte_bits(b: u8) -> Seq<bool> {
    seq![
        (b >> 7u8) & 1 == 1,
        (b >> 6u8) & 1 == 1,
        (b >> 5u8) & 1 == 1,
        (b >> 4u8) & 1 == 1,
        (b >> 3u8) & 1 == 1,
        (b >> 2u8) & 1 == 1,
        (b >> 1u8) & 1 == 1,
        (b >> 0u8) & 1 == 1,
    ]
}

/// The bits of a byte string, each byte most significant bit first.
pub open spec fn bytes_bits(s: Seq<u8>) -> Seq<bool>
    decreases s.len(),
{
    if s.len() == 0 {
        Seq::empty()
    } else {
        bytes_bits(s.drop_last()) + byte_bits(s.last())
    }
}

/// The low `n` bits of `v`, most significant first.
pub open spec fn value_bits(v: u64, n: nat) -> Seq<bool> {
    Seq::new(n, |i: int| (v >> ((n - 1 - i) as u64)) & 1 == 1)
}

/// `n` zero bits.
pub open spec fn zero_bits(n: nat) -> Seq<bool> {
    Seq::new(n, |i: int| false)
}

/// The number of zero bits that complete `len` bits to a whole number of bytes.
pub open spec fn pad_len(len: nat) -> nat {
    ((8 - (len % 8)) % 8) as nat
}

/// A byte string as little-endian 16-bit value.
pub open spec fn le16(v: u16) -> Seq<u8> {
    seq![v as u8, (v >> 8u16) as u8]
}

pub open spec fn le32(v: u32) -> Seq<u8> {
    seq![v as u8, (v >> 8u32) as u8, (v >> 16u32) as u8, (v >> 24u32) as u8]
}

pub open spec fn le64(v: u64) -> Seq<u8> {
    seq![
        v as u8,
        (v >> 8u64) as u8,
        (v >> 16u64) as u8,
        (v >> 24u64) as u8,
        (v >> 32u64) as u8,
        (v >> 40u64) as u8,
        (v >> 48u64) as u8,
        (v >> 56u64) as u8,
    ]
}

pub open spec fn be16(v: u16) -> Seq<u8> {
    seq![(v >> 8u16) as u8, v as u8]
}

pub open spec fn be32(v: u32) -> Seq<u8> {
    seq![(v >> 24u32) as u8, (v >> 16u32) as u8, (v >> 8u32) as u8, v as u8]
}

pub open spec fn be64(v: u64) -> Seq<u8> {
    seq![
        (v >> 56u64) as u8,
        (v >> 48u64) as u8,
        (v >> 40u64) as u8,
        (v >> 32u64) as u8,
        (v >> 24u64) as u8,
        (v >> 16u64) as u8,
        (v >> 8u64) as u8,
        v as u8,
    ]
}

pub proof fn lemma_bytes_bits_len(s: Seq<u8>)
    ensures
        bytes_bits(s).len() == 8 * s.len(),
    decreases s.len(),
{
    if s.len() > 0 {
        lemma_bytes_bits_len(s.drop_last());
    }
}

pub proof fn lemma_bytes_bits_push(s: Seq<u8>, b: u8)
    ensures
        bytes_bits(s.push(b)) == bytes_bits(s) + byte_bits(b),
{
    assert(s.push(b).drop_last() =~= s);
}

pub proof fn lemma_bytes_bits_concat(a: Seq<u8>, b: Seq<u8>)
    ensures
        bytes_bits(a + b) == bytes_bits(a) + bytes_bits(b),
    decreases b.len(),
{
    if b.len() == 0 {
        assert(a + b =~= a);
        assert(bytes_bits(b) =~= Seq::<bool>::empty());
        assert(bytes_bits(a) + bytes_bits(b) =~= bytes_bits(a));
    } else {
        lemma_bytes_bits_concat(a, b.drop_last());
        assert((a + b).drop_last() =~= a + b.drop_last());
        assert((a + b).last() == b.last());
        assert(bytes_bits(a + b) == bytes_bits(a + b.drop_last()) + byte_bits(b.last()));
        assert(bytes_bits(a) + bytes_bits(b) =~= bytes_bits(a) + bytes_bits(b.drop_last())
            + byte_bits(b.last()));
    }
}

proof fn lemma_byte_bits_injective_bv(x: u8, y: u8)
    requires
        ((x >> 7u8) & 1 == 1) == ((y >> 7u8) & 1 == 1),
        ((x >> 6u8) & 1 == 1) == ((y >> 6u8) & 1 == 1),
        ((x >> 5u8) & 1 == 1) == ((y >> 5u8) & 1 == 1),
        ((x >> 4u8) & 1 == 1) == ((y >> 4u8) & 1 == 1),
        ((x >> 3u8) & 1 == 1) == ((y >> 3u8) & 1 == 1),
        ((x >> 2u8) & 1 == 1) == ((y >> 2u8) & 1 == 1),
        ((x >> 1u8) & 1 == 1) == ((y >> 1u8) & 1 == 1),
        ((x >> 0u8) & 1 == 1) == ((y >> 0u8) & 1 == 1),
    ensures
        x == y,
{
    assert(x == y) by (bit_vector)
        requires
            ((x >> 7u8) & 1 == 1) == ((y >> 7u8) & 1 == 1),
            ((x >> 6u8) & 1 == 1) == ((y >> 6u8) & 1 == 1),
            ((x >> 5u8) & 1 == 1) == ((y >> 5u8) & 1 == 1),
            ((x >> 4u8) & 1 == 1) == ((y >> 4u8) & 1 == 1),
            ((x >> 3u8) & 1 == 1) == ((y >> 3u8) & 1 == 1),
            ((x >> 2u8) & 1 == 1) == ((y >> 2u8) & 1 == 1),
            ((x >> 1u8) & 1 == 1) == ((y >> 1u8) & 1 == 1),
            ((x >> 0u8) & 1 == 1) == ((y >> 0u8) & 1 == 1),
    ;
}

pub proof fn lemma_byte_bits_injective(x: u8, y: u8)
    requires
        byte_bits(x) == byte_bits(y),
    ensures
        x == y,
{
    assert(byte_bits(x)[0] == byte_bits(y)[0]);
    assert(byte_bits(x)[1] == byte_bits(y)[1]);
    assert(byte_bits(x)[2] == byte_bits(y)[2]);
    assert(byte_bits(x)[3] == byte_bits(y)[3]);
    assert(byte_bits(x)[4] == byte_bits(y)[4]);
    assert(byte_bits(x)[5] == byte_bits(y)[5]);
    assert(byte_bits(x)[6] == byte_bits(y)[6]);
    assert(byte_bits(x)[7] == byte_bits(y)[7]);
    lemma_byte_bits_injective_bv(x, y);
}

/// Byte strings with the same bits are equal.
pub proof fn lemma_bytes_bits_injective(a: Seq<u8>, b: Seq<u8>)
    requires
        bytes_bits(a) == bytes_bits(b),
    ensures
        a == b,
    decreases a.len(),
{
    lemma_bytes_bits_len(a);
    lemma_bytes_bits_len(b);
    if a.len() > 0 {
        let n = bytes_bits(a).len();
        assert(bytes_bits(a.drop_last()) =~= bytes_bits(a).take(n - 8));
        assert(bytes_bits(b.drop_last()) =~= bytes_bits(b).take(n - 8));
        lemma_bytes_bits_injective(a.drop_last(), b.drop_last());
        lemma_bytes_bits_len(a.drop_last());
        assert(byte_bits(a.last()) =~= bytes_bits(a).skip(n - 8));
        assert(byte_bits(b.last()) =~= bytes_bits(b).skip(n - 8));
        lemma_byte_bits_injective(a.last(), b.last());
        assert(a =~= a.drop_last().push(a.last()));
        assert(b =~= b.drop_last().push(b.last()));
    } else {
        assert(a =~= b);
    }
}

} // verus!

verus! {

/// The byte whose bits, most significant first, are `b[0..8]`.
pub open spec fn bits_byte(b: Seq<bool>) -> u8 {
    ((if b[0] { 128u8 } else { 0u8 }) | (if b[1] { 64u8 } else { 0u8 }) | (if b[2] { 32u8 } else { 0u8 })
        | (if b[3] { 16u8 } else { 0u8 }) | (if b[4] { 8u8 } else { 0u8 }) | (if b[5] { 4u8 } else { 0u8 })
        | (if b[6] { 2u8 } else { 0u8 }) | (if b[7] { 1u8 } else { 0u8 }))
}

/// Packs a bit string into bytes, eight bits per byte, most significant first
/// (trailing bits short of a byte are dropped).
pub open spec fn pack_bits(bits: Seq<bool>) -> Seq<u8>
    decreases bits.len(),
{
    if bits.len() < 8 {
        Seq::empty()
    } else {
        pack_bits(bits.take(bits.len() - 8)).push(bits_byte(bits.skip(bits.len() - 8)))
    }
}

proof fn lemma_bits_byte(b0: bool, b1: bool, b2: bool, b3: bool, b4: bool, b5: bool, b6: bool, b7: bool)
    ensures
        ({
            let x: u8 = (if b0 { 128u8 } else { 0u8 }) | (if b1 { 64u8 } else { 0u8 }) | (if b2 { 32u8 } else { 0u8 })
                | (if b3 { 16u8 } else { 0u8 }) | (if b4 { 8u8 } else { 0u8 }) | (if b5 { 4u8 } else { 0u8 })
                | (if b6 { 2u8 } else { 0u8 }) | (if b7 { 1u8 } else { 0u8 });
            &&& ((x >> 7u8) & 1 == 1) == b0
            &&& ((x >> 6u8) & 1 == 1) == b1
            &&& ((x >> 5u8) & 1 == 1) == b2
            &&& ((x >> 4u8) & 1 == 1) == b3
            &&& ((x >> 3u8) & 1 == 1) == b4
            &&& ((x >> 2u8) & 1 == 1) == b5
            &&& ((x >> 1u8) & 1 == 1) == b6
            &&& ((x >> 0u8) & 1 == 1) == b7
        }),
{
    assert({
        let x: u8 = (if b0 { 128u8 } else { 0u8 }) | (if b1 { 64u8 } else { 0u8 }) | (if b2 { 32u8 } else { 0u8 })
            | (if b3 { 16u8 } else { 0u8 }) | (if b4 { 8u8 } else { 0u8 }) | (if b5 { 4u8 } else { 0u8 })
            | (if b6 { 2u8 } else { 0u8 }) | (if b7 { 1u8 } else { 0u8 });
        &&& ((x >> 7u8) & 1 == 1) == b0
        &&& ((x >> 6u8) & 1 == 1) == b1
        &&& ((x >> 5u8) & 1 == 1) == b2
        &&& ((x >> 4u8) & 1 == 1) == b3
        &&& ((x >> 3u8) & 1 == 1) == b4
        &&& ((x >> 2u8) & 1 == 1) == b5
        &&& ((x >> 1u8) & 1 == 1) == b6
        &&& ((x >> 0u8) & 1 == 1) == b7
    }) by (bit_vector);
}

pub proof fn lemma_byte_bits_of_bits_byte(b: Seq<bool>)
    requires
        b.len() == 8,
    ensures
        byte_bits(bits_byte(b)) == b,
{
    lemma_bits_byte(b[0], b[1], b[2], b[3], b[4], b[5], b[6], b[7]);
    assert(byte_bits(bits_byte(b)) =~= b);
}

/// Packing then unpacking a whole number of bytes gives back the bits.
pub proof fn lemma_pack_bits(bits: Seq<bool>)
    requires
        bits.len() % 8 == 0,
    ensures
        bytes_bits(pack_bits(bits)) == bits,
        pack_bits(bits).len() * 8 == bits.len(),
    decreases bits.len(),
{
    if bits.len() >= 8 {
        let n = bits.len();
        lemma_pack_bits(bits.take(n - 8));
        lemma_byte_bits_of_bits_byte(bits.skip(n - 8));
        lemma_bytes_bits_push(pack_bits(bits.take(n - 8)), bits_byte(bits.skip(n - 8)));
        assert(bits.take(n - 8) + bits.skip(n - 8) =~= bits);
    } else {
        assert(bits =~= Seq::<bool>::empty());
    }
}

/// A byte string is the packing of its own bits.
pub proof fn lemma_pack_of_bytes(s: Seq<u8>, bits: Seq<bool>)
    requires
        bytes_bits(s) == bits,
    ensures
        s == pack_bits(bits),
{
    lemma_bytes_bits_len(s);
    lemma_pack_bits(bits);
    lemma_bytes_bits_injective(s, pack_bits(bits));
}

/// The first `k` bytes of a byte string carry its first `8k` bits.
pub proof fn lemma_bytes_bits_take(s: Seq<u8>, k: int)
    requires
        0 <= k <= s.len(),
    ensures
        bytes_bits(s.take(k)) == bytes_bits(s).take(8 * k),
{
    lemma_bytes_bits_concat(s.take(k), s.skip(k));
    assert(s.take(k) + s.skip(k) =~= s);
    lemma_bytes_bits_len(s.take(k));
    assert(bytes_bits(s).take(8 * k) =~= bytes_bits(s.take(k)));
}

} // verus!

verus! {

/// Appends `v` little-endian.
pub fn push_le16(out: &mut Vec<u8>, v: u16)
    ensures
        final(out)@ == old(out)@ + le16(v),
{
    out.push(v as u8);
    out.push((v >> 8) as u8);
    assert(final(out)@ =~= old(out)@ + le16(v));
}

/// Appends `v` little-endian.
pub fn push_le32(out: &mut Vec<u8>, v: u32)
    ensures
        final(out)@ == old(out)@ + le32(v),
{
    out.push(v as u8);
    out.push((v >> 8) as u8);
    out.push((v >> 16) as u8);
    out.push((v >> 24) as u8);
    assert(final(out)@ =~= old(out)@ + le32(v));
}

/// Appends `v` little-endian.
pub fn push_le64(out: &mut Vec<u8>, v: u64)
    ensures
        final(out)@ == old(out)@ + le64(v),
{
    out.push(v as u8);
    out.push((v >> 8) as u8);
    out.push((v >> 16) as u8);
    out.push((v >> 24) as u8);
    out.push((v >> 32) as u8);
    out.push((v >> 40) as u8);
    out.push((v >> 48) as u8);
    out.push((v >> 56) as u8);
    assert(final(out)@ =~= old(out)@ + le64(v));
}

/// Appends `v` big-endian.
pub fn push_be16(out: &mut Vec<u8>, v: u16)
    ensures
        final(out)@ == old(out)@ + be16(v),
{
    out.push((v >> 8) as u8);
    out.push(v as u8);
    assert(final(out)@ =~= old(out)@ + be16(v));
}

/// Appends `v` big-endian.
pub fn push_be32(out: &mut Vec<u8>, v: u32)
    ensures
        final(out)@ == old(out)@ + be32(v),
{
    out.push((v >> 24) as u8);
    out.push((v >> 16) as u8);
    out.push((v >> 8) as u8);
    out.push(v as u8);
    assert(final(out)@ =~= old(out)@ + be32(v));
}

/// Appends `v` big-endian.
pub fn push_be64(out: &mut Vec<u8>, v: u64)
    ensures
        final(out)@ == old(out)@ + be64(v),
{
    out.push((v >> 56) as u8);
    out.push((v >> 48) as u8);
    out.push((v >> 40) as u8);
    out.push((v >> 32) as u8);
    out.push((v >> 24) as u8);
    out.push((v >> 16) as u8);
    out.push((v >> 8) as u8);
    out.push(v as u8);
    assert(final(out)@ =~= old(out)@ + be64(v));
}

/// Appends the bytes of `src`.
pub fn push_all(out: &mut Vec<u8>, src: &[u8])
    ensures
        final(out)@ == old(out)@ + src@,
{
    let mut i: usize = 0;
    while i < src.len()
        invariant
            i <= src@.len(),
            out@ == old(out)@ + src@.take(i as int),
        decreases src@.len() - i,
    {
        out.push(src[i]);
        i = i + 1;
        assert(out@ =~= old(out)@ + src@.take(i as int));
    }
    assert(src@.take(i as int) =~= src@);
}

} // verus!
