use vstd::prelude::*;

use crate::bits::{
    byte_bits, bytes_bits, lemma_bytes_bits_concat, lemma_bytes_bits_len, lemma_bytes_bits_push,
    pad_len, value_bits, zero_bits,
};

verus! {

/// Bit `p` (most significant first) of `x`, for `p < 8`.
pub open spec fn bit_at(x: u8, p: u8) -> bool {
    (x >> ((7 - p) as u8)) & 1 == 1
}

proof fn lemma_byte_bits_index(x: u8, p: u8)
    requires
        p < 8,
    ensures
        byte_bits(x)[p as int] == bit_at(x, p),
{
    if p == 0 {
    } else if p == 1 {
    } else if p == 2 {
    } else if p == 3 {
    } else if p == 4 {
    } else if p == 5 {
    } else if p == 6 {
    } else {
    }
}

proof fn lemma_set_bit(c: u8, k: u8, bb: u8)
    requires
        k < 8,
        bb <= 1,
        c & (0xffu8 >> k) == 0,
    ensures
        forall|p: u8| p < k ==> bit_at(c | (bb << ((7 - k) as u8)), p) == bit_at(c, p),
        bit_at(c | (bb << ((7 - k) as u8)), k) == (bb == 1),
        k < 7 ==> (c | (bb << ((7 - k) as u8))) & (0xffu8 >> ((k + 1) as u8)) == 0,
        forall|p: u8| k <= p < 8 ==> !bit_at(c, p),
{
    let s: u8 = (7 - k) as u8;
    assert(forall|p: u8|
        p < k ==> #[trigger] ((c | (bb << s)) >> ((7 - p) as u8)) & 1 == (c >> ((7 - p) as u8)) & 1)
        by (bit_vector)
        requires
            k < 8,
            bb <= 1,
            s == 7 - k,
    ;
    assert(((c | (bb << s)) >> s) & 1 == bb) by (bit_vector)
        requires
            k < 8,
            bb <= 1,
            s == 7 - k,
            c & (0xffu8 >> k) == 0,
    ;
    assert(k < 7 ==> (c | (bb << s)) & (0xffu8 >> ((k + 1) as u8)) == 0) by (bit_vector)
        requires
            k < 8,
            bb <= 1,
            s == 7 - k,
            c & (0xffu8 >> k) == 0,
    ;
    assert(forall|p: u8| k <= p < 8 ==> #[trigger] ((c >> ((7 - p) as u8)) & 1) == 0)
        by (bit_vector)
        requires
            k < 8,
            c & (0xffu8 >> k) == 0,
    ;
}

} // verus!

verus! {

/// The FLAC "UTF-8" coding of a frame or sample number (up to 36 bits in the
/// format; here of a `u32`).
pub open spec fn utf8_number(v: u32) -> Seq<u8> {
    if v < 0x80 {
        seq![v as u8]
    } else if v < 0x800 {
        seq![(0xC0 | (v >> 6u32)) as u8, (0x80 | (v & 0x3F)) as u8]
    } else if v < 0x1_0000 {
        seq![
            (0xE0 | (v >> 12u32)) as u8,
            (0x80 | ((v >> 6u32) & 0x3F)) as u8,
            (0x80 | (v & 0x3F)) as u8,
        ]
    } else if v < 0x20_0000 {
        seq![
            (0xF0 | (v >> 18u32)) as u8,
            (0x80 | ((v >> 12u32) & 0x3F)) as u8,
            (0x80 | ((v >> 6u32) & 0x3F)) as u8,
            (0x80 | (v & 0x3F)) as u8,
        ]
    } else if v < 0x400_0000 {
        seq![
            (0xF8 | (v >> 24u32)) as u8,
            (0x80 | ((v >> 18u32) & 0x3F)) as u8,
            (0x80 | ((v >> 12u32) & 0x3F)) as u8,
            (0x80 | ((v >> 6u32) & 0x3F)) as u8,
            (0x80 | (v & 0x3F)) as u8,
        ]
    } else {
        seq![
            (0xFC | (v >> 30u32)) as u8,
            (0x80 | ((v >> 24u32) & 0x3F)) as u8,
            (0x80 | ((v >> 18u32) & 0x3F)) as u8,
            (0x80 | ((v >> 12u32) & 0x3F)) as u8,
            (0x80 | ((v >> 6u32) & 0x3F)) as u8,
            (0x80 | (v & 0x3F)) as u8,
        ]
    }
}

/// `count` one bits followed by a zero bit.
pub open spec fn unary_bits(count: nat) -> Seq<bool> {
    Seq::new(count, |i: int| true).push(false)
}

/// Packs bits most significant first into bytes.
#[derive(Debug)]
pub struct BitWriter {
    buf: Vec<u8>,
    current: u8,
    bits: u8,
}

impl BitWriter {
    /// The bits written so far.
    pub closed spec fn view(&self) -> Seq<bool> {
        bytes_bits(self.buf@) + byte_bits(self.current).take(self.bits as int)
    }

    /// The pending partial byte is left-aligned and its unused bits are zero.
    pub closed spec fn wf(&self) -> bool {
        &&& self.bits < 8
        &&& self.current & (0xffu8 >> self.bits) == 0
    }

    pub fn new() -> (r: Self)
        ensures
            r.wf(),
            r.view() == Seq::<bool>::empty(),
    {
        let r = BitWriter { buf: Vec::new(), current: 0, bits: 0 };
        proof {
            lemma_empty_byte_clear();
            assert(r.view() =~= Seq::<bool>::empty());
        }
        r
    }

    pub fn with_capacity(bytes: usize) -> (r: Self)
        ensures
            r.wf(),
            r.view() == Seq::<bool>::empty(),
    {
        let r = BitWriter { buf: Vec::with_capacity(bytes), current: 0, bits: 0 };
        proof {
            lemma_empty_byte_clear();
            assert(r.view() =~= Seq::<bool>::empty());
        }
        r
    }

    /// Appends one bit.
    fn push_bit(&mut self, bit: bool)
        requires
            old(self).wf(),
        ensures
            final(self).wf(),
            final(self).view() == old(self).view().push(bit),
    {
        let bb: u8 = if bit {
            1
        } else {
            0
        };
        let k = self.bits;
        let c = self.current;
        let s: u8 = 7 - k;
        let nc: u8 = c | (bb << s);
        proof {
            lemma_set_bit(c, k, bb);
            assert forall|j: int| 0 <= j < k + 1 implies #[trigger] byte_bits(nc).take(
                k + 1,
            )[j] == byte_bits(c).take(k as int).push(bit)[j] by {
                lemma_byte_bits_index(nc, j as u8);
                lemma_byte_bits_index(c, j as u8);
            }
            assert(byte_bits(nc).take(k + 1) =~= byte_bits(c).take(k as int).push(bit));
        }
        self.current = nc;
        self.bits = k + 1;
        if self.bits == 8 {
            let ghost old_buf = self.buf@;
            self.buf.push(nc);
            self.current = 0;
            self.bits = 0;
            proof {
                lemma_bytes_bits_push(old_buf, nc);
                assert(byte_bits(nc).take(8) =~= byte_bits(nc));
                assert(byte_bits(0u8).take(0) =~= Seq::<bool>::empty());
                lemma_empty_byte_clear();
                assert(self.view() =~= bytes_bits(old_buf) + byte_bits(c).take(k as int).push(
                    bit,
                ));
            }
        } else {
            proof {
                assert(self.view() =~= bytes_bits(self.buf@) + byte_bits(c).take(k as int).push(
                    bit,
                ));
            }
        }
    }

    /// Appends the low `n` bits of `value`, most significant first.
    pub fn write_bits(&mut self, value: u64, n: u8)
        requires
            old(self).wf(),
            n <= 64,
        ensures
            final(self).wf(),
            final(self).view() == old(self).view() + value_bits(value, n as nat),
    {
        let ghost start = self.view();
        let mut remaining: u8 = n;
        while remaining > 0
            invariant
                self.wf(),
                remaining <= n <= 64,
                self.view() == start + value_bits(value, n as nat).take(n - remaining),
            decreases remaining,
        {
            let bit = (value >> ((remaining - 1) as u64)) & 1 == 1;
            let ghost before = self.view();
            self.push_bit(bit);
            remaining = remaining - 1;
            proof {
                let vb = value_bits(value, n as nat);
                assert(vb[n - remaining - 1] == bit);
                assert(vb.take(n - remaining) =~= vb.take(n - remaining - 1).push(bit));
                assert(self.view() =~= start + vb.take(n - remaining));
            }
        }
        proof {
            assert(value_bits(value, n as nat).take(n as int) =~= value_bits(value, n as nat));
        }
    }

    pub fn write_bit(&mut self, bit: bool)
        requires
            old(self).wf(),
        ensures
            final(self).wf(),
            final(self).view() == old(self).view().push(bit),
    {
        let v: u64 = if bit {
            1
        } else {
            0
        };
        self.write_bits(v, 1);
        proof {
            assert((v >> 0u64) & 1 == v) by (bit_vector)
                requires
                    v <= 1,
            ;
            assert(value_bits(v, 1) =~= seq![bit]);
        }
    }
}


proof fn lemma_empty_byte_clear()
    ensures
        0u8 & (0xffu8 >> 0u8) == 0,
{
    assert(0u8 & (0xffu8 >> 0u8) == 0) by (bit_vector);
}

proof fn lemma_value_bits_byte(v: u64)
    requires
        v < 256,
    ensures
        value_bits(v, 8) == byte_bits(v as u8),
{
    let b = v as u8;
    assert((((v >> 7u64) & 1 == 1) == ((b >> 7u8) & 1 == 1)) && (((v >> 6u64) & 1 == 1) == ((b >> 6u8) & 1 == 1)) && (((v >> 5u64) & 1 == 1) == ((b >> 5u8) & 1 == 1)) && (((v >> 4u64) & 1 == 1) == ((b >> 4u8) & 1 == 1)) && (((v >> 3u64) & 1 == 1) == ((b >> 3u8) & 1 == 1)) && (((v >> 2u64) & 1 == 1) == ((b >> 2u8) & 1 == 1)) && (((v >> 1u64) & 1 == 1) == ((b >> 1u8) & 1 == 1)) && (((v >> 0u64) & 1 == 1) == ((b >> 0u8) & 1 == 1))) by (bit_vector)
        requires
            v < 256,
            b == v as u8,
    ;
    assert(value_bits(v, 8) =~= byte_bits(b));
}

pub proof fn lemma_low_bits_of_mask(v: u64, n: u8)
    requires
        0 < n <= 64,
    ensures
        value_bits(
            v & (if n == 64 {
                0xffff_ffff_ffff_ffffu64
            } else {
                ((1u64 << n) - 1) as u64
            }),
            n as nat,
        ) == value_bits(v, n as nat),
{
    let mask: u64 = if n == 64 {
        0xffff_ffff_ffff_ffffu64
    } else {
        ((1u64 << n) - 1) as u64
    };
    let m = n as u64;
    assert(forall|i: u64| i < m ==> #[trigger] ((v & mask) >> i) & 1 == (v >> i) & 1)
        by (bit_vector)
        requires
            0 < m <= 64,
            mask == if m == 64 {
                0xffff_ffff_ffff_ffffu64
            } else {
                ((1u64 << m) - 1) as u64
            },
    ;
    assert forall|j: int| 0 <= j < n implies #[trigger] value_bits(v & mask, n as nat)[j]
        == value_bits(v, n as nat)[j] by {
        let i = (n - 1 - j) as u64;
        assert(i < m);
        assert(((v & mask) >> i) & 1 == (v >> i) & 1);
    }
    assert(value_bits(v & mask, n as nat) =~= value_bits(v, n as nat));
}

proof fn lemma_zero_tail(c: u8, k: u8)
    requires
        k < 8,
        c & (0xffu8 >> k) == 0,
    ensures
        byte_bits(c) == byte_bits(c).take(k as int) + zero_bits((8 - k) as nat),
{
    lemma_set_bit(c, k, 0);
    assert forall|j: int| 0 <= j < 8 implies #[trigger] byte_bits(c)[j] == (byte_bits(c).take(
        k as int,
    ) + zero_bits((8 - k) as nat))[j] by {
        lemma_byte_bits_index(c, j as u8);
    }
    assert(byte_bits(c) =~= byte_bits(c).take(k as int) + zero_bits((8 - k) as nat));
}

impl BitWriter {
    proof fn lemma_view_len(&self)
        requires
            self.wf(),
        ensures
            self.view().len() == 8 * self.buf@.len() + self.bits,
    {
        lemma_bytes_bits_len(self.buf@);
    }

    /// Appends the eight bits of `b`.
    pub fn write_byte(&mut self, b: u8)
        requires
            old(self).wf(),
        ensures
            final(self).wf(),
            final(self).view() == old(self).view() + byte_bits(b),
    {
        self.write_bits(b as u64, 8);
        proof {
            lemma_value_bits_byte(b as u64);
        }
    }

    /// Appends the bytes of `bytes` in order.
    pub fn write_bytes(&mut self, bytes: &[u8])
        requires
            old(self).wf(),
        ensures
            final(self).wf(),
            final(self).view() == old(self).view() + bytes_bits(bytes@),
    {
        let ghost start = self.view();
        let mut i: usize = 0;
        while i < bytes.len()
            invariant
                self.wf(),
                i <= bytes@.len(),
                self.view() == start + bytes_bits(bytes@.take(i as int)),
            decreases bytes@.len() - i,
        {
            self.write_byte(bytes[i]);
            proof {
                assert(bytes@.take(i + 1) =~= bytes@.take(i as int).push(bytes@[i as int]));
                lemma_bytes_bits_push(bytes@.take(i as int), bytes@[i as int]);
            }
            i = i + 1;
        }
        proof {
            assert(bytes@.take(i as int) =~= bytes@);
        }
    }

    /// Appends the low `bits` bits of the two's-complement form of `value`.
    pub fn write_signed(&mut self, value: i64, bits: u8)
        requires
            old(self).wf(),
            0 < bits <= 64,
        ensures
            final(self).wf(),
            final(self).view() == old(self).view() + value_bits(value as u64, bits as nat),
    {
        let mask: u64 = if bits == 64 {
            0xffff_ffff_ffff_ffffu64
        } else {
            assert(1u64 << bits >= 1) by (bit_vector)
                requires
                    bits < 64,
            ;
            (1u64 << bits) - 1
        };
        proof {
            lemma_low_bits_of_mask(value as u64, bits);
        }
        self.write_bits(value as u64 & mask, bits);
    }

    /// Appends `count` one bits and a terminating zero bit.
    pub fn write_unary(&mut self, count: u32)
        requires
            old(self).wf(),
        ensures
            final(self).wf(),
            final(self).view() == old(self).view() + unary_bits(count as nat),
    {
        let ghost start = self.view();
        let mut i: u32 = 0;
        while i < count
            invariant
                self.wf(),
                i <= count,
                self.view() == start + Seq::new(i as nat, |k: int| true),
            decreases count - i,
        {
            self.write_bit(true);
            proof {
                assert(Seq::new((i + 1) as nat, |k: int| true) =~= Seq::new(
                    i as nat,
                    |k: int| true,
                ).push(true));
            }
            i = i + 1;
        }
        self.write_bit(false);
    }

    /// Appends the FLAC "UTF-8" coding of `value`.
    pub fn write_utf8_u32(&mut self, value: u32)
        requires
            old(self).wf(),
        ensures
            final(self).wf(),
            final(self).view() == old(self).view() + bytes_bits(utf8_number(value)),
    {
        let ghost start = self.view();
        let mut out: Vec<u8> = Vec::new();
        if value < 0x80 {
            out.push(value as u8);
        } else if value < 0x800 {
            out.push((0xC0 | (value >> 6)) as u8);
            out.push((0x80 | (value & 0x3F)) as u8);
        } else if value < 0x1_0000 {
            out.push((0xE0 | (value >> 12)) as u8);
            out.push((0x80 | ((value >> 6) & 0x3F)) as u8);
            out.push((0x80 | (value & 0x3F)) as u8);
        } else if value < 0x20_0000 {
            out.push((0xF0 | (value >> 18)) as u8);
            out.push((0x80 | ((value >> 12) & 0x3F)) as u8);
            out.push((0x80 | ((value >> 6) & 0x3F)) as u8);
            out.push((0x80 | (value & 0x3F)) as u8);
        } else if value < 0x400_0000 {
            out.push((0xF8 | (value >> 24)) as u8);
            out.push((0x80 | ((value >> 18) & 0x3F)) as u8);
            out.push((0x80 | ((value >> 12) & 0x3F)) as u8);
            out.push((0x80 | ((value >> 6) & 0x3F)) as u8);
            out.push((0x80 | (value & 0x3F)) as u8);
        } else {
            out.push((0xFC | (value >> 30)) as u8);
            out.push((0x80 | ((value >> 24) & 0x3F)) as u8);
            out.push((0x80 | ((value >> 18) & 0x3F)) as u8);
            out.push((0x80 | ((value >> 12) & 0x3F)) as u8);
            out.push((0x80 | ((value >> 6) & 0x3F)) as u8);
            out.push((0x80 | (value & 0x3F)) as u8);
        }
        proof {
            assert(out@ =~= utf8_number(value));
        }
        self.write_bytes(out.as_slice());
    }

    /// Completes the partial byte, if any, with zero bits.
    pub fn pad_to_byte(&mut self)
        requires
            old(self).wf(),
        ensures
            final(self).wf(),
            final(self).view() == old(self).view() + zero_bits(pad_len(old(self).view().len())),
            final(self).view().len() % 8 == 0,
    {
        proof {
            self.lemma_view_len();
        }
        if self.bits > 0 {
            let ghost old_buf = self.buf@;
            let c = self.current;
            let k = self.bits;
            self.buf.push(c);
            self.current = 0;
            self.bits = 0;
            proof {
                lemma_zero_tail(c, k);
                lemma_bytes_bits_push(old_buf, c);
                lemma_empty_byte_clear();
                assert(byte_bits(0u8).take(0) =~= Seq::<bool>::empty());
                assert(pad_len((8 * old_buf.len() + k) as nat) == 8 - k) by (nonlinear_arith)
                    requires
                        0 < k < 8,
                ;
                assert(self.view() =~= bytes_bits(old_buf) + byte_bits(c).take(k as int)
                    + zero_bits((8 - k) as nat));
                self.lemma_view_len();
            }
        } else {
            proof {
                assert(pad_len(8 * self.buf@.len()) == 0) by (nonlinear_arith);
                assert(self.view() =~= self.view() + zero_bits(0));
            }
        }
    }

    /// Whether the bits written so far fill whole bytes.
    pub fn is_byte_align(&self) -> (r: bool)
        requires
            self.wf(),
        ensures
            r == (self.view().len() % 8 == 0),
    {
        proof {
            self.lemma_view_len();
            assert((8 * self.buf@.len() + self.bits) % 8 == self.bits) by (nonlinear_arith)
                requires
                    self.bits < 8,
            ;
        }
        self.bits == 0
    }

    /// The written bits, completed with zero bits to whole bytes.
    pub fn into_bytes(self) -> (r: Vec<u8>)
        requires
            self.wf(),
        ensures
            bytes_bits(r@) == self.view() + zero_bits(pad_len(self.view().len())),
    {
        let mut w = self;
        w.pad_to_byte();
        proof {
            w.lemma_view_len();
            assert(w.bits == 0);
            assert(byte_bits(w.current).take(0) =~= Seq::<bool>::empty());
            assert(w.view() =~= bytes_bits(w.buf@));
        }
        w.buf
    }
}
} // verus!
