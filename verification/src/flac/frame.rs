//! FLAC frames: header, one subframe per channel, padding and CRC-16.
use vstd::prelude::*;

use crate::bits::{
    be16, byte_bits, bytes_bits, lemma_pack_of_bytes, pack_bits, pad_len, zero_bits,
};
use crate::crc::{crc16, crc8, spec_crc16, spec_crc8};
use crate::flac::bitwriter::{utf8_number, BitWriter};
use crate::flac::subframe::{encode_subframe, small_samples, subframe_bits, subframe_input};

verus! {

/// How the channels of a frame are coded (FLAC channel assignment).
#[derive(Clone, Copy, Debug, PartialEq, Eq)]
pub enum ChannelAssignment {
    Independent(u8),
    LeftSide,
    RightSide,
    MidSide,
}

pub open spec fn assignment_code(a: ChannelAssignment) -> u8 {
    match a {
        ChannelAssignment::Independent(n) => (n - 1) as u8,
        ChannelAssignment::LeftSide => 0x08,
        ChannelAssignment::RightSide => 0x09,
        ChannelAssignment::MidSide => 0x0A,
    }
}

impl ChannelAssignment {
    pub fn code(self) -> (r: u8)
        requires
            self matches ChannelAssignment::Independent(n) ==> n >= 1,
        ensures
            r == assignment_code(self),
    {
        match self {
            ChannelAssignment::Independent(n) => n - 1,
            ChannelAssignment::LeftSide => 0x08,
            ChannelAssignment::RightSide => 0x09,
            ChannelAssignment::MidSide => 0x0A,
        }
    }
}

/// An optional field that follows the fixed part of a frame header.
#[derive(Debug, Clone, Copy)]
pub enum TrailingField {
    Absent,
    U8(u8),
    U16(u16),
}

pub open spec fn trailing_bytes(t: TrailingField) -> Seq<u8> {
    match t {
        TrailingField::Absent => Seq::empty(),
        TrailingField::U8(v) => seq![v],
        TrailingField::U16(v) => be16(v),
    }
}

/// The 4-bit block-size code and its trailing field.
pub open spec fn block_size_code(bs: u16) -> (u8, TrailingField) {
    if bs == 192 {
        (0x01, TrailingField::Absent)
    } else if bs == 576 {
        (0x02, TrailingField::Absent)
    } else if bs == 1152 {
        (0x03, TrailingField::Absent)
    } else if bs == 2304 {
        (0x04, TrailingField::Absent)
    } else if bs == 4608 {
        (0x05, TrailingField::Absent)
    } else if bs == 256 {
        (0x08, TrailingField::Absent)
    } else if bs == 512 {
        (0x09, TrailingField::Absent)
    } else if bs == 1024 {
        (0x0A, TrailingField::Absent)
    } else if bs == 2048 {
        (0x0B, TrailingField::Absent)
    } else if bs == 4096 {
        (0x0C, TrailingField::Absent)
    } else if bs == 8192 {
        (0x0D, TrailingField::Absent)
    } else if bs == 16384 {
        (0x0E, TrailingField::Absent)
    } else if bs == 32768 {
        (0x0F, TrailingField::Absent)
    } else if 1 <= bs <= 256 {
        (0x06, TrailingField::U8((bs - 1) as u8))
    } else {
        (0x07, TrailingField::U16((bs - 1) as u16))
    }
}

/// The 4-bit sample-rate code and its trailing field.
pub open spec fn sample_rate_code(rate: u32) -> (u8, TrailingField) {
    if rate == 88_200 {
        (0x01, TrailingField::Absent)
    } else if rate == 176_400 {
        (0x02, TrailingField::Absent)
    } else if rate == 192_000 {
        (0x03, TrailingField::Absent)
    } else if rate == 8_000 {
        (0x04, TrailingField::Absent)
    } else if rate == 16_000 {
        (0x05, TrailingField::Absent)
    } else if rate == 22_050 {
        (0x06, TrailingField::Absent)
    } else if rate == 24_000 {
        (0x07, TrailingField::Absent)
    } else if rate == 32_000 {
        (0x08, TrailingField::Absent)
    } else if rate == 44_100 {
        (0x09, TrailingField::Absent)
    } else if rate == 48_000 {
        (0x0A, TrailingField::Absent)
    } else if rate == 96_000 {
        (0x0B, TrailingField::Absent)
    } else if rate % 1_000 == 0 && rate / 1_000 <= 255 {
        (0x0C, TrailingField::U8((rate / 1_000) as u8))
    } else if rate <= 65_535 {
        (0x0D, TrailingField::U16(rate as u16))
    } else if rate % 10 == 0 && rate / 10 <= 65_535 {
        (0x0E, TrailingField::U16((rate / 10) as u16))
    } else {
        (0x00, TrailingField::Absent)
    }
}

/// The 3-bit sample-size code (0 means "see STREAMINFO").
pub open spec fn sample_size_code(bps: u8) -> u8 {
    if bps == 8 {
        0x01
    } else if bps == 12 {
        0x02
    } else if bps == 16 {
        0x04
    } else if bps == 20 {
        0x05
    } else if bps == 24 {
        0x06
    } else if bps == 32 {
        0x07
    } else {
        0x00
    }
}

/// The frame header, without its CRC-8.
pub open spec fn header_bytes(
    block_size: u16,
    sample_rate: u32,
    assignment: ChannelAssignment,
    bps: u8,
    frame_number: u32,
) -> Seq<u8> {
    let (bc, bt) = block_size_code(block_size);
    let (sc, st) = sample_rate_code(sample_rate);
    seq![
        0xFFu8,
        0xF8u8,
        ((bc << 4u8) | sc) as u8,
        ((assignment_code(assignment) << 4u8) | (sample_size_code(bps) << 1u8)) as u8,
    ] + utf8_number(frame_number) + trailing_bytes(bt) + trailing_bytes(st)
}

/// The subframes of all channels, in order.
pub open spec fn subframes_bits(
    chs: Seq<Seq<i64>>,
    cbps: Seq<u8>,
    block_size: int,
    max_fixed: u8,
    max_rice: u8,
) -> Seq<bool>
    decreases chs.len(),
{
    if chs.len() == 0 {
        Seq::empty()
    } else {
        subframes_bits(chs.drop_last(), cbps.drop_last(), block_size, max_fixed, max_rice)
            + subframe_bits(chs.last(), cbps.last(), block_size, max_fixed, max_rice)
    }
}

/// The frame bits before padding: header, header CRC-8, subframes.
pub open spec fn frame_bits(
    chs: Seq<Seq<i64>>,
    cbps: Seq<u8>,
    assignment: ChannelAssignment,
    frame_number: u32,
    sample_rate: u32,
    bps: u8,
    block_size: u16,
    max_fixed: u8,
    max_rice: u8,
) -> Seq<bool> {
    let h = header_bytes(block_size, sample_rate, assignment, bps, frame_number);
    bytes_bits(h) + byte_bits(spec_crc8(h)) + subframes_bits(
        chs,
        cbps,
        block_size as int,
        max_fixed,
        max_rice,
    )
}

/// A whole coded frame: the padded frame bits as bytes, then their CRC-16,
/// big-endian.
pub open spec fn spec_frame(
    chs: Seq<Seq<i64>>,
    cbps: Seq<u8>,
    assignment: ChannelAssignment,
    frame_number: u32,
    sample_rate: u32,
    bps: u8,
    block_size: u16,
    max_fixed: u8,
    max_rice: u8,
) -> Seq<u8> {
    let bits = frame_bits(
        chs,
        cbps,
        assignment,
        frame_number,
        sample_rate,
        bps,
        block_size,
        max_fixed,
        max_rice,
    );
    let body = pack_bits(bits + zero_bits(pad_len(bits.len())));
    body + be16(spec_crc16(body))
}

/// The channels of a frame suit the subframe coder.
pub open spec fn channels_input(
    chs: Seq<Seq<i64>>,
    cbps: Seq<u8>,
    block_size: int,
    max_rice: u8,
) -> bool {
    &&& chs.len() == cbps.len()
    &&& forall|i: int|
        0 <= i < chs.len() ==> subframe_input(#[trigger] chs[i], cbps[i], block_size, max_rice)
}

/// The channels as sequences of samples.
pub open spec fn channel_views(channels: Seq<Vec<i64>>) -> Seq<Seq<i64>> {
    Seq::new(channels.len(), |i: int| channels[i]@)
}

fn encode_block_size(block_size: u16) -> (r: (u8, TrailingField))
    requires
        block_size >= 1,
    ensures
        r == block_size_code(block_size),
{
    if block_size == 192 {
        (0x01, TrailingField::Absent)
    } else if block_size == 576 {
        (0x02, TrailingField::Absent)
    } else if block_size == 1152 {
        (0x03, TrailingField::Absent)
    } else if block_size == 2304 {
        (0x04, TrailingField::Absent)
    } else if block_size == 4608 {
        (0x05, TrailingField::Absent)
    } else if block_size == 256 {
        (0x08, TrailingField::Absent)
    } else if block_size == 512 {
        (0x09, TrailingField::Absent)
    } else if block_size == 1024 {
        (0x0A, TrailingField::Absent)
    } else if block_size == 2048 {
        (0x0B, TrailingField::Absent)
    } else if block_size == 4096 {
        (0x0C, TrailingField::Absent)
    } else if block_size == 8192 {
        (0x0D, TrailingField::Absent)
    } else if block_size == 16384 {
        (0x0E, TrailingField::Absent)
    } else if block_size == 32768 {
        (0x0F, TrailingField::Absent)
    } else if block_size <= 256 {
        (0x06, TrailingField::U8((block_size - 1) as u8))
    } else {
        (0x07, TrailingField::U16(block_size - 1))
    }
}

fn encode_sample_rate(sample_rate: u32) -> (r: (u8, TrailingField))
    ensures
        r == sample_rate_code(sample_rate),
{
    if sample_rate == 88_200 {
        (0x01, TrailingField::Absent)
    } else if sample_rate == 176_400 {
        (0x02, TrailingField::Absent)
    } else if sample_rate == 192_000 {
        (0x03, TrailingField::Absent)
    } else if sample_rate == 8_000 {
        (0x04, TrailingField::Absent)
    } else if sample_rate == 16_000 {
        (0x05, TrailingField::Absent)
    } else if sample_rate == 22_050 {
        (0x06, TrailingField::Absent)
    } else if sample_rate == 24_000 {
        (0x07, TrailingField::Absent)
    } else if sample_rate == 32_000 {
        (0x08, TrailingField::Absent)
    } else if sample_rate == 44_100 {
        (0x09, TrailingField::Absent)
    } else if sample_rate == 48_000 {
        (0x0A, TrailingField::Absent)
    } else if sample_rate == 96_000 {
        (0x0B, TrailingField::Absent)
    } else if sample_rate % 1_000 == 0 && sample_rate / 1_000 <= 255 {
        (0x0C, TrailingField::U8((sample_rate / 1_000) as u8))
    } else if sample_rate <= 65_535 {
        (0x0D, TrailingField::U16(sample_rate as u16))
    } else if sample_rate % 10 == 0 && sample_rate / 10 <= 65_535 {
        (0x0E, TrailingField::U16((sample_rate / 10) as u16))
    } else {
        (0x00, TrailingField::Absent)
    }
}

fn encode_sample_size(bits_per_sample: u8) -> (r: u8)
    ensures
        r == sample_size_code(bits_per_sample),
{
    if bits_per_sample == 8 {
        0x01
    } else if bits_per_sample == 12 {
        0x02
    } else if bits_per_sample == 16 {
        0x04
    } else if bits_per_sample == 20 {
        0x05
    } else if bits_per_sample == 24 {
        0x06
    } else if bits_per_sample == 32 {
        0x07
    } else {
        0x00
    }
}

fn push_trailing(out: &mut Vec<u8>, t: TrailingField)
    ensures
        final(out)@ == old(out)@ + trailing_bytes(t),
{
    match t {
        TrailingField::Absent => {
            assert(old(out)@ + trailing_bytes(t) =~= old(out)@);
        },
        TrailingField::U8(v) => {
            out.push(v);
            assert(final(out)@ =~= old(out)@ + trailing_bytes(t));
        },
        TrailingField::U16(v) => {
            out.push((v >> 8) as u8);
            out.push(v as u8);
            assert(final(out)@ =~= old(out)@ + trailing_bytes(t));
        },
    }
}

/// The frame header bytes (without the CRC-8).
fn frame_header(
    block_size: u16,
    sample_rate: u32,
    assignment: ChannelAssignment,
    bits_per_sample: u8,
    frame_number: u32,
) -> (r: Vec<u8>)
    requires
        block_size >= 1,
        assignment matches ChannelAssignment::Independent(n) ==> 1 <= n <= 8,
    ensures
        r@ == header_bytes(block_size, sample_rate, assignment, bits_per_sample, frame_number),
{
    let (bs_code, bs_trailing) = encode_block_size(block_size);
    let (sr_code, sr_trailing) = encode_sample_rate(sample_rate);
    let ac = assignment.code();
    let ss = encode_sample_size(bits_per_sample);
    let mut out: Vec<u8> = Vec::new();
    out.push(0xFF);
    out.push(0xF8);
    out.push((bs_code << 4) | sr_code);
    out.push((ac << 4) | (ss << 1));
    let mut w = BitWriter::new();
    w.write_utf8_u32(frame_number);
    let num = w.into_bytes();
    proof {
        crate::bits::lemma_bytes_bits_len(utf8_number(frame_number));
        assert(pad_len((8 * utf8_number(frame_number).len()) as nat) == 0) by (nonlinear_arith);
        assert(bytes_bits(utf8_number(frame_number)) + zero_bits(0) =~= bytes_bits(
            utf8_number(frame_number),
        ));
        crate::bits::lemma_bytes_bits_injective(num@, utf8_number(frame_number));
    }
    out.extend_from_slice(num.as_slice());
    push_trailing(&mut out, bs_trailing);
    push_trailing(&mut out, sr_trailing);
    proof {
        assert(out@ =~= header_bytes(
            block_size,
            sample_rate,
            assignment,
            bits_per_sample,
            frame_number,
        ));
    }
    out
}


/// Codes one frame whose channels are coded as `assignment` says.
pub fn encode_with_assignment(
    channels: &[Vec<i64>],
    channel_bps: &[u8],
    assignment: ChannelAssignment,
    frame_number: u32,
    sample_rate: u32,
    bits_per_sample: u8,
    block_size: u16,
    max_fixed_order: u8,
    max_rice_order: u8,
) -> (r: Vec<u8>)
    requires
        block_size >= 1,
        assignment matches ChannelAssignment::Independent(n) ==> 1 <= n <= 8,
        channels_input(
            channel_views(channels@),
            channel_bps@,
            block_size as int,
            max_rice_order,
        ),
    ensures
        r@ == spec_frame(
            channel_views(channels@),
            channel_bps@,
            assignment,
            frame_number,
            sample_rate,
            bits_per_sample,
            block_size,
            max_fixed_order,
            max_rice_order,
        ),
{
    let ghost chs = channel_views(channels@);
    let ghost cbps = channel_bps@;
    let bs = block_size as usize;
    let header = frame_header(block_size, sample_rate, assignment, bits_per_sample, frame_number);
    let header_crc = crc8(header.as_slice());
    let mut frame = BitWriter::new();
    frame.write_bytes(header.as_slice());
    frame.write_byte(header_crc);
    let ghost head = frame.view();
    let mut i: usize = 0;
    proof {
        assert(chs.take(0) =~= Seq::<Seq<i64>>::empty());
        assert(cbps.take(0) =~= Seq::<u8>::empty());
        assert(head + Seq::<bool>::empty() =~= head);
    }
    while i < channels.len()
        invariant
            chs == channel_views(channels@),
            cbps == channel_bps@,
            channels_input(chs, cbps, block_size as int, max_rice_order),
            bs == block_size,
            i <= channels@.len(),
            frame.wf(),
            frame.view() == head + subframes_bits(
                chs.take(i as int),
                cbps.take(i as int),
                block_size as int,
                max_fixed_order,
                max_rice_order,
            ),
        decreases channels@.len() - i,
    {
        proof {
            assert(subframe_input(chs[i as int], cbps[i as int], block_size as int, max_rice_order));
            assert(chs[i as int] == channels@[i as int]@);
        }
        encode_subframe(
            &mut frame,
            channels[i].as_slice(),
            channel_bps[i],
            bs,
            max_fixed_order,
            max_rice_order,
        );
        proof {
            assert(chs.take(i + 1).drop_last() =~= chs.take(i as int));
            assert(cbps.take(i + 1).drop_last() =~= cbps.take(i as int));
            assert(chs.take(i + 1).last() == chs[i as int]);
            assert(cbps.take(i + 1).last() == cbps[i as int]);
        }
        i = i + 1;
    }
    proof {
        assert(chs.take(i as int) =~= chs);
        assert(cbps.take(i as int) =~= cbps);
    }
    let ghost bits = frame.view();
    frame.pad_to_byte();
    let ghost padded = frame.view();
    let frame_bytes = frame.into_bytes();
    proof {
        assert(pad_len(padded.len()) == 0);
        assert(padded + zero_bits(0) =~= padded);
        lemma_pack_of_bytes(frame_bytes@, padded);
        assert(bits == frame_bits(
            chs,
            cbps,
            assignment,
            frame_number,
            sample_rate,
            bits_per_sample,
            block_size,
            max_fixed_order,
            max_rice_order,
        ));
    }
    let crc = crc16(frame_bytes.as_slice());
    let mut out = frame_bytes;
    out.push((crc >> 8) as u8);
    out.push(crc as u8);
    proof {
        assert(out@ =~= spec_frame(
            chs,
            cbps,
            assignment,
            frame_number,
            sample_rate,
            bits_per_sample,
            block_size,
            max_fixed_order,
            max_rice_order,
        ));
    }
    out
}

/// Magnitude limit of the input samples of a frame: `|s| < 2^26`, so that
/// their side and mid channels stay under the subframe limit.
pub open spec fn frame_samples(s: Seq<i64>) -> bool {
    forall|i: int| 0 <= i < s.len() ==> -0x400_0000 < #[trigger] s[i] < 0x400_0000
}

/// The side channel: left minus right.
pub open spec fn side_channel(l: Seq<i64>, r: Seq<i64>) -> Seq<i64> {
    Seq::new(l.len(), |i: int| (l[i] - r[i]) as i64)
}

/// The mid channel: the floor of the mean of left and right.
pub open spec fn mid_channel(l: Seq<i64>, r: Seq<i64>) -> Seq<i64> {
    Seq::new(l.len(), |i: int| ((l[i] + r[i]) as i64) >> 1i64)
}

/// The samples of a channel, as numbers.
pub open spec fn channel_values(c: Seq<i64>) -> Seq<int> {
    Seq::new(c.len(), |i: int| c[i] as int)
}

/// The left and right channels a FLAC decoder rebuilds from the two coded
/// channels `a` and `b` of a stereo frame: left/side gives right as left
/// minus side, side/right gives left as right plus side, and mid/side
/// restores the dropped low bit of mid from the side's parity.
pub open spec fn stereo_decode(assignment: ChannelAssignment, a: Seq<i64>, b: Seq<i64>) -> (Seq<int>, Seq<int>) {
    match assignment {
        ChannelAssignment::LeftSide => (channel_values(a), Seq::new(a.len(), |i: int| a[i] - b[i])),
        ChannelAssignment::RightSide => (Seq::new(b.len(), |i: int| a[i] + b[i]), channel_values(b)),
        ChannelAssignment::MidSide => (
            Seq::new(a.len(), |i: int| (2 * a[i] + b[i] % 2 + b[i]) / 2),
            Seq::new(a.len(), |i: int| (2 * a[i] + b[i] % 2 - b[i]) / 2),
        ),
        ChannelAssignment::Independent(_) => (channel_values(a), channel_values(b)),
    }
}

proof fn lemma_halve(x: i64)
    requires
        -0x1000_0000 < x < 0x1000_0000,
    ensures
        x == 2 * (x >> 1i64) + x % 2,
{
    assert((x >> 1i64) * 2 + (x & 1i64) == x && (x & 1i64 == 0 || x & 1i64 == 1)) by (bit_vector)
        requires
            -0x1000_0000 < x < 0x1000_0000,
    ;
}

/// Each of the four channel codings the encoder weighs for a stereo block
/// decodes to the block itself: whichever frame it picks, a FLAC decoder
/// gets the left and right channels back.
pub proof fn lemma_stereo_candidates_decode(l: Seq<i64>, r: Seq<i64>)
    requires
        l.len() == r.len(),
        frame_samples(l),
        frame_samples(r),
    ensures
        stereo_decode(ChannelAssignment::Independent(2), l, r) == (channel_values(l), channel_values(r)),
        stereo_decode(ChannelAssignment::LeftSide, l, side_channel(l, r)) == (channel_values(l), channel_values(r)),
        stereo_decode(ChannelAssignment::RightSide, side_channel(l, r), r) == (channel_values(l), channel_values(r)),
        stereo_decode(ChannelAssignment::MidSide, mid_channel(l, r), side_channel(l, r)) == (channel_values(l), channel_values(r)),
{
    let side = side_channel(l, r);
    let mid = mid_channel(l, r);
    assert forall|i: int| 0 <= i < l.len() implies side[i] == l[i] - r[i] && (2 * mid[i] + side[i] % 2 + side[i]) / 2 == l[i]
        && (2 * mid[i] + side[i] % 2 - side[i]) / 2 == r[i] by {
        assert(-0x400_0000 < l[i] < 0x400_0000);
        assert(-0x400_0000 < r[i] < 0x400_0000);
        let x = (l[i] + r[i]) as i64;
        lemma_halve(x);
        assert(mid[i] == x >> 1i64);
        assert(side[i] % 2 == x % 2) by {
            assert(side[i] == x - 2 * r[i]);
        }
    }
    assert(stereo_decode(ChannelAssignment::LeftSide, l, side).1 =~= channel_values(r));
    assert(stereo_decode(ChannelAssignment::RightSide, side, r).0 =~= channel_values(l));
    assert(stereo_decode(ChannelAssignment::MidSide, mid, side).0 =~= channel_values(l));
    assert(stereo_decode(ChannelAssignment::MidSide, mid, side).1 =~= channel_values(r));
}

/// The shortest of four candidate frames, the earlier one on a tie.
pub open spec fn shortest_of(a: Seq<u8>, b: Seq<u8>, c: Seq<u8>, d: Seq<u8>) -> Seq<u8> {
    let x = if b.len() < a.len() {
        b
    } else {
        a
    };
    let y = if c.len() < x.len() {
        c
    } else {
        x
    };
    if d.len() < y.len() {
        d
    } else {
        y
    }
}

/// The stereo frame the encoder writes: the shortest of independent,
/// left/side, right/side and mid/side coding.
pub open spec fn spec_stereo_frame(
    l: Seq<i64>,
    r: Seq<i64>,
    frame_number: u32,
    sample_rate: u32,
    bps: u8,
    block_size: u16,
    max_fixed: u8,
    max_rice: u8,
) -> Seq<u8> {
    let side = side_channel(l, r);
    let mid = mid_channel(l, r);
    let bps1 = (bps + 1) as u8;
    shortest_of(
        spec_frame(seq![l, r], seq![bps, bps], ChannelAssignment::Independent(2), frame_number,
            sample_rate, bps, block_size, max_fixed, max_rice),
        spec_frame(seq![l, side], seq![bps, bps1], ChannelAssignment::LeftSide, frame_number,
            sample_rate, bps, block_size, max_fixed, max_rice),
        spec_frame(seq![side, r], seq![bps1, bps], ChannelAssignment::RightSide, frame_number,
            sample_rate, bps, block_size, max_fixed, max_rice),
        spec_frame(seq![mid, side], seq![bps, bps1], ChannelAssignment::MidSide, frame_number,
            sample_rate, bps, block_size, max_fixed, max_rice),
    )
}

/// The stereo frame the encoder writes is the frame of one channel coding
/// whose two coded channels a FLAC decoder turns back into the input block:
/// the returned coded channels, their sample sizes and the coding are such a
/// witness.
pub proof fn lemma_stereo_frame_decodes(
    l: Seq<i64>,
    r: Seq<i64>,
    frame_number: u32,
    sample_rate: u32,
    bps: u8,
    block_size: u16,
    max_fixed: u8,
    max_rice: u8,
) -> (w: (Seq<i64>, Seq<i64>, Seq<u8>, ChannelAssignment))
    requires
        l.len() == r.len(),
        frame_samples(l),
        frame_samples(r),
    ensures
        spec_stereo_frame(l, r, frame_number, sample_rate, bps, block_size, max_fixed, max_rice)
            == spec_frame(seq![w.0, w.1], w.2, w.3, frame_number, sample_rate, bps, block_size, max_fixed, max_rice),
        stereo_decode(w.3, w.0, w.1) == (channel_values(l), channel_values(r)),
        w.3 is Independent ==> w.3 == ChannelAssignment::Independent(2),
{
    lemma_stereo_candidates_decode(l, r);
    let side = side_channel(l, r);
    let mid = mid_channel(l, r);
    let bps1 = (bps + 1) as u8;
    let a = spec_frame(seq![l, r], seq![bps, bps], ChannelAssignment::Independent(2), frame_number,
        sample_rate, bps, block_size, max_fixed, max_rice);
    let b = spec_frame(seq![l, side], seq![bps, bps1], ChannelAssignment::LeftSide, frame_number,
        sample_rate, bps, block_size, max_fixed, max_rice);
    let c = spec_frame(seq![side, r], seq![bps1, bps], ChannelAssignment::RightSide, frame_number,
        sample_rate, bps, block_size, max_fixed, max_rice);
    let d = spec_frame(seq![mid, side], seq![bps, bps1], ChannelAssignment::MidSide, frame_number,
        sample_rate, bps, block_size, max_fixed, max_rice);
    let wa = (l, r, seq![bps, bps], ChannelAssignment::Independent(2));
    let wb = (l, side, seq![bps, bps1], ChannelAssignment::LeftSide);
    let wc = (side, r, seq![bps1, bps], ChannelAssignment::RightSide);
    let wd = (mid, side, seq![bps, bps1], ChannelAssignment::MidSide);
    let (x, wx) = if b.len() < a.len() {
        (b, wb)
    } else {
        (a, wa)
    };
    let (y, wy) = if c.len() < x.len() {
        (c, wc)
    } else {
        (x, wx)
    };
    if d.len() < y.len() {
        wd
    } else {
        wy
    }
}

/// The frame `encode_frame` writes.
pub open spec fn spec_encode_frame(
    chs: Seq<Seq<i64>>,
    frame_number: u32,
    sample_rate: u32,
    bps: u8,
    block_size: u16,
    max_fixed: u8,
    max_rice: u8,
    try_stereo: bool,
) -> Seq<u8> {
    if chs.len() == 2 && try_stereo {
        spec_stereo_frame(chs[0], chs[1], frame_number, sample_rate, bps, block_size, max_fixed, max_rice)
    } else {
        spec_frame(
            chs,
            Seq::new(chs.len(), |i: int| bps),
            ChannelAssignment::Independent(chs.len() as u8),
            frame_number,
            sample_rate,
            bps,
            block_size,
            max_fixed,
            max_rice,
        )
    }
}

/// The input shape `encode_frame` accepts.
pub open spec fn frame_input(chs: Seq<Seq<i64>>, bps: u8, block_size: u16, max_rice: u8) -> bool {
    &&& 1 <= chs.len() <= 8
    &&& forall|i: int|
        0 <= i < chs.len() ==> (#[trigger] chs[i]).len() == block_size && frame_samples(chs[i])
    &&& 0 < bps < 63
    &&& block_size >= 1
    &&& max_rice <= 15
}

fn copy_samples(s: &[i64]) -> (r: Vec<i64>)
    ensures
        r@ == s@,
{
    let mut out: Vec<i64> = Vec::new();
    let mut i: usize = 0;
    while i < s.len()
        invariant
            i <= s@.len(),
            out@ == s@.take(i as int),
        decreases s@.len() - i,
    {
        out.push(s[i]);
        i = i + 1;
        proof {
            assert(out@ =~= s@.take(i as int));
        }
    }
    proof {
        assert(s@.take(i as int) =~= s@);
    }
    out
}

proof fn lemma_half(x: i64)
    requires
        -0x800_0000 < x < 0x800_0000,
    ensures
        -0x400_0000 <= x >> 1i64 < 0x400_0000,
{
    assert(-0x400_0000 <= x >> 1i64 < 0x400_0000) by (bit_vector)
        requires
            -0x800_0000 < x < 0x800_0000,
    ;
}

/// Codes a two-channel frame with the given channel coding.
fn two_channel_frame(
    a: &[i64],
    b: &[i64],
    bps_a: u8,
    bps_b: u8,
    assignment: ChannelAssignment,
    frame_number: u32,
    sample_rate: u32,
    bps: u8,
    block_size: u16,
    max_fixed_order: u8,
    max_rice_order: u8,
) -> (r: Vec<u8>)
    requires
        subframe_input(a@, bps_a, block_size as int, max_rice_order),
        subframe_input(b@, bps_b, block_size as int, max_rice_order),
        assignment matches ChannelAssignment::Independent(n) ==> n == 2,
    ensures
        r@ == spec_frame(
            seq![a@, b@],
            seq![bps_a, bps_b],
            assignment,
            frame_number,
            sample_rate,
            bps,
            block_size,
            max_fixed_order,
            max_rice_order,
        ),
{
    let chs = [copy_samples(a), copy_samples(b)];
    let cb = [bps_a, bps_b];
    proof {
        assert(channel_views(chs@) =~= seq![a@, b@]);
        assert(cb@ =~= seq![bps_a, bps_b]);
    }
    encode_with_assignment(
        &chs,
        &cb,
        assignment,
        frame_number,
        sample_rate,
        bps,
        block_size,
        max_fixed_order,
        max_rice_order,
    )
}

/// The side and mid channels of a stereo pair.
fn side_and_mid(left: &[i64], right: &[i64]) -> (r: (Vec<i64>, Vec<i64>))
    requires
        left@.len() == right@.len(),
        frame_samples(left@),
        frame_samples(right@),
    ensures
        r.0@ == side_channel(left@, right@),
        r.1@ == mid_channel(left@, right@),
        small_samples(r.0@),
        small_samples(r.1@),
{
    let n = left.len();
    let mut side: Vec<i64> = Vec::new();
    let mut mid: Vec<i64> = Vec::new();
    let mut i: usize = 0;
    while i < n
        invariant
            n == left@.len(),
            n == right@.len(),
            frame_samples(left@),
            frame_samples(right@),
            i <= n,
            side@ == side_channel(left@, right@).take(i as int),
            mid@ == mid_channel(left@, right@).take(i as int),
        decreases n - i,
    {
        assert(-0x400_0000 < left@[i as int] < 0x400_0000);
        assert(-0x400_0000 < right@[i as int] < 0x400_0000);
        side.push(left[i] - right[i]);
        mid.push((left[i] + right[i]) >> 1);
        i = i + 1;
        proof {
            assert(side@ =~= side_channel(left@, right@).take(i as int));
            assert(mid@ =~= mid_channel(left@, right@).take(i as int));
        }
    }
    proof {
        assert(side@ =~= side_channel(left@, right@));
        assert(mid@ =~= mid_channel(left@, right@));
        assert forall|k: int| 0 <= k < n implies -0x800_0000 < #[trigger] side@[k] < 0x800_0000 by {
            assert(-0x400_0000 < left@[k] < 0x400_0000);
            assert(-0x400_0000 < right@[k] < 0x400_0000);
        }
        assert forall|k: int| 0 <= k < n implies -0x800_0000 < #[trigger] mid@[k] < 0x800_0000 by {
            assert(-0x400_0000 < left@[k] < 0x400_0000);
            assert(-0x400_0000 < right@[k] < 0x400_0000);
            lemma_half((left@[k] + right@[k]) as i64);
        }
    }
    (side, mid)
}

fn encode_stereo_frame(
    left: &[i64],
    right: &[i64],
    frame_number: u32,
    sample_rate: u32,
    bps: u8,
    block_size: u16,
    max_fixed_order: u8,
    max_rice_order: u8,
) -> (r: Vec<u8>)
    requires
        left@.len() == block_size,
        right@.len() == block_size,
        frame_samples(left@),
        frame_samples(right@),
        0 < bps < 63,
        block_size >= 1,
        max_rice_order <= 15,
    ensures
        r@ == spec_stereo_frame(
            left@,
            right@,
            frame_number,
            sample_rate,
            bps,
            block_size,
            max_fixed_order,
            max_rice_order,
        ),
{
    let bps1 = bps + 1;
    let (side, mid) = side_and_mid(left, right);
    proof {
        assert(small_samples(left@));
        assert(small_samples(right@));
    }
    let independent = two_channel_frame(
        left,
        right,
        bps,
        bps,
        ChannelAssignment::Independent(2),
        frame_number,
        sample_rate,
        bps,
        block_size,
        max_fixed_order,
        max_rice_order,
    );
    let left_side = two_channel_frame(
        left,
        side.as_slice(),
        bps,
        bps1,
        ChannelAssignment::LeftSide,
        frame_number,
        sample_rate,
        bps,
        block_size,
        max_fixed_order,
        max_rice_order,
    );
    let right_side = two_channel_frame(
        side.as_slice(),
        right,
        bps1,
        bps,
        ChannelAssignment::RightSide,
        frame_number,
        sample_rate,
        bps,
        block_size,
        max_fixed_order,
        max_rice_order,
    );
    let mid_side = two_channel_frame(
        mid.as_slice(),
        side.as_slice(),
        bps,
        bps1,
        ChannelAssignment::MidSide,
        frame_number,
        sample_rate,
        bps,
        block_size,
        max_fixed_order,
        max_rice_order,
    );
    let mut best = independent;
    if left_side.len() < best.len() {
        best = left_side;
    }
    if right_side.len() < best.len() {
        best = right_side;
    }
    if mid_side.len() < best.len() {
        best = mid_side;
    }
    best
}

/// Codes one frame of `channels` (each `block_size` samples). With two
/// channels and `try_stereo_decorrelation`, the shortest of the four stereo
/// codings is kept.
pub fn encode_frame(
    channels: &[Vec<i64>],
    frame_number: u32,
    sample_rate: u32,
    bits_per_sample: u8,
    block_size: u16,
    max_fixed_order: u8,
    max_rice_order: u8,
    try_stereo_decorrelation: bool,
) -> (r: Vec<u8>)
    requires
        frame_input(channel_views(channels@), bits_per_sample, block_size, max_rice_order),
    ensures
        r@ == spec_encode_frame(
            channel_views(channels@),
            frame_number,
            sample_rate,
            bits_per_sample,
            block_size,
            max_fixed_order,
            max_rice_order,
            try_stereo_decorrelation,
        ),
{
    let ghost chs = channel_views(channels@);
    let num_channels = channels.len();
    proof {
        assert(chs.len() == num_channels);
    }
    if num_channels == 2 && try_stereo_decorrelation {
        proof {
            assert(chs[0] == channels@[0]@);
            assert(chs[1] == channels@[1]@);
        }
        encode_stereo_frame(
            channels[0].as_slice(),
            channels[1].as_slice(),
            frame_number,
            sample_rate,
            bits_per_sample,
            block_size,
            max_fixed_order,
            max_rice_order,
        )
    } else {
        let cbps = vec![bits_per_sample; num_channels];
        proof {
            assert(cbps@ =~= Seq::new(chs.len(), |i: int| bits_per_sample));
            assert forall|i: int| 0 <= i < chs.len() implies subframe_input(
                #[trigger] chs[i],
                cbps@[i],
                block_size as int,
                max_rice_order,
            ) by {
                assert(chs[i].len() == block_size && frame_samples(chs[i]));
                assert(small_samples(chs[i]));
            }
        }
        encode_with_assignment(
            channels,
            cbps.as_slice(),
            ChannelAssignment::Independent(num_channels as u8),
            frame_number,
            sample_rate,
            bits_per_sample,
            block_size,
            max_fixed_order,
            max_rice_order,
        )
    }
}


/// Every frame is laid out as the FLAC format says: it begins with its header
/// (whose first two bytes are the sync code 0xFF 0xF8), the header is followed
/// by its CRC-8, and the frame ends with the big-endian CRC-16 of all the bytes
/// before it.
pub proof fn lemma_frame_layout(
    chs: Seq<Seq<i64>>,
    cbps: Seq<u8>,
    assignment: ChannelAssignment,
    frame_number: u32,
    sample_rate: u32,
    bps: u8,
    block_size: u16,
    max_fixed: u8,
    max_rice: u8,
)
    ensures
        ({
            let f = spec_frame(chs, cbps, assignment, frame_number, sample_rate, bps, block_size,
                max_fixed, max_rice);
            let h = header_bytes(block_size, sample_rate, assignment, bps, frame_number);
            &&& f.len() >= h.len() + 3
            &&& f.take(h.len() as int) == h
            &&& f[h.len() as int] == spec_crc8(h)
            &&& f[0] == 0xFF
            &&& f[1] == 0xF8
            &&& f.skip(f.len() - 2) == be16(spec_crc16(f.take(f.len() - 2)))
        }),
{
    let h = header_bytes(block_size, sample_rate, assignment, bps, frame_number);
    let bits = frame_bits(chs, cbps, assignment, frame_number, sample_rate, bps, block_size,
        max_fixed, max_rice);
    let padded = bits + zero_bits(pad_len(bits.len()));
    let body = pack_bits(padded);
    let f = spec_frame(chs, cbps, assignment, frame_number, sample_rate, bps, block_size,
        max_fixed, max_rice);
    let hc = h.push(spec_crc8(h));
    crate::bits::lemma_bytes_bits_len(hc);
    crate::bits::lemma_bytes_bits_push(h, spec_crc8(h));
    assert(padded.len() % 8 == 0) by {
        assert(padded.len() == bits.len() + pad_len(bits.len()));
        assert((bits.len() + pad_len(bits.len())) % 8 == 0) by (nonlinear_arith);
    }
    crate::bits::lemma_pack_bits(padded);
    assert(body.len() >= hc.len()) by (nonlinear_arith)
        requires
            body.len() * 8 == padded.len(),
            padded.len() >= bytes_bits(hc).len(),
            bytes_bits(hc).len() == 8 * hc.len(),
    ;
    crate::bits::lemma_bytes_bits_take(body, hc.len() as int);
    assert(bytes_bits(body).take(8 * hc.len() as int) =~= bytes_bits(hc));
    crate::bits::lemma_bytes_bits_injective(body.take(hc.len() as int), hc);
    assert(f.take(h.len() as int) =~= body.take(hc.len() as int).take(h.len() as int));
    assert(f.take(f.len() - 2) =~= body);
    assert(f.skip(f.len() - 2) =~= be16(spec_crc16(body)));
}

/// Stereo decorrelation never makes a frame longer than independent coding.
pub proof fn lemma_stereo_no_longer(
    l: Seq<i64>,
    r: Seq<i64>,
    frame_number: u32,
    sample_rate: u32,
    bps: u8,
    block_size: u16,
    max_fixed: u8,
    max_rice: u8,
)
    ensures
        spec_stereo_frame(l, r, frame_number, sample_rate, bps, block_size, max_fixed, max_rice).len()
            <= spec_frame(seq![l, r], seq![bps, bps], ChannelAssignment::Independent(2),
            frame_number, sample_rate, bps, block_size, max_fixed, max_rice).len(),
{
}
} // verus!
