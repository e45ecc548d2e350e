//! FLAC metadata blocks: STREAMINFO, SEEKTABLE, VORBIS_COMMENT and PADDING.
use vstd::prelude::*;

use crate::bits::{be16, be64, push_all, push_be16, push_be64};
use crate::error::Error;
use crate::vorbis::{comments_block, encodable, VorbisComments};

verus! {

pub const BLOCK_TYPE_STREAMINFO: u8 = 0;

pub const BLOCK_TYPE_PADDING: u8 = 1;

pub const BLOCK_TYPE_SEEKTABLE: u8 = 3;

pub const BLOCK_TYPE_VORBIS_COMMENT: u8 = 4;

/// The length of a STREAMINFO body.
pub const STREAMINFO_LEN: usize = 34;

/// The four-byte header of a metadata block: the last-block flag, the 7-bit
/// type and the 24-bit length.
pub open spec fn block_header(is_last: bool, block_type: u8, length: u32) -> Seq<u8> {
    seq![
        (if is_last {
            0x80u8
        } else {
            0x00u8
        }) | (block_type & 0x7f),
        (length >> 16u32) as u8,
        (length >> 8u32) as u8,
        length as u8,
    ]
}

/// The 34-byte STREAMINFO body: block sizes (16 bits each), frame sizes (24
/// bits each), sample rate (20 bits), channels - 1 (3 bits), bits per sample
/// - 1 (5 bits), total samples (36 bits) and the MD5 signature.
pub open spec fn stream_info_bytes(
    min_block_size: u16,
    max_block_size: u16,
    min_frame_size: u32,
    max_frame_size: u32,
    sample_rate: u32,
    channels: u8,
    bits_per_sample: u8,
    total_samples: u64,
    md5: Seq<u8>,
) -> Seq<u8> {
    let ch = ((channels - 1) as u32) & 0x7;
    let bps = ((bits_per_sample - 1) as u32) & 0x1f;
    let ts_hi = ((total_samples >> 32u64) & 0xf) as u32;
    let ts_lo = total_samples as u32;
    be16(min_block_size) + be16(max_block_size) + seq![
        (min_frame_size >> 16u32) as u8,
        (min_frame_size >> 8u32) as u8,
        min_frame_size as u8,
        (max_frame_size >> 16u32) as u8,
        (max_frame_size >> 8u32) as u8,
        max_frame_size as u8,
        (sample_rate >> 12u32) as u8,
        (sample_rate >> 4u32) as u8,
        (((sample_rate & 0xf) << 4u32) as u8) | ((ch << 1u32) as u8) | (((bps >> 4u32) & 1) as u8),
        (((bps & 0xf) << 4u32) as u8) | (ts_hi as u8),
        (ts_lo >> 24u32) as u8,
        (ts_lo >> 16u32) as u8,
        (ts_lo >> 8u32) as u8,
        ts_lo as u8,
    ] + md5
}

/// One seek point: the first sample of a frame, its byte offset from the first
/// frame, and its sample count.
#[derive(Clone, Copy, Debug, PartialEq, Eq)]
pub struct SeekPoint {
    pub sample_number: u64,
    pub stream_offset: u64,
    pub frame_samples: u16,
}

/// A placeholder point, which readers skip.
pub open spec fn placeholder_point() -> SeekPoint {
    SeekPoint { sample_number: u64::MAX, stream_offset: 0, frame_samples: 0 }
}

pub open spec fn seek_point_bytes(p: SeekPoint) -> Seq<u8> {
    be64(p.sample_number) + be64(p.stream_offset) + be16(p.frame_samples)
}

/// The points one after the other.
pub open spec fn seek_points_bytes(ps: Seq<SeekPoint>) -> Seq<u8>
    decreases ps.len(),
{
    if ps.len() == 0 {
        Seq::empty()
    } else {
        seek_points_bytes(ps.drop_last()) + seek_point_bytes(ps.last())
    }
}

pub proof fn lemma_seek_points_bytes_len(ps: Seq<SeekPoint>)
    ensures
        seek_points_bytes(ps).len() == 18 * ps.len(),
    decreases ps.len(),
{
    if ps.len() > 0 {
        lemma_seek_points_bytes_len(ps.drop_last());
    }
}

impl SeekPoint {
    pub fn placeholder() -> (r: Self)
        ensures
            r == placeholder_point(),
    {
        SeekPoint { sample_number: u64::MAX, stream_offset: 0, frame_samples: 0 }
    }

    /// The 18-byte big-endian form of the point.
    pub fn encode(&self) -> (r: [u8; 18])
        ensures
            r@ == seek_point_bytes(*self),
    {
        let mut v: Vec<u8> = Vec::new();
        push_be64(&mut v, self.sample_number);
        push_be64(&mut v, self.stream_offset);
        push_be16(&mut v, self.frame_samples);
        let r: [u8; 18] = [
            v[0],
            v[1],
            v[2],
            v[3],
            v[4],
            v[5],
            v[6],
            v[7],
            v[8],
            v[9],
            v[10],
            v[11],
            v[12],
            v[13],
            v[14],
            v[15],
            v[16],
            v[17],
        ];
        proof {
            assert(r@ =~= v@);
        }
        r
    }
}

/// The 34-byte STREAMINFO body.
pub fn encode_stream_info(
    min_block_size: u16,
    max_block_size: u16,
    min_frame_size: u32,
    max_frame_size: u32,
    sample_rate: u32,
    channels: u8,
    bits_per_sample: u8,
    total_samples: u64,
    md5: &[u8; 16],
) -> (r: [u8; 34])
    requires
        channels >= 1,
        bits_per_sample >= 1,
    ensures
        r@ == stream_info_bytes(
            min_block_size,
            max_block_size,
            min_frame_size,
            max_frame_size,
            sample_rate,
            channels,
            bits_per_sample,
            total_samples,
            md5@,
        ),
{
    let sr = sample_rate;
    let ch: u32 = ((channels - 1) as u32) & 0x7;
    let bps: u32 = ((bits_per_sample - 1) as u32) & 0x1f;
    let ts_hi: u32 = ((total_samples >> 32) & 0xf) as u32;
    let ts_lo: u32 = total_samples as u32;
    let r: [u8; 34] = [
        (min_block_size >> 8) as u8,
        min_block_size as u8,
        (max_block_size >> 8) as u8,
        max_block_size as u8,
        (min_frame_size >> 16) as u8,
        (min_frame_size >> 8) as u8,
        min_frame_size as u8,
        (max_frame_size >> 16) as u8,
        (max_frame_size >> 8) as u8,
        max_frame_size as u8,
        (sr >> 12) as u8,
        (sr >> 4) as u8,
        ((sr & 0xf) << 4) as u8 | (ch << 1) as u8 | ((bps >> 4) & 1) as u8,
        ((bps & 0xf) << 4) as u8 | ts_hi as u8,
        (ts_lo >> 24) as u8,
        (ts_lo >> 16) as u8,
        (ts_lo >> 8) as u8,
        ts_lo as u8,
        md5[0],
        md5[1],
        md5[2],
        md5[3],
        md5[4],
        md5[5],
        md5[6],
        md5[7],
        md5[8],
        md5[9],
        md5[10],
        md5[11],
        md5[12],
        md5[13],
        md5[14],
        md5[15],
    ];
    proof {
        assert(r@ =~= stream_info_bytes(
            min_block_size,
            max_block_size,
            min_frame_size,
            max_frame_size,
            sample_rate,
            channels,
            bits_per_sample,
            total_samples,
            md5@,
        ));
    }
    r
}

/// A STREAMINFO body keeps what it was given: the sample rate, the channel
/// count, the sample size and the total sample count can be read back from
/// their bit fields whenever they fit them.
pub proof fn lemma_stream_info_round_trip(
    min_block_size: u16,
    max_block_size: u16,
    min_frame_size: u32,
    max_frame_size: u32,
    sample_rate: u32,
    channels: u8,
    bits_per_sample: u8,
    total_samples: u64,
    md5: Seq<u8>,
)
    requires
        sample_rate < 0x10_0000,
        1 <= channels <= 8,
        1 <= bits_per_sample <= 32,
        total_samples < 0x10_0000_0000,
        md5.len() == 16,
    ensures
        ({
            let b = stream_info_bytes(
                min_block_size,
                max_block_size,
                min_frame_size,
                max_frame_size,
                sample_rate,
                channels,
                bits_per_sample,
                total_samples,
                md5,
            );
            &&& b.len() == 34
            &&& (((b[10] as u32) << 12u32) | ((b[11] as u32) << 4u32) | ((b[12] as u32) >> 4u32))
                == sample_rate
            &&& (((b[12] >> 1u8) & 7) + 1) as int == channels
            &&& ((((b[12] & 1) as u32) << 4u32) | ((b[13] >> 4u8) as u32)) + 1 == bits_per_sample
            &&& (((b[13] & 0xf) as u64) << 32u64) | ((b[14] as u64) << 24u64) | ((b[15] as u64)
                << 16u64) | ((b[16] as u64) << 8u64) | (b[17] as u64) == total_samples
            &&& b.subrange(18, 34) == md5
        }),
{
    let b = stream_info_bytes(
        min_block_size,
        max_block_size,
        min_frame_size,
        max_frame_size,
        sample_rate,
        channels,
        bits_per_sample,
        total_samples,
        md5,
    );
    let sr = sample_rate;
    let c1 = (channels - 1) as u32;
    let b1 = (bits_per_sample - 1) as u32;
    let ch = c1 & 0x7;
    let bps = b1 & 0x1f;
    let ts = total_samples;
    let ts_hi = ((ts >> 32u64) & 0xf) as u32;
    let ts_lo = ts as u32;
    let x10 = b[10];
    let x11 = b[11];
    let x12 = b[12];
    let x13 = b[13];
    let x14 = b[14];
    let x15 = b[15];
    let x16 = b[16];
    let x17 = b[17];
    assert(x10 == (sr >> 12u32) as u8);
    assert(x11 == (sr >> 4u32) as u8);
    assert(x12 == (((sr & 0xf) << 4u32) as u8) | ((ch << 1u32) as u8) | (((bps >> 4u32) & 1) as u8));
    assert(x13 == (((bps & 0xf) << 4u32) as u8) | (ts_hi as u8));
    assert(x14 == (ts_lo >> 24u32) as u8);
    assert(x15 == (ts_lo >> 16u32) as u8);
    assert(x16 == (ts_lo >> 8u32) as u8);
    assert(x17 == ts_lo as u8);
    assert(ts_hi < 16 && ts_hi as u64 == ts >> 32u64 && ts_lo as u64 == ts & 0xffff_ffff)
        by (bit_vector)
        requires
            ts < 0x10_0000_0000,
            ts_hi == ((ts >> 32u64) & 0xf) as u32,
            ts_lo == ts as u32,
    ;
    assert(ch == c1 && bps == b1) by (bit_vector)
        requires
            c1 < 8,
            b1 < 32,
            ch == c1 & 0x7,
            bps == b1 & 0x1f,
    ;
    assert(((x10 as u32) << 12u32) | ((x11 as u32) << 4u32) | ((x12 as u32) >> 4u32) == sr)
        by (bit_vector)
        requires
            sr < 0x10_0000,
            ch < 8,
            bps < 32,
            x10 == (sr >> 12u32) as u8,
            x11 == (sr >> 4u32) as u8,
            x12 == (((sr & 0xf) << 4u32) as u8) | ((ch << 1u32) as u8) | (((bps >> 4u32) & 1) as u8),
    ;
    assert(((x12 >> 1u8) & 7) as u32 == ch) by (bit_vector)
        requires
            ch < 8,
            bps < 32,
            x12 == (((sr & 0xf) << 4u32) as u8) | ((ch << 1u32) as u8) | (((bps >> 4u32) & 1) as u8),
    ;
    assert((((x12 & 1) as u32) << 4u32) | ((x13 >> 4u8) as u32) == bps) by (bit_vector)
        requires
            ch < 8,
            bps < 32,
            ts_hi < 16,
            x12 == (((sr & 0xf) << 4u32) as u8) | ((ch << 1u32) as u8) | (((bps >> 4u32) & 1) as u8),
            x13 == (((bps & 0xf) << 4u32) as u8) | (ts_hi as u8),
    ;
    assert((((x13 & 0xf) as u64) << 32u64) | ((x14 as u64) << 24u64) | ((x15 as u64) << 16u64)
        | ((x16 as u64) << 8u64) | (x17 as u64) == ts) by (bit_vector)
        requires
            ts < 0x10_0000_0000,
            ts_hi as u64 == ts >> 32u64,
            ts_lo as u64 == ts & 0xffff_ffff,
            ts_hi < 16,
            bps < 32,
            x13 == (((bps & 0xf) << 4u32) as u8) | (ts_hi as u8),
            x14 == (ts_lo >> 24u32) as u8,
            x15 == (ts_lo >> 16u32) as u8,
            x16 == (ts_lo >> 8u32) as u8,
            x17 == ts_lo as u8,
    ;
    assert(b.subrange(18, 34) =~= md5);
}

/// A metadata block header.
pub fn metadata_block_header(is_last: bool, block_type: u8, length: u32) -> (r: [u8; 4])
    ensures
        r@ == block_header(is_last, block_type, length),
{
    let flag: u8 = if is_last {
        0x80
    } else {
        0x00
    };
    let r: [u8; 4] = [flag | (block_type & 0x7f), (length >> 16) as u8, (length >> 8) as u8, length as u8];
    proof {
        assert(r@ =~= block_header(is_last, block_type, length));
    }
    r
}

/// A whole STREAMINFO block: header and body.
pub fn build_stream_info_block(
    is_last: bool,
    min_block_size: u16,
    max_block_size: u16,
    min_frame_size: u32,
    max_frame_size: u32,
    sample_rate: u32,
    channels: u8,
    bits_per_sample: u8,
    total_samples: u64,
    md5: &[u8; 16],
) -> (r: [u8; 38])
    requires
        channels >= 1,
        bits_per_sample >= 1,
    ensures
        r@ == block_header(is_last, BLOCK_TYPE_STREAMINFO, 34) + stream_info_bytes(
            min_block_size,
            max_block_size,
            min_frame_size,
            max_frame_size,
            sample_rate,
            channels,
            bits_per_sample,
            total_samples,
            md5@,
        ),
{
    let hdr = metadata_block_header(is_last, BLOCK_TYPE_STREAMINFO, STREAMINFO_LEN as u32);
    let p = encode_stream_info(
        min_block_size,
        max_block_size,
        min_frame_size,
        max_frame_size,
        sample_rate,
        channels,
        bits_per_sample,
        total_samples,
        md5,
    );
    let r: [u8; 38] = [
        hdr[0],
        hdr[1],
        hdr[2],
        hdr[3],
        p[0],
        p[1],
        p[2],
        p[3],
        p[4],
        p[5],
        p[6],
        p[7],
        p[8],
        p[9],
        p[10],
        p[11],
        p[12],
        p[13],
        p[14],
        p[15],
        p[16],
        p[17],
        p[18],
        p[19],
        p[20],
        p[21],
        p[22],
        p[23],
        p[24],
        p[25],
        p[26],
        p[27],
        p[28],
        p[29],
        p[30],
        p[31],
        p[32],
        p[33],
    ];
    proof {
        assert(r@ =~= hdr@ + p@);
    }
    r
}

/// `n` placeholder points.
pub open spec fn placeholders(n: nat) -> Seq<SeekPoint> {
    Seq::new(n, |i: int| placeholder_point())
}

/// The length field of a SEEKTABLE of `n` points (saturated at `u32::MAX`).
pub open spec fn seektable_length(n: u32) -> u32 {
    if 18 * n <= u32::MAX {
        (18 * n) as u32
    } else {
        u32::MAX
    }
}

/// A SEEKTABLE block of `n` placeholder points, to be filled in later.
pub fn build_seektable_block(is_last: bool, num_points: u32) -> (r: Vec<u8>)
    requires
        4 + 18 * num_points <= usize::MAX,
    ensures
        r@ == block_header(is_last, BLOCK_TYPE_SEEKTABLE, seektable_length(num_points))
            + seek_points_bytes(placeholders(num_points as nat)),
{
    let length: u32 = if num_points as u64 * 18 <= u32::MAX as u64 {
        num_points * 18
    } else {
        u32::MAX
    };
    let hdr = metadata_block_header(is_last, BLOCK_TYPE_SEEKTABLE, length);
    let mut block: Vec<u8> = Vec::new();
    push_all(&mut block, &hdr);
    let placeholder = SeekPoint::placeholder();
    let enc = placeholder.encode();
    let mut i: u32 = 0;
    while i < num_points
        invariant
            i <= num_points,
            hdr@ == block_header(is_last, BLOCK_TYPE_SEEKTABLE, seektable_length(num_points)),
            enc@ == seek_point_bytes(placeholder_point()),
            block@ == hdr@ + seek_points_bytes(placeholders(i as nat)),
        decreases num_points - i,
    {
        push_all(&mut block, &enc);
        proof {
            assert(placeholders((i + 1) as nat).drop_last() =~= placeholders(i as nat));
        }
        i = i + 1;
    }
    block
}

/// The body length limit of a metadata block.
pub open spec fn vorbis_block_ok(c: VorbisComments) -> bool {
    encodable(c.spec_vendor(), c.spec_entries())
        && comments_block(c.spec_vendor(), c.spec_entries()).len() <= 0xff_ffff
}

/// A VORBIS_COMMENT block, or `Unsupported` when the comments do not fit one.
pub fn build_vorbis_comment_block(is_last: bool, comments: &VorbisComments) -> (r: Result<
    Vec<u8>,
    Error,
>)
    ensures
        r is Ok <==> vorbis_block_ok(*comments),
        r is Ok ==> {
            let body = comments_block(comments.spec_vendor(), comments.spec_entries());
            r->Ok_0@ == block_header(is_last, BLOCK_TYPE_VORBIS_COMMENT, body.len() as u32) + body
        },
        r is Err ==> r->Err_0 matches Error::Unsupported(_),
{
    let payload = match comments.encode() {
        Some(p) => p,
        None => {
            return Err(Error::Unsupported("vorbis comment data exceeds u32 limits"));
        },
    };
    if payload.len() > 0xff_ffff {
        return Err(
            Error::Unsupported("vorbis comment block exceeds FLAC metadata block size limit"),
        );
    }
    let length = payload.len() as u32;
    let hdr = metadata_block_header(is_last, BLOCK_TYPE_VORBIS_COMMENT, length);
    let mut block: Vec<u8> = Vec::new();
    push_all(&mut block, &hdr);
    push_all(&mut block, payload.as_slice());
    Ok(block)
}

/// A PADDING block of `length` zero bytes.
pub fn build_padding_block(is_last: bool, length: u32) -> (r: Vec<u8>)
    requires
        4 + length <= usize::MAX,
    ensures
        r@ == block_header(is_last, BLOCK_TYPE_PADDING, length) + Seq::new(
            length as nat,
            |i: int| 0u8,
        ),
{
    let hdr = metadata_block_header(is_last, BLOCK_TYPE_PADDING, length);
    let mut block: Vec<u8> = Vec::new();
    push_all(&mut block, &hdr);
    let mut i: u32 = 0;
    while i < length
        invariant
            i <= length,
            block@ == hdr@ + Seq::new(i as nat, |k: int| 0u8),
        decreases length - i,
    {
        block.push(0);
        i = i + 1;
        proof {
            assert(block@ =~= hdr@ + Seq::new(i as nat, |k: int| 0u8));
        }
    }
    block
}

} // verus!
