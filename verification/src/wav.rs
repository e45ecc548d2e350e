//! The WAVE muxer: one PCM track in a RIFF file, with a classic or an
//! extensible `fmt ` chunk.
use vstd::prelude::*;

use crate::audio::popcount;
use crate::bits::{le16, le32, push_le16, push_le32};
use crate::codecs::{is_float_codec, pcm_codec_width, CodecId, CodecParameters};
use crate::error::Error;
use crate::formats::{FinalizeSummary, FormatId, Muxer, TrackId, TrackSpec};
use crate::io::{lemma_placed_append, lemma_placed_splice, overwrite, placed, splice, ByteCursor};
use crate::packet::EncodedPacket;
use crate::riff::{riff_pad, ChunkHandle, RiffWriter};

verus! {

pub open spec fn riff_id() -> Seq<u8> {
    seq![0x52u8, 0x49u8, 0x46u8, 0x46u8]
}

pub open spec fn wave_id() -> Seq<u8> {
    seq![0x57u8, 0x41u8, 0x56u8, 0x45u8]
}

pub open spec fn fmt_id() -> Seq<u8> {
    seq![0x66u8, 0x6du8, 0x74u8, 0x20u8]
}

pub open spec fn data_id() -> Seq<u8> {
    seq![0x64u8, 0x61u8, 0x74u8, 0x61u8]
}

/// Format tag, bits per sample and bytes per sample of each codec WAVE can hold.
pub open spec fn wav_codec_params(codec: CodecId) -> Option<(u16, u16, u16)> {
    match codec {
        CodecId::PcmU8 => Some((1u16, 8u16, 1u16)),
        CodecId::PcmS16Le => Some((1u16, 16u16, 2u16)),
        CodecId::PcmS24Le => Some((1u16, 24u16, 3u16)),
        CodecId::PcmS32Le => Some((1u16, 32u16, 4u16)),
        CodecId::PcmF32Le => Some((3u16, 32u16, 4u16)),
        CodecId::PcmF64Le => Some((3u16, 64u16, 8u16)),
        _ => None,
    }
}

/// WAVE holds exactly the PCM codecs. Their format tag is 3 (IEEE float)
/// for the float codecs and 1 (integer PCM) for the others, and the bytes and
/// bits per sample are the codec's sample width.
pub proof fn lemma_wav_params_describe_codec(codec: CodecId)
    ensures
        wav_codec_params(codec) is Some <==> pcm_codec_width(codec) is Some,
        wav_codec_params(codec) is Some ==> {
            let (tag, bits, bytes) = wav_codec_params(codec)->0;
            &&& tag == (if is_float_codec(codec) {
                3u16
            } else {
                1u16
            })
            &&& bytes == pcm_codec_width(codec)->0
            &&& bits == 8 * bytes
        },
{
}

/// The KSDATAFORMAT subformat GUID of a format tag.
pub open spec fn ks_subformat(tag: u16) -> Seq<u8> {
    seq![
        tag as u8,
        0x00u8,
        0x00u8,
        0x00u8,
        0x00u8,
        0x00u8,
        0x10u8,
        0x00u8,
        0x80u8,
        0x00u8,
        0x00u8,
        0xaau8,
        0x00u8,
        0x38u8,
        0x9bu8,
        0x71u8,
    ]
}

/// The 16-byte body of a classic `fmt ` chunk.
pub open spec fn classic_fmt(
    tag: u16,
    channels: u16,
    sample_rate: u32,
    byte_rate: u32,
    block_align: u16,
    bits: u16,
) -> Seq<u8> {
    le16(tag) + le16(channels) + le32(sample_rate) + le32(byte_rate) + le16(block_align) + le16(
        bits,
    )
}

/// The 40-byte body of a `WAVE_FORMAT_EXTENSIBLE` `fmt ` chunk.
pub open spec fn extensible_fmt(
    tag: u16,
    channels: u16,
    sample_rate: u32,
    byte_rate: u32,
    block_align: u16,
    bits: u16,
    channel_mask: u32,
) -> Seq<u8> {
    classic_fmt(0xfffeu16, channels, sample_rate, byte_rate, block_align, bits) + le16(22u16)
        + le16(bits) + le32(channel_mask) + ks_subformat(tag)
}

/// The `fmt ` body for a track of `params`, extensible when forced or when
/// there are more than two channels.
pub open spec fn wav_fmt(params: CodecParameters, force_extensible: bool) -> Seq<u8> {
    let (tag, bits, bytes) = wav_codec_params(params.codec)->0;
    let channels = popcount(params.channels.0);
    let block_align = channels * bytes;
    let byte_rate = params.sample_rate * block_align;
    if force_extensible || channels > 2 {
        extensible_fmt(
            tag,
            channels as u16,
            params.sample_rate,
            byte_rate as u32,
            block_align as u16,
            bits,
            params.channels.0,
        )
    } else {
        classic_fmt(tag, channels as u16, params.sample_rate, byte_rate as u32, block_align as u16, bits)
    }
}

/// The header written when the track is added: both sizes still zero.
pub open spec fn wav_header(fmt: Seq<u8>) -> Seq<u8> {
    riff_id() + le32(0) + wave_id() + fmt_id() + le32(fmt.len() as u32) + fmt + data_id() + le32(0)
}

/// The RIFF size of a finished file: everything after the size field.
pub open spec fn wav_riff_size(fmt: Seq<u8>, data: Seq<u8>) -> int {
    20 + fmt.len() + data.len() + riff_pad(data.len() as int).len() as int
}

/// A finished WAVE file holding `data` with the `fmt ` body `fmt`.
pub open spec fn wav_file(fmt: Seq<u8>, data: Seq<u8>) -> Seq<u8> {
    riff_id() + le32(wav_riff_size(fmt, data) as u32) + wave_id() + fmt_id() + le32(
        fmt.len() as u32,
    ) + fmt + data_id() + le32(data.len() as u32) + data + riff_pad(data.len() as int)
}

/// A finished file is eight bytes of chunk header longer than its RIFF size,
/// and its data chunk declares exactly the payload.
pub proof fn lemma_wav_file_layout(fmt: Seq<u8>, data: Seq<u8>)
    ensures
        wav_file(fmt, data).len() == 8 + wav_riff_size(fmt, data),
        wav_file(fmt, data).subrange(0, 4) == riff_id(),
        wav_file(fmt, data).subrange(8, 12) == wave_id(),
        wav_file(fmt, data).subrange(28 + fmt.len() as int, 28 + fmt.len() + data.len() as int) == data,
{
    let f = wav_file(fmt, data);
    assert(f.subrange(0, 4) =~= riff_id());
    assert(f.subrange(8, 12) =~= wave_id());
    assert(f.subrange(28 + fmt.len() as int, 28 + fmt.len() + data.len() as int) =~= data);
}

/// Patching both sizes into the header and padding the data gives the
/// finished file.
proof fn lemma_wav_finish(fmt: Seq<u8>, d: Seq<u8>, data_size: u32, riff_size: u32)
    requires
        data_size == d.len(),
        riff_size == (fmt.len() + 28 + d.len() + riff_pad(d.len() as int).len()) - 8,
    ensures
        splice(
            splice(wav_header(fmt) + d, fmt.len() as int + 24, le32(data_size)) + riff_pad(d.len() as int),
            4,
            le32(riff_size),
        ) == wav_file(fmt, d),
{
    let w1 = splice(wav_header(fmt) + d, fmt.len() as int + 24, le32(data_size));
    assert(w1 =~= riff_id() + le32(0) + wave_id() + fmt_id() + le32(fmt.len() as u32) + fmt
        + data_id() + le32(data_size) + d);
    let w2 = w1 + riff_pad(d.len() as int);
    assert(splice(w2, 4, le32(riff_size)) =~= wav_file(fmt, d));
}

/// What a WAVE codec contributes to the header.
#[derive(Clone, Copy, Debug)]
pub struct WavCodecInfo {
    pub classic_format_tag: u16,
    pub bits_per_sample: u16,
    pub bytes_per_sample: u16,
    pub extensible_subformat: [u8; 16],
}

/// The header facts of `codec`, or `Unsupported` for a codec WAVE cannot hold.
pub fn wav_codec_info(codec: CodecId) -> (r: Result<WavCodecInfo, Error>)
    ensures
        r is Ok <==> wav_codec_params(codec) is Some,
        r is Ok ==> {
            let (tag, bits, bytes) = wav_codec_params(codec)->0;
            &&& r->Ok_0.classic_format_tag == tag
            &&& r->Ok_0.bits_per_sample == bits
            &&& r->Ok_0.bytes_per_sample == bytes
            &&& r->Ok_0.extensible_subformat@ == ks_subformat(tag)
        },
        r is Err ==> r->Err_0 matches Error::Unsupported(_),
{
    let (tag, bits, bytes): (u16, u16, u16) = match codec {
        CodecId::PcmU8 => (1, 8, 1),
        CodecId::PcmS16Le => (1, 16, 2),
        CodecId::PcmS24Le => (1, 24, 3),
        CodecId::PcmS32Le => (1, 32, 4),
        CodecId::PcmF32Le => (3, 32, 4),
        CodecId::PcmF64Le => (3, 64, 8),
        _ => {
            return Err(Error::Unsupported("wav muxer does not support this codec id"));
        },
    };
    let sub: [u8; 16] = [
        tag as u8,
        0x00,
        0x00,
        0x00,
        0x00,
        0x00,
        0x10,
        0x00,
        0x80,
        0x00,
        0x00,
        0xaa,
        0x00,
        0x38,
        0x9b,
        0x71,
    ];
    proof {
        assert(sub@ =~= ks_subformat(tag));
    }
    Ok(
        WavCodecInfo {
            classic_format_tag: tag,
            bits_per_sample: bits,
            bytes_per_sample: bytes,
            extensible_subformat: sub,
        },
    )
}

/// Writes a classic 16-byte `fmt ` body.
pub fn write_classic_fmt_payload(
    writer: &mut RiffWriter,
    codec: WavCodecInfo,
    channels: u16,
    sample_rate: u32,
    byte_rate: u32,
    block_align: u16,
) -> (r: Result<(), Error>)
    ensures
        r is Ok <==> old(writer).cursor().pos() + 16 <= usize::MAX,
        r is Ok ==> final(writer).cursor().bytes() == overwrite(
            old(writer).cursor().bytes(),
            old(writer).cursor().pos(),
            classic_fmt(
                codec.classic_format_tag,
                channels,
                sample_rate,
                byte_rate,
                block_align,
                codec.bits_per_sample,
            ),
        ) && final(writer).cursor().pos() == old(writer).cursor().pos() + 16,
        r is Err ==> *final(writer) == *old(writer),
{
    let mut out: Vec<u8> = Vec::new();
    push_le16(&mut out, codec.classic_format_tag);
    push_le16(&mut out, channels);
    push_le32(&mut out, sample_rate);
    push_le32(&mut out, byte_rate);
    push_le16(&mut out, block_align);
    push_le16(&mut out, codec.bits_per_sample);
    proof {
        assert(out@ =~= classic_fmt(
            codec.classic_format_tag,
            channels,
            sample_rate,
            byte_rate,
            block_align,
            codec.bits_per_sample,
        ));
    }
    writer.write_all(out.as_slice())
}

/// Writes a 40-byte `WAVE_FORMAT_EXTENSIBLE` `fmt ` body.
pub fn write_extensible_fmt_payload(
    writer: &mut RiffWriter,
    codec: WavCodecInfo,
    channels: u16,
    sample_rate: u32,
    byte_rate: u32,
    block_align: u16,
    channel_mask: u32,
) -> (r: Result<(), Error>)
    ensures
        r is Ok <==> old(writer).cursor().pos() + 40 <= usize::MAX,
        r is Ok ==> final(writer).cursor().bytes() == overwrite(
            old(writer).cursor().bytes(),
            old(writer).cursor().pos(),
            classic_fmt(0xfffeu16, channels, sample_rate, byte_rate, block_align, codec.bits_per_sample)
                + le16(22u16) + le16(codec.bits_per_sample) + le32(channel_mask)
                + codec.extensible_subformat@,
        ) && final(writer).cursor().pos() == old(writer).cursor().pos() + 40,
        r is Err ==> *final(writer) == *old(writer),
{
    let mut out: Vec<u8> = Vec::new();
    push_le16(&mut out, 0xfffe);
    push_le16(&mut out, channels);
    push_le32(&mut out, sample_rate);
    push_le32(&mut out, byte_rate);
    push_le16(&mut out, block_align);
    push_le16(&mut out, codec.bits_per_sample);
    push_le16(&mut out, 22);
    push_le16(&mut out, codec.bits_per_sample);
    push_le32(&mut out, channel_mask);
    let mut i: usize = 0;
    let ghost prefix = out@;
    while i < 16
        invariant
            0 <= i <= 16,
            out@ == prefix + codec.extensible_subformat@.take(i as int),
        decreases 16 - i,
    {
        out.push(codec.extensible_subformat[i]);
        i = i + 1;
        proof {
            assert(out@ =~= prefix + codec.extensible_subformat@.take(i as int));
        }
    }
    proof {
        assert(codec.extensible_subformat@.take(16) =~= codec.extensible_subformat@);
        assert(out@ =~= classic_fmt(
            0xfffeu16,
            channels,
            sample_rate,
            byte_rate,
            block_align,
            codec.bits_per_sample,
        ) + le16(22u16) + le16(codec.bits_per_sample) + le32(channel_mask)
            + codec.extensible_subformat@);
    }
    writer.write_all(out.as_slice())
}

/// Options of the WAVE muxer.
#[derive(Clone, Copy, Debug, PartialEq, Eq)]
pub struct WavMuxerOptions {
    /// Always write a `WAVE_FORMAT_EXTENSIBLE` header, even for one or two channels.
    pub force_extensible: bool,
}

impl Default for WavMuxerOptions {
    fn default() -> (r: Self)
        ensures
            !r.force_extensible,
    {
        WavMuxerOptions { force_extensible: false }
    }
}

/// Builds a `WavMuxer`.
#[derive(Debug)]
pub struct WavMuxerBuilder {
    writer: ByteCursor,
    options: WavMuxerOptions,
}

impl WavMuxerBuilder {
    pub closed spec fn spec_writer(&self) -> ByteCursor {
        self.writer
    }

    pub closed spec fn spec_options(&self) -> WavMuxerOptions {
        self.options
    }

    pub fn new(writer: ByteCursor) -> (r: Self)
        ensures
            r.spec_writer() == writer,
            !r.spec_options().force_extensible,
    {
        WavMuxerBuilder { writer, options: WavMuxerOptions::default() }
    }

    pub fn force_extensible(self, force: bool) -> (r: Self)
        ensures
            r.spec_writer() == self.spec_writer(),
            r.spec_options().force_extensible == force,
    {
        let mut b = self;
        b.options.force_extensible = force;
        b
    }

    pub fn options(self, options: WavMuxerOptions) -> (r: Self)
        ensures
            r.spec_writer() == self.spec_writer(),
            r.spec_options() == options,
    {
        let mut b = self;
        b.options = options;
        b
    }

    pub fn build(self) -> (r: WavMuxer)
        ensures
            r.muxer_inv(),
            r.origin() == self.spec_writer().bytes(),
            r.start() == self.spec_writer().pos(),
            r.written().len() == 0,
            r.payload().len() == 0,
            r.packet_count() == 0,
            !r.has_track(),
            !r.is_finalized(),
            r.force_extensible() == self.spec_options().force_extensible,
    {
        let ghost origin = self.writer.bytes();
        let ghost start = self.writer.pos();
        proof {
            self.writer.lemma_pos_nonneg();
        }
        let m = WavMuxer {
            writer: RiffWriter::new(self.writer),
            options: self.options,
            track: None,
            data_bytes: 0,
            packet_count: 0,
            finalized: false,
            origin: Ghost(origin),
            start: Ghost(start),
            written: Ghost(Seq::empty()),
            fmt: Ghost(Seq::empty()),
            data: Ghost(Seq::empty()),
        };
        m
    }
}

#[derive(Clone, Copy, Debug)]
struct TrackState {
    id: TrackId,
    block_align: u16,
    riff_chunk: ChunkHandle,
    data_chunk: ChunkHandle,
    max_padded_data_len: u64,
}

/// The WAVE muxer.
///
/// It keeps, as ghost state, the cursor's bytes and position when it was
/// built and the file written since, so that its contracts can speak of the
/// file as a whole.
pub struct WavMuxer {
    writer: RiffWriter,
    options: WavMuxerOptions,
    track: Option<TrackState>,
    data_bytes: u64,
    packet_count: u64,
    finalized: bool,
    origin: Ghost<Seq<u8>>,
    start: Ghost<int>,
    written: Ghost<Seq<u8>>,
    fmt: Ghost<Seq<u8>>,
    data: Ghost<Seq<u8>>,
}

/// Whether a track of `params` passes every check of `add_track` on a muxer
/// whose header would start at position `start`.
pub open spec fn wav_track_valid(params: CodecParameters, start: int) -> bool {
    let (tag, bits, bytes) = wav_codec_params(params.codec)->0;
    let channels = popcount(params.channels.0);
    &&& wav_codec_params(params.codec) is Some
    &&& channels != 0
    &&& params.sample_rate != 0
    &&& params.sample_rate * channels * bytes <= u32::MAX
}

/// The length of the header written for a `fmt ` body of `fmt_len` bytes.
pub open spec fn wav_header_len(fmt_len: int) -> int {
    28 + fmt_len
}

/// Whether `add_track` with `params` succeeds on a fresh, unfinalized muxer
/// whose header starts at `start`: the track is valid, the header is
/// addressable, and it leaves room under the 32-bit RIFF size.
pub open spec fn wav_add_ok(params: CodecParameters, force_extensible: bool, start: int) -> bool {
    let hl = wav_header_len(wav_fmt(params, force_extensible).len() as int);
    &&& wav_track_valid(params, start)
    &&& start + hl <= usize::MAX
    &&& start + hl - 8 <= u32::MAX
}

impl WavMuxer {
    /// The cursor's bytes when the muxer was built.
    pub closed spec fn origin(&self) -> Seq<u8> {
        self.origin@
    }

    /// The cursor's position when the muxer was built.
    pub closed spec fn start(&self) -> int {
        self.start@
    }

    /// Everything written since the muxer was built.
    pub closed spec fn written(&self) -> Seq<u8> {
        self.written@
    }

    /// The `fmt ` body of the track.
    pub closed spec fn fmt_payload(&self) -> Seq<u8> {
        self.fmt@
    }

    /// The sample data written so far.
    pub closed spec fn payload(&self) -> Seq<u8> {
        self.data@
    }

    pub closed spec fn packet_count(&self) -> int {
        self.packet_count as int
    }

    pub closed spec fn has_track(&self) -> bool {
        self.track is Some
    }

    pub closed spec fn is_finalized(&self) -> bool {
        self.finalized
    }

    pub closed spec fn force_extensible(&self) -> bool {
        self.options.force_extensible
    }

    /// Bytes per sample frame of the track.
    pub closed spec fn block_align(&self) -> int {
        self.track->0.block_align as int
    }

    /// The largest data length, padding included, the RIFF size field allows.
    pub closed spec fn data_limit(&self) -> int {
        self.track->0.max_padded_data_len as int
    }

    /// The cursor, as it holds the file.
    pub closed spec fn cursor(&self) -> ByteCursor {
        self.writer.cursor()
    }

    pub closed spec fn wf(&self) -> bool {
        let hl = self.fmt@.len() + 28;
        &&& self.start@ >= 0
        &&& self.writer.cursor().bytes() == placed(self.origin@, self.start@, self.written@)
        &&& self.writer.cursor().pos() == self.start@ + self.written@.len()
        &&& self.track is None ==> self.written@.len() == 0 && self.data@.len() == 0
            && self.data_bytes == 0 && self.packet_count == 0 && !self.finalized
        &&& self.track is Some ==> {
            let st = self.track->0;
            &&& self.fmt@.len() == 16 || self.fmt@.len() == 40
            &&& st.id == TrackId(0)
            &&& st.block_align > 0
            &&& st.riff_chunk.spec_size_offset() == self.start@ + 4
            &&& st.riff_chunk.spec_size_data_start() == self.start@ + 8
            &&& st.data_chunk.spec_size_offset() == self.start@ + hl - 4
            &&& st.data_chunk.spec_size_data_start() == self.start@ + hl
            &&& st.max_padded_data_len == u32::MAX - (self.start@ + hl - 8)
            &&& self.data_bytes == self.data@.len()
            &&& self.data@.len() + self.data@.len() % 2 <= st.max_padded_data_len
            &&& self.packet_count <= self.data@.len()
            &&& !self.finalized ==> self.written@ == wav_header(self.fmt@) + self.data@
            &&& self.finalized ==> self.written@ == wav_file(self.fmt@, self.data@)
        }
    }

    pub fn new(writer: ByteCursor) -> (r: Self)
        ensures
            r.muxer_inv(),
            r.origin() == writer.bytes(),
            r.start() == writer.pos(),
            r.written().len() == 0,
            r.payload().len() == 0,
            r.packet_count() == 0,
            !r.has_track(),
            !r.is_finalized(),
            !r.force_extensible(),
    {
        Self::builder(writer).build()
    }

    pub fn builder(writer: ByteCursor) -> (r: WavMuxerBuilder)
        ensures
            r.spec_writer() == writer,
            !r.spec_options().force_extensible,
    {
        WavMuxerBuilder::new(writer)
    }

    /// Gives back the cursor: its original bytes with the file written over
    /// them from the original position.
    pub fn into_inner(self) -> (r: ByteCursor)
        requires
            self.muxer_inv(),
        ensures
            r.bytes() == placed(self.origin(), self.start(), self.written()),
            r.pos() == self.start() + self.written().len(),
    {
        self.writer.into_inner()
    }

    fn ensure_writable(&self) -> (r: Result<(), Error>)
        ensures
            r is Ok <==> !self.finalized,
            r is Err ==> r->Err_0 matches Error::InvalidState(_),
    {
        if self.finalized {
            return Err(Error::InvalidState("muxer already finalized"));
        }
        Ok(())
    }

    #[verifier::rlimit(40)]
    fn write_header(&mut self, spec: &TrackSpec) -> (r: Result<TrackState, Error>)
        requires
            old(self).wf(),
            old(self).track is None,
            !old(self).finalized,
        ensures
            final(self).wf() || r is Ok,
            r is Err ==> *final(self) == *old(self),
            wav_codec_params(spec.codec_params.codec) is None ==> r is Err && r->Err_0 matches Error::Unsupported(_),
            r is Ok <==> wav_track_valid(spec.codec_params, old(self).start@) && old(
                self,
            ).start@ + wav_header_len(wav_fmt(spec.codec_params, old(self).options.force_extensible).len() as int)
                <= usize::MAX && old(self).start@ + wav_header_len(
                wav_fmt(spec.codec_params, old(self).options.force_extensible).len() as int,
            ) - 8 <= u32::MAX,
            r is Ok ==> {
                let fmt = wav_fmt(spec.codec_params, old(self).options.force_extensible);
                let hl = fmt.len() + 28;
                let st = r->Ok_0;
                let s = old(self).start@;
                let info = wav_codec_params(spec.codec_params.codec)->0;
                &&& final(self).fmt@ == fmt
                &&& final(self).written@ == wav_header(fmt)
                &&& final(self).writer.cursor().bytes() == placed(old(self).origin@, s, wav_header(fmt))
                &&& final(self).writer.cursor().pos() == s + hl
                &&& final(self).origin@ == old(self).origin@
                &&& final(self).start@ == s
                &&& final(self).options == old(self).options
                &&& final(self).track is None
                &&& final(self).data@ == old(self).data@
                &&& final(self).data_bytes == old(self).data_bytes
                &&& final(self).packet_count == old(self).packet_count
                &&& final(self).finalized == old(self).finalized
                &&& fmt.len() == 16 || fmt.len() == 40
                &&& st.id == TrackId(0)
                &&& st.block_align > 0
                &&& st.block_align == popcount(spec.codec_params.channels.0) * info.2
                &&& st.riff_chunk.spec_size_offset() == s + 4
                &&& st.riff_chunk.spec_size_data_start() == s + 8
                &&& st.data_chunk.spec_size_offset() == s + hl - 4
                &&& st.data_chunk.spec_size_data_start() == s + hl
                &&& st.max_padded_data_len == u32::MAX - (s + hl - 8)
            },
            r is Err ==> (r->Err_0 matches Error::Unsupported(_) || r->Err_0 matches Error::InvalidArgument(_) || r->Err_0 matches Error::Io(_)),
    {
        let params = &spec.codec_params;
        let codec = wav_codec_info(params.codec)?;
        let channels_u32 = params.channels.count();
        let channels = channels_u32 as u16;
        if channels == 0 {
            return Err(Error::InvalidArgument("wav track must have at least one channel"));
        }
        let sample_rate = params.sample_rate;
        if sample_rate == 0 {
            return Err(Error::InvalidArgument("wav sample rate must be non-zero"));
        }
        proof {
            assert(codec.bytes_per_sample <= 8);
            assert(1 <= codec.bytes_per_sample <= 8);
            assert(1 <= channels_u32 * codec.bytes_per_sample <= 256) by (nonlinear_arith)
                requires
                    1 <= channels_u32 <= 32,
                    1 <= codec.bytes_per_sample <= 8,
            ;
        }
        let block_align_u32 = channels_u32 * codec.bytes_per_sample as u32;
        let block_align = block_align_u32 as u16;
        proof {
            assert(sample_rate * block_align_u32 <= 0xffff_ffff * 256) by (nonlinear_arith)
                requires
                    block_align_u32 <= 256,
            ;
        }
        proof {
            assert(sample_rate * channels_u32 * codec.bytes_per_sample == sample_rate * (channels_u32
                * codec.bytes_per_sample)) by (nonlinear_arith);
        }
        if sample_rate as u64 * block_align_u32 as u64 > u32::MAX as u64 {
            return Err(Error::Unsupported("wav byte rate exceeds u32"));
        }
        let byte_rate = sample_rate * block_align_u32;
        let use_extensible = self.options.force_extensible || channels > 2;
        let fmt_len: u64 = if use_extensible {
            40
        } else {
            16
        };
        let p = self.writer.get_ref().position();
        if p > usize::MAX as u64 || fmt_len + 28 > usize::MAX as u64 - p {
            return Err(Error::Io("wav header exceeds addressable memory"));
        }
        if p + fmt_len + 20 > u32::MAX as u64 {
            return Err(Error::Unsupported("wav header exceeds riff size limits"));
        }
        let ghost fmt = wav_fmt(spec.codec_params, self.options.force_extensible);
        let ghost origin = self.origin@;
        let ghost s = self.start@;
        proof {
            assert(self.written@.len() == 0);
            assert(s == p);
        }
        let riff_chunk = {
            let id: [u8; 4] = [0x57u8, 0x41u8, 0x56u8, 0x45u8];
            proof { assert(id@ =~= wave_id()); }
            self.writer.start_riff(id)?
        };
        let ghost w1 = riff_id() + le32(0) + wave_id();
        proof {
            lemma_placed_append(origin, s, Seq::empty(), w1);
            assert(Seq::<u8>::empty() + w1 =~= w1);
        }
        let fmt_chunk = {
            let id: [u8; 4] = [0x66u8, 0x6du8, 0x74u8, 0x20u8];
            proof { assert(id@ =~= fmt_id()); }
            self.writer.start_chunk(id)?
        };
        let ghost w2 = w1 + (fmt_id() + le32(0));
        proof {
            lemma_placed_append(origin, s, w1, fmt_id() + le32(0));
        }
        if use_extensible {
            write_extensible_fmt_payload(
                &mut self.writer,
                codec,
                channels,
                sample_rate,
                byte_rate,
                block_align,
                params.channels.bits(),
            )?;
        } else {
            write_classic_fmt_payload(
                &mut self.writer,
                codec,
                channels,
                sample_rate,
                byte_rate,
                block_align,
            )?;
        }
        let ghost w3 = w2 + fmt;
        proof {
            let (tag, bits, bytes) = wav_codec_params(spec.codec_params.codec)->0;
            assert(tag == codec.classic_format_tag && bits == codec.bits_per_sample);
            assert(channels == popcount(spec.codec_params.channels.0));
            assert(block_align == popcount(spec.codec_params.channels.0) * bytes);
            assert(byte_rate == spec.codec_params.sample_rate * (popcount(spec.codec_params.channels.0) * bytes));
            if use_extensible {
                assert(fmt == classic_fmt(0xfffeu16, channels, sample_rate, byte_rate, block_align, codec.bits_per_sample)
                    + le16(22u16) + le16(codec.bits_per_sample) + le32(params.channels.0)
                    + codec.extensible_subformat@);
            } else {
                assert(fmt == classic_fmt(codec.classic_format_tag, channels, sample_rate, byte_rate, block_align, codec.bits_per_sample));
            }
            lemma_placed_append(origin, s, w2, fmt);
        }
        let fmt_size = self.writer.finish_chunk(fmt_chunk)?;
        let ghost w4 = splice(w3, 16, le32(fmt_len as u32));
        proof {
            assert(fmt_size == fmt_len);
            lemma_placed_splice(origin, s, w3, 16, le32(fmt_len as u32));
        }
        let data_chunk = {
            let id: [u8; 4] = [0x64u8, 0x61u8, 0x74u8, 0x61u8];
            proof { assert(id@ =~= data_id()); }
            self.writer.start_chunk(id)?
        };
        let ghost w5 = w4 + (data_id() + le32(0));
        proof {
            lemma_placed_append(origin, s, w4, data_id() + le32(0));
            assert(w5 =~= wav_header(fmt));
        }
        let base_riff_size = data_chunk.size_data_start() - 8;
        let max_padded_data_len = u32::MAX as u64 - base_riff_size;
        self.written = Ghost(w5);
        self.fmt = Ghost(fmt);
        assert(fmt.len() == fmt_len);
        assert(self.writer.cursor().pos() == s + fmt.len() + 28);
        assert(self.writer.cursor().bytes() == placed(origin, s, wav_header(fmt)));
        assert(riff_chunk.spec_size_offset() == s + 4);
        assert(data_chunk.spec_size_offset() == s + fmt.len() + 24);
        assert(block_align > 0);
        Ok(
            TrackState {
                id: TrackId(0),
                block_align,
                riff_chunk,
                data_chunk,
                max_padded_data_len,
            },
        )
    }
}

impl Muxer for WavMuxer {
    closed spec fn muxer_inv(&self) -> bool {
        self.wf()
    }

    fn format_id(&self) -> (r: FormatId)
        ensures
            r == FormatId::Riff,
    {
        FormatId::Riff
    }

    /// Adds the single PCM track and writes the header, with both sizes zero
    /// until `finalize`.
    fn add_track(&mut self, spec: TrackSpec) -> (r: Result<TrackId, Error>)
        ensures
            old(self).is_finalized() ==> r is Err && r->Err_0 matches Error::InvalidState(_),
            !old(self).is_finalized() && old(self).has_track() ==> r is Err && r->Err_0 matches Error::Unsupported(_),
            !old(self).is_finalized() && !old(self).has_track() && wav_codec_params(spec.codec_params.codec) is None
                ==> r is Err && r->Err_0 matches Error::Unsupported(_),
            r is Ok <==> !old(self).is_finalized() && !old(self).has_track() && wav_add_ok(
                spec.codec_params,
                old(self).force_extensible(),
                old(self).start(),
            ),
            r is Ok ==> {
                let fmt = wav_fmt(spec.codec_params, old(self).force_extensible());
                let info = wav_codec_params(spec.codec_params.codec)->0;
                &&& r->Ok_0 == TrackId(0)
                &&& final(self).has_track()
                &&& !final(self).is_finalized()
                &&& final(self).fmt_payload() == fmt
                &&& final(self).written() == wav_header(fmt)
                &&& final(self).payload().len() == 0
                &&& final(self).packet_count() == 0
                &&& final(self).origin() == old(self).origin()
                &&& final(self).start() == old(self).start()
                &&& final(self).force_extensible() == old(self).force_extensible()
                &&& final(self).block_align() == popcount(spec.codec_params.channels.0) * info.2
                &&& final(self).data_limit() == u32::MAX - (old(self).start() + fmt.len() + 20)
            },
            r is Err ==> *final(self) == *old(self),
    {
        self.ensure_writable()?;
        if self.track.is_some() {
            return Err(Error::Unsupported("wav supports only one audio track"));
        }
        let state = self.write_header(&spec)?;
        let track_id = state.id;
        self.track = Some(state);
        proof {
            assert(self.written@ =~= wav_header(self.fmt@) + self.data@);
        }
        Ok(track_id)
    }

    /// Appends the payload of `packet` to the data chunk.
    open spec fn write_accepts(&self, track: TrackId, packet: EncodedPacket) -> bool {
        &&& !self.is_finalized()
        &&& self.has_track()
        &&& track == TrackId(0)
        &&& packet.data@.len() != 0 ==> {
            let n = self.payload().len() + packet.data@.len();
            &&& (packet.data@.len() as int) % self.block_align() == 0
            &&& n + n % 2 <= self.data_limit()
            &&& self.cursor().pos() + packet.data@.len() <= usize::MAX
        }
    }

    fn write_packet(&mut self, track: TrackId, packet: EncodedPacket) -> (r: Result<(), Error>)
        ensures
            old(self).is_finalized() ==> r is Err && r->Err_0 matches Error::InvalidState(_),
            !old(self).is_finalized() && !old(self).has_track() ==> r is Err && r->Err_0 matches Error::InvalidState(_),
            !old(self).is_finalized() && old(self).has_track() && track != TrackId(0) ==> r is Err
                && r->Err_0 matches Error::InvalidArgument(_),
            r is Ok && packet.data@.len() == 0 ==> *final(self) == *old(self),
            r is Ok && packet.data@.len() != 0 ==> {
                &&& final(self).payload() == old(self).payload() + packet.data@
                &&& final(self).written() == old(self).written() + packet.data@
                &&& final(self).packet_count() == old(self).packet_count() + 1
                &&& final(self).has_track()
                &&& !final(self).is_finalized()
                &&& final(self).fmt_payload() == old(self).fmt_payload()
                &&& final(self).origin() == old(self).origin()
                &&& final(self).start() == old(self).start()
                &&& final(self).block_align() == old(self).block_align()
                &&& final(self).data_limit() == old(self).data_limit()
            },
            r is Err ==> *final(self) == *old(self),
    {
        self.ensure_writable()?;
        let state = match self.track {
            Some(st) => st,
            None => {
                return Err(Error::InvalidState("cannot write packet before adding a track"));
            },
        };
        if track != state.id {
            return Err(Error::InvalidArgument("packet written to unknown wav track"));
        }
        if packet.data.len() == 0 {
            return Ok(());
        }
        if packet.data.len() % (state.block_align as usize) != 0 {
            return Err(
                Error::InvalidArgument("packet payload is not aligned to complete pcm frames"),
            );
        }
        let packet_len = packet.data.len() as u64;
        if packet_len > u64::MAX - self.data_bytes {
            return Err(Error::InvalidState("wav data size overflow"));
        }
        let next_data_bytes = self.data_bytes + packet_len;
        if next_data_bytes > u64::MAX - 1 {
            return Err(Error::InvalidState("wav padded data size overflow"));
        }
        proof {
            assert(next_data_bytes & 1 == next_data_bytes % 2) by (bit_vector);
        }
        let padded_len = next_data_bytes + (next_data_bytes & 1);
        if padded_len > state.max_padded_data_len {
            return Err(Error::Unsupported("wav file exceeds riff size limits"));
        }
        let ghost origin = self.origin@;
        let ghost s = self.start@;
        let ghost w = self.written@;
        let p = self.writer.get_ref().position();
        if p > usize::MAX as u64 || packet.data.len() > usize::MAX - p as usize {
            return Err(Error::Io("wav data exceeds addressable memory"));
        }
        self.writer.write_all(packet.data.as_slice())?;
        proof {
            lemma_placed_append(origin, s, w, packet.data@);
        }
        self.written = Ghost(w + packet.data@);
        self.data = Ghost(self.data@ + packet.data@);
        self.data_bytes = next_data_bytes;
        self.packet_count = self.packet_count + 1;
        proof {
            assert(self.written@ =~= wav_header(self.fmt@) + self.data@);
        }
        Ok(())
    }

    fn flush(&mut self) -> (r: Result<(), Error>)
        ensures
            r is Ok <==> !old(self).is_finalized(),
            r is Err ==> r->Err_0 matches Error::InvalidState(_),
            *final(self) == *old(self),
    {
        self.ensure_writable()?;
        self.writer.flush()
    }

    /// Patches the data and RIFF sizes, pads odd data, and closes the file.
    fn finalize(&mut self) -> (r: Result<FinalizeSummary, Error>)
        ensures
            old(self).is_finalized() ==> r is Err && r->Err_0 matches Error::InvalidState(_),
            !old(self).is_finalized() && !old(self).has_track() ==> r is Err && r->Err_0 matches Error::InvalidState(_),
            r is Ok <==> !old(self).is_finalized() && old(self).has_track()
                && old(self).cursor().pos() + old(self).payload().len() % 2 <= usize::MAX,
            r is Ok ==> {
                let file = wav_file(old(self).fmt_payload(), old(self).payload());
                &&& final(self).written() == file
                &&& final(self).is_finalized()
                &&& final(self).has_track()
                &&& final(self).payload() == old(self).payload()
                &&& final(self).fmt_payload() == old(self).fmt_payload()
                &&& final(self).packet_count() == old(self).packet_count()
                &&& final(self).origin() == old(self).origin()
                &&& final(self).start() == old(self).start()
                &&& r->Ok_0.bytes_written == Some((old(self).start() + file.len()) as u64)
                &&& r->Ok_0.packet_count == old(self).packet_count()
                &&& r->Ok_0.total_samples is None
            },
            r is Err ==> *final(self) == *old(self),
    {
        self.ensure_writable()?;
        let state = match self.track {
            Some(st) => st,
            None => {
                return Err(Error::InvalidState("cannot finalize wav without a track"));
            },
        };
        let p = self.writer.get_ref().position();
        let db = self.data_bytes;
        proof {
            assert(db & 1 == db % 2) by (bit_vector);
        }
        if p > usize::MAX as u64 || (db & 1 == 1 && p == usize::MAX as u64) {
            return Err(Error::Io("wav padding exceeds addressable memory"));
        }
        let ghost origin = self.origin@;
        let ghost s = self.start@;
        let ghost fmt = self.fmt@;
        let ghost d = self.data@;
        let ghost hl = fmt.len() + 28;
        let ghost w0 = self.written@;
        let data_size = self.writer.finish_chunk(state.data_chunk)?;
        let ghost w1 = splice(w0, hl - 4, le32(data_size));
        proof {
            lemma_placed_splice(origin, s, w0, hl - 4, le32(data_size));
            if d.len() % 2 == 1 {
                lemma_placed_append(origin, s, w1, riff_pad(d.len() as int));
            } else {
                assert(w1 + riff_pad(d.len() as int) =~= w1);
            }
        }
        let ghost w2 = w1 + riff_pad(d.len() as int);
        let riff_size = self.writer.finish_chunk(state.riff_chunk)?;
        let ghost w3 = splice(w2, 4, le32(riff_size));
        proof {
            lemma_placed_splice(origin, s, w2, 4, le32(riff_size));
            lemma_wav_finish(fmt, d, data_size, riff_size);
        }
        self.written = Ghost(w3);
        let bytes_written = self.writer.get_ref().position();
        self.finalized = true;
        Ok(
            FinalizeSummary {
                bytes_written: Some(bytes_written),
                packet_count: self.packet_count,
                total_samples: None,
            },
        )
    }
}

} // verus!
