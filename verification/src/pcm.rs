//! The PCM encoder: samples become little-endian bytes, optionally cut into
//! packets of a fixed number of frames.
use vstd::prelude::*;

use crate::audio::{popcount, AudioBufferRef, AudioSpec, SampleFormat};
use crate::bits::{le16, le32, le64, push_le16, push_le32, push_le64};
use crate::codecs::{base_parameters, is_float_codec, pcm_codec_width, CodecId, CodecParameters, AudioEncoder, PacketSink};
use crate::error::Error;
use crate::packet::{EncodedPacket, PacketFlags};
use crate::units::Timestamp;

verus! {

pub open spec fn bytes_i16(s: Seq<i16>) -> Seq<u8>
    decreases s.len(),
{
    if s.len() == 0 {
        Seq::empty()
    } else {
        bytes_i16(s.drop_last()) + le16(s.last() as u16)
    }
}

/// The low three bytes of each sample, little-endian.
pub open spec fn bytes_i24(s: Seq<i32>) -> Seq<u8>
    decreases s.len(),
{
    if s.len() == 0 {
        Seq::empty()
    } else {
        bytes_i24(s.drop_last()) + le32(s.last() as u32).take(3)
    }
}

pub open spec fn bytes_i32(s: Seq<i32>) -> Seq<u8>
    decreases s.len(),
{
    if s.len() == 0 {
        Seq::empty()
    } else {
        bytes_i32(s.drop_last()) + le32(s.last() as u32)
    }
}

pub open spec fn bytes_u32(s: Seq<u32>) -> Seq<u8>
    decreases s.len(),
{
    if s.len() == 0 {
        Seq::empty()
    } else {
        bytes_u32(s.drop_last()) + le32(s.last())
    }
}

pub open spec fn bytes_u64(s: Seq<u64>) -> Seq<u8>
    decreases s.len(),
{
    if s.len() == 0 {
        Seq::empty()
    } else {
        bytes_u64(s.drop_last()) + le64(s.last())
    }
}

proof fn lemma_bytes_len_i16(s: Seq<i16>)
    ensures
        bytes_i16(s).len() == 2 * s.len(),
    decreases s.len(),
{
    if s.len() > 0 {
        lemma_bytes_len_i16(s.drop_last());
    }
}

proof fn lemma_bytes_len_i24(s: Seq<i32>)
    ensures
        bytes_i24(s).len() == 3 * s.len(),
    decreases s.len(),
{
    if s.len() > 0 {
        lemma_bytes_len_i24(s.drop_last());
    }
}

proof fn lemma_bytes_len_i32(s: Seq<i32>)
    ensures
        bytes_i32(s).len() == 4 * s.len(),
    decreases s.len(),
{
    if s.len() > 0 {
        lemma_bytes_len_i32(s.drop_last());
    }
}

proof fn lemma_bytes_len_u32(s: Seq<u32>)
    ensures
        bytes_u32(s).len() == 4 * s.len(),
    decreases s.len(),
{
    if s.len() > 0 {
        lemma_bytes_len_u32(s.drop_last());
    }
}

proof fn lemma_bytes_len_u64(s: Seq<u64>)
    ensures
        bytes_u64(s).len() == 8 * s.len(),
    decreases s.len(),
{
    if s.len() > 0 {
        lemma_bytes_len_u64(s.drop_last());
    }
}

/// Every 24-bit sample lies in the signed 24-bit range.
pub open spec fn i24_in_range(s: Seq<i32>) -> bool {
    forall|i: int| 0 <= i < s.len() ==> -8_388_608 <= #[trigger] s[i] <= 8_388_607
}

/// The little-endian bytes of the samples.
pub open spec fn pcm_payload(input: AudioBufferRef) -> Seq<u8> {
    match input {
        AudioBufferRef::U8(d) => d@,
        AudioBufferRef::I16(d) => bytes_i16(d@),
        AudioBufferRef::I24(d) => bytes_i24(d@),
        AudioBufferRef::I32(d) => bytes_i32(d@),
        AudioBufferRef::F32(d) => bytes_u32(d@),
        AudioBufferRef::F64(d) => bytes_u64(d@),
    }
}

/// The input can be encoded: 24-bit samples must be in range.
pub open spec fn pcm_payload_ok(input: AudioBufferRef) -> bool {
    match input {
        AudioBufferRef::I24(d) => i24_in_range(d@),
        _ => true,
    }
}

pub open spec fn spec_bytes_per_sample(f: SampleFormat) -> nat {
    match f {
        SampleFormat::U8 => 1,
        SampleFormat::I16 => 2,
        SampleFormat::I24 => 3,
        SampleFormat::I32 => 4,
        SampleFormat::F32 => 4,
        SampleFormat::F64 => 8,
    }
}

pub open spec fn spec_codec_id_for(f: SampleFormat) -> CodecId {
    match f {
        SampleFormat::U8 => CodecId::PcmU8,
        SampleFormat::I16 => CodecId::PcmS16Le,
        SampleFormat::I24 => CodecId::PcmS24Le,
        SampleFormat::I32 => CodecId::PcmS32Le,
        SampleFormat::F32 => CodecId::PcmF32Le,
        SampleFormat::F64 => CodecId::PcmF64Le,
    }
}

/// Each sample takes its format's number of bytes.
pub proof fn lemma_pcm_payload_len(input: AudioBufferRef)
    ensures
        pcm_payload(input).len() == input.spec_len() * spec_bytes_per_sample(input.spec_sample_format()),
{
    match input {
        AudioBufferRef::U8(d) => {},
        AudioBufferRef::I16(d) => lemma_bytes_len_i16(d@),
        AudioBufferRef::I24(d) => lemma_bytes_len_i24(d@),
        AudioBufferRef::I32(d) => lemma_bytes_len_i32(d@),
        AudioBufferRef::F32(d) => lemma_bytes_len_u32(d@),
        AudioBufferRef::F64(d) => lemma_bytes_len_u64(d@),
    }
}

/// The codec chosen for a sample format describes it: its samples are as
/// wide as the format's, it is a float codec exactly for the float formats,
/// and distinct formats get distinct codecs.
pub proof fn lemma_codec_describes_format(f: SampleFormat, g: SampleFormat)
    ensures
        pcm_codec_width(spec_codec_id_for(f)) == Some(spec_bytes_per_sample(f)),
        is_float_codec(spec_codec_id_for(f)) <==> (f == SampleFormat::F32 || f == SampleFormat::F64),
        spec_codec_id_for(f) == spec_codec_id_for(g) ==> f == g,
{
}

/// The bytes the encoder emits for a buffer are as many as its codec's sample
/// width says.
pub proof fn lemma_payload_matches_codec(input: AudioBufferRef)
    ensures
        pcm_codec_width(spec_codec_id_for(input.spec_sample_format())) is Some,
        pcm_payload(input).len() == input.spec_len() * pcm_codec_width(
            spec_codec_id_for(input.spec_sample_format()),
        )->0,
{
    lemma_pcm_payload_len(input);
}

/// The PCM codec of a sample format.
pub fn codec_id_for(sample_format: SampleFormat) -> (r: CodecId)
    ensures
        r == spec_codec_id_for(sample_format),
{
    match sample_format {
        SampleFormat::U8 => CodecId::PcmU8,
        SampleFormat::I16 => CodecId::PcmS16Le,
        SampleFormat::I24 => CodecId::PcmS24Le,
        SampleFormat::I32 => CodecId::PcmS32Le,
        SampleFormat::F32 => CodecId::PcmF32Le,
        SampleFormat::F64 => CodecId::PcmF64Le,
    }
}

/// The encoded size of one sample.
pub fn bytes_per_sample(sample_format: SampleFormat) -> (r: usize)
    ensures
        r == spec_bytes_per_sample(sample_format),
{
    match sample_format {
        SampleFormat::U8 => 1,
        SampleFormat::I16 => 2,
        SampleFormat::I24 => 3,
        SampleFormat::I32 => 4,
        SampleFormat::F32 => 4,
        SampleFormat::F64 => 8,
    }
}

/// The number of whole frames of `sample_count` interleaved samples, or
/// `InvalidArgument` when the samples do not fill whole frames.
pub fn frame_count(sample_count: usize, channels: usize) -> (r: Result<u64, Error>)
    requires
        channels > 0,
    ensures
        r is Ok <==> sample_count % channels == 0,
        r is Ok ==> r->Ok_0 == sample_count / channels,
        r is Err ==> r->Err_0 matches Error::InvalidArgument(_),
{
    if sample_count % channels != 0 {
        return Err(Error::InvalidArgument("input buffer sample count is not divisible by channel count"));
    }
    Ok((sample_count / channels) as u64)
}

/// The little-endian bytes of the samples, or `InvalidArgument` for a 24-bit
/// sample out of range.
pub fn encode_payload(input: AudioBufferRef<'_>) -> (r: Result<Vec<u8>, Error>)
    ensures
        r is Ok <==> pcm_payload_ok(input),
        r is Ok ==> r->Ok_0@ == pcm_payload(input),
        r is Err ==> r->Err_0 matches Error::InvalidArgument(_),
{
    let mut out: Vec<u8> = Vec::new();
    match input {
        AudioBufferRef::U8(data) => {
            let mut i: usize = 0;
            while i < data.len()
                invariant
                    i <= data@.len(),
                    out@ == data@.take(i as int),
                decreases data@.len() - i,
            {
                out.push(data[i]);
                i = i + 1;
                proof {
                    assert(out@ =~= data@.take(i as int));
                }
            }
            proof {
                assert(data@.take(i as int) =~= data@);
            }
        },
        AudioBufferRef::I16(data) => {
            let mut i: usize = 0;
            while i < data.len()
                invariant
                    i <= data@.len(),
                    out@ == bytes_i16(data@.take(i as int)),
                decreases data@.len() - i,
            {
                push_le16(&mut out, data[i] as u16);
                proof {
                    assert(data@.take(i + 1).drop_last() =~= data@.take(i as int));
                }
                i = i + 1;
            }
            proof {
                assert(data@.take(i as int) =~= data@);
            }
        },
        AudioBufferRef::I24(data) => {
            let mut i: usize = 0;
            while i < data.len()
                invariant
                    i <= data@.len(),
                    input == AudioBufferRef::I24(data),
                    i24_in_range(data@.take(i as int)),
                    out@ == bytes_i24(data@.take(i as int)),
                decreases data@.len() - i,
            {
                let sample = data[i];
                if sample < -8_388_608 || sample > 8_388_607 {
                    proof {
                        assert(data@[i as int] == sample);
                        assert(!i24_in_range(data@));
                        assert(!pcm_payload_ok(input));
                    }
                    return Err(Error::InvalidArgument("i24 sample out of range"));
                }
                let v = sample as u32;
                let ghost before = out@;
                out.push(v as u8);
                out.push((v >> 8) as u8);
                out.push((v >> 16) as u8);
                proof {
                    assert(out@ =~= before + le32(v).take(3));
                    assert(data@.take(i + 1).drop_last() =~= data@.take(i as int));
                    assert forall|k: int| 0 <= k < i + 1 implies -8_388_608 <= #[trigger] data@.take(
                        i + 1,
                    )[k] <= 8_388_607 by {
                        if k < i {
                            assert(data@.take(i + 1)[k] == data@.take(i as int)[k]);
                        }
                    }
                }
                i = i + 1;
            }
            proof {
                assert(data@.take(i as int) =~= data@);
            }
        },
        AudioBufferRef::I32(data) => {
            let mut i: usize = 0;
            while i < data.len()
                invariant
                    i <= data@.len(),
                    out@ == bytes_i32(data@.take(i as int)),
                decreases data@.len() - i,
            {
                push_le32(&mut out, data[i] as u32);
                proof {
                    assert(data@.take(i + 1).drop_last() =~= data@.take(i as int));
                }
                i = i + 1;
            }
            proof {
                assert(data@.take(i as int) =~= data@);
            }
        },
        AudioBufferRef::F32(data) => {
            let mut i: usize = 0;
            while i < data.len()
                invariant
                    i <= data@.len(),
                    out@ == bytes_u32(data@.take(i as int)),
                decreases data@.len() - i,
            {
                push_le32(&mut out, data[i]);
                proof {
                    assert(data@.take(i + 1).drop_last() =~= data@.take(i as int));
                }
                i = i + 1;
            }
            proof {
                assert(data@.take(i as int) =~= data@);
            }
        },
        AudioBufferRef::F64(data) => {
            let mut i: usize = 0;
            while i < data.len()
                invariant
                    i <= data@.len(),
                    out@ == bytes_u64(data@.take(i as int)),
                decreases data@.len() - i,
            {
                push_le64(&mut out, data[i]);
                proof {
                    assert(data@.take(i + 1).drop_last() =~= data@.take(i as int));
                }
                i = i + 1;
            }
            proof {
                assert(data@.take(i as int) =~= data@);
            }
        },
    }
    Ok(out)
}

/// Options of the PCM encoder.
#[derive(Clone, Copy, Debug, PartialEq, Eq)]
pub struct PcmEncoderOptions {
    /// Frames per packet; one packet per input buffer when `None`.
    pub frames_per_packet: Option<u32>,
}

impl Default for PcmEncoderOptions {
    fn default() -> (r: Self)
        ensures
            r.frames_per_packet is None,
    {
        PcmEncoderOptions { frames_per_packet: None }
    }
}

/// Builds a `PcmEncoder`.
#[derive(Debug)]
pub struct PcmEncoderBuilder {
    spec: AudioSpec,
    options: PcmEncoderOptions,
}

impl PcmEncoderBuilder {
    pub closed spec fn spec_spec(&self) -> AudioSpec {
        self.spec
    }

    pub closed spec fn spec_options(&self) -> PcmEncoderOptions {
        self.options
    }

    pub fn new(spec: AudioSpec) -> (r: Self)
        ensures
            r.spec_spec() == spec,
            r.spec_options().frames_per_packet is None,
    {
        PcmEncoderBuilder { spec, options: PcmEncoderOptions::default() }
    }

    pub fn options(self, options: PcmEncoderOptions) -> (r: Self)
        ensures
            r.spec_spec() == self.spec_spec(),
            r.spec_options() == options,
    {
        PcmEncoderBuilder { spec: self.spec, options }
    }

    pub fn frames_per_packet(self, frames: u32) -> (r: Self)
        ensures
            r.spec_spec() == self.spec_spec(),
            r.spec_options().frames_per_packet == Some(frames),
    {
        PcmEncoderBuilder { spec: self.spec, options: PcmEncoderOptions { frames_per_packet: Some(frames) } }
    }

    pub fn build(self) -> (r: Result<PcmEncoder, Error>)
        ensures
            r is Ok <==> pcm_options_ok(self.spec_spec(), self.spec_options()),
            r is Ok ==> pcm_fresh(r->Ok_0, self.spec_spec(), self.spec_options()),
            r is Err ==> r->Err_0 matches Error::InvalidArgument(_) || r->Err_0 matches Error::Unsupported(_),
            r is Err && self.spec_options().frames_per_packet is None ==> r->Err_0 matches Error::InvalidArgument(_),
    {
        PcmEncoder::with_options(self.spec, self.options)
    }
}

/// The bytes of one frame of `spec`.
pub open spec fn pcm_frame_bytes(spec: AudioSpec) -> nat {
    popcount(spec.channels.0) * spec_bytes_per_sample(spec.sample_format)
}

/// The encoder can be built: at least one channel, and a nonzero packet size.
pub open spec fn pcm_options_ok(spec: AudioSpec, options: PcmEncoderOptions) -> bool {
    &&& popcount(spec.channels.0) != 0
    &&& options.frames_per_packet != Some(0u32)
    &&& options.frames_per_packet is Some ==> options.frames_per_packet->0 * pcm_frame_bytes(spec)
        <= usize::MAX
}

/// `e` is a freshly built encoder for `spec` and `options`.
pub open spec fn pcm_fresh(e: PcmEncoder, spec: AudioSpec, options: PcmEncoderOptions) -> bool {
    &&& e.enc_inv()
    &&& e.spec_input() == spec
    &&& e.spec_options() == options
    &&& base_parameters(spec_codec_id_for(spec.sample_format), spec, e.spec_params())
    &&& e.spec_next_pts() == 0
    &&& e.spec_pending().len() == 0
}

/// `p` is a PCM packet with payload `data` starting at frame `pts` and
/// lasting `frames` frames.
pub open spec fn pcm_packet(p: EncodedPacket, data: Seq<u8>, pts: u64, frames: u64) -> bool {
    &&& p.data@ == data
    &&& p.pts == Some(Timestamp(pts))
    &&& p.dts == Some(Timestamp(pts))
    &&& p.duration == Some(frames)
    &&& p.trim_start == 0
    &&& p.trim_end == 0
    &&& p.flags.0 == 0
}

/// The PCM encoder.
#[derive(Debug)]
pub struct PcmEncoder {
    spec: AudioSpec,
    params: CodecParameters,
    options: PcmEncoderOptions,
    frame_bytes: usize,
    packet_bytes: Option<usize>,
    next_pts: u64,
    pending: Vec<u8>,
    pending_frames: u64,
}

impl PcmEncoder {
    pub closed spec fn spec_input(&self) -> AudioSpec {
        self.spec
    }

    pub closed spec fn spec_options(&self) -> PcmEncoderOptions {
        self.options
    }

    pub closed spec fn spec_params(&self) -> CodecParameters {
        self.params
    }

    /// The timestamp of the next packet, in frames.
    pub closed spec fn spec_next_pts(&self) -> u64 {
        self.next_pts
    }

    /// Encoded bytes waiting for a full packet.
    pub closed spec fn spec_pending(&self) -> Seq<u8> {
        self.pending@
    }

    /// Bytes per frame.
    pub closed spec fn spec_frame_bytes(&self) -> nat {
        self.frame_bytes as nat
    }

    /// Bytes per packet when packets have a fixed size.
    pub closed spec fn spec_packet_bytes(&self) -> Option<nat> {
        match self.packet_bytes {
            Some(b) => Some(b as nat),
            None => None,
        }
    }

    pub closed spec fn wf(&self) -> bool {
        &&& self.frame_bytes == pcm_frame_bytes(self.spec)
        &&& self.frame_bytes > 0
        &&& popcount(self.spec.channels.0) != 0
        &&& base_parameters(spec_codec_id_for(self.spec.sample_format), self.spec, self.params)
        &&& match self.options.frames_per_packet {
            None => self.packet_bytes is None && self.pending@.len() == 0,
            Some(f) => {
                &&& f != 0
                &&& f * self.frame_bytes <= usize::MAX
                &&& self.packet_bytes == Some((f * self.frame_bytes) as usize)
                &&& self.pending@.len() < f * self.frame_bytes
            },
        }
        &&& self.pending@.len() == self.pending_frames * self.frame_bytes
    }

    pub fn new(spec: AudioSpec) -> (r: Result<Self, Error>)
        ensures
            r is Ok <==> popcount(spec.channels.0) != 0,
            r is Ok ==> pcm_fresh(r->Ok_0, spec, PcmEncoderOptions { frames_per_packet: None }),
            r is Err ==> r->Err_0 matches Error::InvalidArgument(_),
    {
        Self::builder(spec).build()
    }

    pub fn builder(spec: AudioSpec) -> (r: PcmEncoderBuilder)
        ensures
            r.spec_spec() == spec,
            r.spec_options().frames_per_packet is None,
    {
        PcmEncoderBuilder::new(spec)
    }

    /// Builds the encoder: `InvalidArgument` without channels or with a zero
    /// packet size.
    pub fn with_options(spec: AudioSpec, options: PcmEncoderOptions) -> (r: Result<Self, Error>)
        ensures
            r is Ok <==> pcm_options_ok(spec, options),
            r is Ok ==> pcm_fresh(r->Ok_0, spec, options),
            popcount(spec.channels.0) == 0 || options.frames_per_packet == Some(0u32) ==> r is Err
                && r->Err_0 matches Error::InvalidArgument(_),
            r is Err ==> r->Err_0 matches Error::InvalidArgument(_) || r->Err_0 matches Error::Unsupported(_),
            r is Err && options.frames_per_packet is None ==> r->Err_0 matches Error::InvalidArgument(_),
    {
        let channel_count = spec.channel_count();
        if channel_count == 0 {
            return Err(Error::InvalidArgument("audio spec must contain at least one channel"));
        }
        let sample_bytes = bytes_per_sample(spec.sample_format);
        proof {
            assert(channel_count * sample_bytes <= 256) by (nonlinear_arith)
                requires
                    channel_count <= 32,
                    sample_bytes <= 8,
            ;
            assert(channel_count * sample_bytes > 0) by (nonlinear_arith)
                requires
                    channel_count >= 1,
                    sample_bytes >= 1,
            ;
        }
        let frame_bytes = channel_count as usize * sample_bytes;
        let packet_bytes = match options.frames_per_packet {
            Some(frames) => {
                if frames == 0 {
                    return Err(Error::InvalidArgument("frames_per_packet must be greater than zero"));
                }
                if frames as usize > usize::MAX / frame_bytes {
                    proof {
                        assert(frames * frame_bytes > usize::MAX) by (nonlinear_arith)
                            requires
                                frames > usize::MAX / frame_bytes,
                                frame_bytes > 0,
                        ;
                    }
                    return Err(Error::Unsupported("packet size exceeds platform limits"));
                }
                proof {
                    assert(frames * frame_bytes <= usize::MAX) by (nonlinear_arith)
                        requires
                            frames <= usize::MAX / frame_bytes,
                            frame_bytes > 0,
                    ;
                }
                Some(frames as usize * frame_bytes)
            },
            None => None,
        };
        let codec = codec_id_for(spec.sample_format);
        let params = CodecParameters::new(codec, spec);
        let e = PcmEncoder {
            spec,
            params,
            options,
            frame_bytes,
            packet_bytes,
            next_pts: 0,
            pending: Vec::new(),
            pending_frames: 0,
        };
        assert(e.frame_bytes == pcm_frame_bytes(e.spec));
        assert(e.pending@.len() == e.pending_frames * e.frame_bytes);
        assert(base_parameters(spec_codec_id_for(e.spec.sample_format), e.spec, e.params));
        match options.frames_per_packet {
            Some(f) => {
                assert(f * frame_bytes >= 1) by (nonlinear_arith)
                    requires
                        f >= 1,
                        frame_bytes >= 1,
                ;
            },
            None => {},
        }
        assert(e.wf());
        Ok(e)
    }

    pub fn options(&self) -> (r: PcmEncoderOptions)
        ensures
            r == self.spec_options(),
    {
        self.options
    }

    /// Hands one packet to the sink and advances the timestamp.
    fn emit_packet<S: PacketSink>(&mut self, payload: Vec<u8>, frame_count: u64, sink: &mut S) -> (r:
        Result<(), Error>)
        requires
            old(sink).sink_inv(),
            old(self).next_pts + frame_count <= u64::MAX,
        ensures
            final(sink).sink_inv(),
            final(sink).infallible() == old(sink).infallible(),
            old(sink).infallible() ==> r is Ok,
            final(self).next_pts == old(self).next_pts + frame_count,
            final(self).spec == old(self).spec,
            final(self).params == old(self).params,
            final(self).options == old(self).options,
            final(self).frame_bytes == old(self).frame_bytes,
            final(self).packet_bytes == old(self).packet_bytes,
            final(self).pending == old(self).pending,
            final(self).pending_frames == old(self).pending_frames,
            r is Ok ==> final(sink).accepted().len() == old(sink).accepted().len() + 1
                && final(sink).accepted().take(old(sink).accepted().len() as int) == old(sink).accepted()
                && pcm_packet(final(sink).accepted().last(), payload@, old(self).next_pts, frame_count),
            r is Err ==> final(sink).accepted() == old(sink).accepted(),
    {
        let pts = Timestamp::new(self.next_pts);
        self.next_pts = self.next_pts + frame_count;
        let mut packet = EncodedPacket::new(payload);
        packet.pts = Some(pts);
        packet.dts = Some(pts);
        packet.duration = Some(frame_count);
        packet.flags = PacketFlags::none();
        let ghost p = packet;
        let r = sink.write_packet(packet);
        proof {
            if r is Ok {
                assert(final(sink).accepted().take(old(sink).accepted().len() as int) =~= old(sink).accepted());
            }
        }
        r
    }
}

/// What encoding `input` hands to the sink and keeps: the packets are cut
/// from the pending bytes followed by the new payload.
pub open spec fn pcm_chunks_emitted(
    accepted_before: Seq<EncodedPacket>,
    accepted_after: Seq<EncodedPacket>,
    data: Seq<u8>,
    packet_bytes: nat,
    frames_per_packet: u64,
    pts: u64,
) -> bool {
    let k = data.len() / packet_bytes;
    &&& accepted_after.len() == accepted_before.len() + k
    &&& accepted_after.take(accepted_before.len() as int) == accepted_before
    &&& forall|i: int|
        0 <= i < k ==> pcm_packet(
            #[trigger] accepted_after[accepted_before.len() + i],
            data.subrange(i * packet_bytes, (i + 1) * packet_bytes),
            (pts + i * frames_per_packet) as u64,
            frames_per_packet,
        )
}

/// The bytes of a run of packets, one after another.
pub open spec fn packets_bytes(ps: Seq<EncodedPacket>) -> Seq<u8>
    decreases ps.len(),
{
    if ps.len() == 0 {
        Seq::empty()
    } else {
        packets_bytes(ps.drop_last()) + ps.last().data@
    }
}

proof fn lemma_chunks_prefix(
    before: Seq<EncodedPacket>,
    after: Seq<EncodedPacket>,
    data: Seq<u8>,
    pb: nat,
    fpp: u64,
    pts: u64,
    j: int,
)
    requires
        pb > 0,
        pcm_chunks_emitted(before, after, data, pb, fpp, pts),
        0 <= j <= data.len() / pb,
    ensures
        packets_bytes(after.take(before.len() + j)) == packets_bytes(before) + data.take(j * pb),
    decreases j,
{
    let k = data.len() / pb;
    let n = before.len() as int;
    let q = pb as int;
    assert(k * q <= data.len()) by (nonlinear_arith)
        requires
            k == data.len() / pb,
            q == pb,
            pb > 0,
    ;
    if j == 0 {
        assert(j * pb == 0) by (nonlinear_arith)
            requires
                j == 0,
        ;
        assert(after.take(n) == before);
        assert(data.take(0) =~= Seq::<u8>::empty());
        assert(packets_bytes(before) + data.take(0) =~= packets_bytes(before));
        assert(packets_bytes(after.take(before.len() + j)) == packets_bytes(before) + data.take(j * pb));
    } else {
        let jm = j - 1;
        lemma_chunks_prefix(before, after, data, pb, fpp, pts, jm);
        assert(jm * q + q == j * q && (jm + 1) * q == j * q) by (nonlinear_arith)
            requires
                jm + 1 == j,
        ;
        assert(j * q <= k * q) by (nonlinear_arith)
            requires
                j <= k,
                q > 0,
        ;
        let p = after[n + jm];
        assert(pcm_packet(p, data.subrange(jm * q, (jm + 1) * q), (pts + jm * fpp) as u64, fpp));
        assert(after.take(n + j).drop_last() =~= after.take(n + jm));
        assert(after.take(n + j).last() == p);
        assert(data.take(jm * q) + data.subrange(jm * q, j * q) =~= data.take(j * q));
        assert(packets_bytes(after.take(n + j)) == packets_bytes(after.take(n + jm)) + p.data@);
        assert(packets_bytes(before) + data.take(jm * q) + data.subrange(jm * q, j * q) =~= packets_bytes(
            before,
        ) + data.take(j * q));
    }
}

/// Cutting data into packets loses and reorders nothing: the packets cut,
/// followed by the bytes kept back, give back what was there before and the
/// data.
pub proof fn lemma_chunks_conserve_bytes(
    before: Seq<EncodedPacket>,
    after: Seq<EncodedPacket>,
    data: Seq<u8>,
    pb: nat,
    fpp: u64,
    pts: u64,
)
    requires
        pb > 0,
        pcm_chunks_emitted(before, after, data, pb, fpp, pts),
    ensures
        packets_bytes(after) + data.skip(((data.len() / pb) * pb) as int) == packets_bytes(before) + data,
{
    let k = (data.len() / pb) as int;
    let q = pb as int;
    lemma_chunks_prefix(before, after, data, pb, fpp, pts, k);
    assert(after.take(before.len() + k) =~= after);
    assert(k * q <= data.len()) by (nonlinear_arith)
        requires
            k == data.len() / pb,
            q == pb,
            pb > 0,
    ;
    assert(data.take(k * q) + data.skip(k * q) =~= data);
    assert(packets_bytes(before) + data.take(k * q) + data.skip(k * q) =~= packets_bytes(before) + data);
}

impl AudioEncoder for PcmEncoder {
    closed spec fn enc_inv(&self) -> bool {
        self.wf()
    }

    fn codec_id(&self) -> (r: CodecId)
        ensures
            r == self.spec_params().codec,
    {
        self.params.codec
    }

    fn input_spec(&self) -> (r: AudioSpec)
        ensures
            r == self.spec_input(),
    {
        self.spec
    }

    fn codec_parameters(&self) -> (r: &CodecParameters)
        ensures
            *r == self.spec_params(),
    {
        &self.params
    }

    /// Encodes interleaved samples: one packet per buffer, or packets of the
    /// configured size with the remainder kept for later.
    #[verifier::rlimit(60)]
    fn encode<S: PacketSink>(&mut self, input: AudioBufferRef<'_>, sink: &mut S) -> (r: Result<(), Error>)
        ensures
            input.spec_sample_format() != old(self).spec_input().sample_format ==> r is Err
                && r->Err_0 matches Error::InvalidArgument(_),
            input.spec_sample_format() == old(self).spec_input().sample_format && input.spec_len()
                % popcount(old(self).spec_input().channels.0) != 0 ==> r is Err
                && r->Err_0 matches Error::InvalidArgument(_),
            input.spec_sample_format() == old(self).spec_input().sample_format && input.spec_len()
                % popcount(old(self).spec_input().channels.0) == 0 && input.spec_len() != 0
                && !pcm_payload_ok(input) ==> r is Err && r->Err_0 matches Error::InvalidArgument(_),
            input.spec_sample_format() == old(self).spec_input().sample_format && input.spec_len()
                == 0 ==> r is Ok && *final(self) == *old(self) && final(sink).accepted() == old(
                sink,
            ).accepted(),
            ({
                let frames = input.spec_len() / popcount(old(self).spec_input().channels.0);
                let data = old(self).spec_pending() + pcm_payload(input);
                let emitted_frames: int = match old(self).spec_packet_bytes() {
                    None => frames as int,
                    Some(pb) => (data.len() / pb) * (old(self).spec_options().frames_per_packet->0 as int),
                };
                input.spec_sample_format() == old(self).spec_input().sample_format && input.spec_len()
                    % popcount(old(self).spec_input().channels.0) == 0 && input.spec_len() != 0
                    && pcm_payload_ok(input) && old(self).spec_next_pts() + emitted_frames <= u64::MAX
                    && old(self).spec_pending().len() / old(self).spec_frame_bytes() + frames <= u64::MAX
                    && old(sink).infallible() ==> r is Ok
            }),
            r is Ok && input.spec_len() != 0 ==> {
                let frames = input.spec_len() / popcount(old(self).spec_input().channels.0);
                let data = old(self).spec_pending() + pcm_payload(input);
                &&& final(self).spec_input() == old(self).spec_input()
                &&& final(self).spec_options() == old(self).spec_options()
                &&& final(self).spec_params() == old(self).spec_params()
                &&& match old(self).spec_packet_bytes() {
                    None => {
                        &&& final(sink).accepted().len() == old(sink).accepted().len() + 1
                        &&& final(sink).accepted().take(old(sink).accepted().len() as int) == old(
                            sink,
                        ).accepted()
                        &&& pcm_packet(
                            final(sink).accepted().last(),
                            pcm_payload(input),
                            old(self).spec_next_pts(),
                            frames as u64,
                        )
                        &&& final(self).spec_next_pts() == old(self).spec_next_pts() + frames
                        &&& final(self).spec_pending().len() == 0
                    },
                    Some(pb) => {
                        let fpp = old(self).spec_options().frames_per_packet->0 as u64;
                        let k = data.len() / pb;
                        &&& pcm_chunks_emitted(
                            old(sink).accepted(),
                            final(sink).accepted(),
                            data,
                            pb,
                            fpp,
                            old(self).spec_next_pts(),
                        )
                        &&& final(self).spec_pending() == data.skip((k * pb) as int)
                        &&& final(self).spec_next_pts() == old(self).spec_next_pts() + k * fpp
                    },
                }
            },
    {
        if !input.sample_format().same_as(self.spec.sample_format) {
            return Err(Error::InvalidArgument("buffer sample format does not match encoder input spec"));
        }
        let channels = self.spec.channel_count() as usize;
        proof {
            assert(channels == popcount(self.spec.channels.0));
            assert(0nat % (channels as nat) == 0);
        }
        let frame_count = frame_count(input.len(), channels)?;
        proof {
            assert(input.spec_len() == frame_count * popcount(self.spec.channels.0)) by (nonlinear_arith)
                requires
                    frame_count == input.spec_len() / (channels as nat),
                    input.spec_len() % (channels as nat) == 0,
                    channels == popcount(self.spec.channels.0),
                    channels > 0,
            ;
        }
        if frame_count == 0 {
            proof {
                assert(input.spec_len() == 0) by (nonlinear_arith)
                    requires
                        input.spec_len() == frame_count * popcount(self.spec.channels.0),
                        frame_count == 0,
                ;
            }
            return Ok(());
        }
        let payload = encode_payload(input)?;
        proof {
            lemma_pcm_payload_len(input);
            assert(payload@.len() == frame_count * self.frame_bytes) by (nonlinear_arith)
                requires
                    payload@.len() == input.spec_len() * spec_bytes_per_sample(self.spec.sample_format),
                    input.spec_len() == frame_count * popcount(self.spec.channels.0),
                    self.frame_bytes == popcount(self.spec.channels.0) * spec_bytes_per_sample(self.spec.sample_format),
            ;
        }
        match self.packet_bytes {
            None => {
                if frame_count > u64::MAX - self.next_pts {
                    return Err(Error::InvalidState("timestamp overflow"));
                }
                self.emit_packet(payload, frame_count, sink)
            },
            Some(packet_bytes) => {
                let fpp: u64 = match self.options.frames_per_packet {
                    Some(f) => f as u64,
                    None => 0,
                };
                let ghost data = self.pending@ + payload@;
                let mut buf: Vec<u8> = Vec::new();
                crate::bits::push_all(&mut buf, self.pending.as_slice());
                crate::bits::push_all(&mut buf, payload.as_slice());
                proof {
                    assert(packet_bytes > 0) by (nonlinear_arith)
                        requires
                            packet_bytes == fpp * self.frame_bytes,
                            self.frame_bytes > 0,
                            fpp > 0,
                    ;
                }
                let k = buf.len() / packet_bytes;
                proof {
                    assert(buf@ == data);
                    assert(k * fpp <= buf@.len()) by (nonlinear_arith)
                        requires
                            k == buf@.len() / (packet_bytes as nat),
                            packet_bytes == fpp * self.frame_bytes,
                            self.frame_bytes >= 1,
                            fpp >= 1,
                    ;
                }
                if (k as u64) > 0 && fpp > (u64::MAX - self.next_pts) / (k as u64) {
                    proof {
                        assert(k * fpp > u64::MAX - self.next_pts) by (nonlinear_arith)
                            requires
                                k > 0,
                                fpp > (u64::MAX - self.next_pts) / (k as int),
                        ;
                    }
                    return Err(Error::InvalidState("timestamp overflow"));
                }
                proof {
                    if k > 0 {
                        assert(k * fpp <= u64::MAX - self.next_pts) by (nonlinear_arith)
                            requires
                                k > 0,
                                fpp <= (u64::MAX - self.next_pts) / (k as int),
                        ;
                    }
                }
                proof {
                    vstd::arithmetic::div_mod::lemma_div_multiples_vanish(
                        self.pending_frames as int,
                        self.frame_bytes as int,
                    );
                    assert(self.pending_frames * self.frame_bytes == self.frame_bytes * self.pending_frames)
                        by (nonlinear_arith);
                }
                if frame_count > u64::MAX - self.pending_frames {
                    return Err(Error::InvalidState("pending frame count overflow"));
                }
                let total_frames = self.pending_frames + frame_count;
                proof {
                    assert(data.len() == total_frames * self.frame_bytes) by (nonlinear_arith)
                        requires
                            data.len() == self.pending@.len() + payload@.len(),
                            self.pending@.len() == self.pending_frames * self.frame_bytes,
                            payload@.len() == frame_count * self.frame_bytes,
                            total_frames == self.pending_frames + frame_count,
                    ;
                }
                let blen = buf.len();
                let mut off: usize = 0;
                let mut i: usize = 0;
                let ghost acc0 = sink.accepted();
                let ghost pts0 = self.next_pts;
                while i < k
                    invariant
                        self.wf(),
                        pcm_payload_ok(input),
                        blen == buf@.len(),
                        input.spec_sample_format() == old(self).spec_input().sample_format,
                        input.spec_len() % popcount(old(self).spec_input().channels.0) == 0,
                        input.spec_len() != 0,
                        i <= k,
                        k == data.len() / (packet_bytes as nat),
                        off == i * packet_bytes,
                        buf@ == data,
                        packet_bytes > 0,
                        packet_bytes == fpp * self.frame_bytes,
                        sink.sink_inv(),
                        sink.infallible() == old(sink).infallible(),
                        self.next_pts == pts0 + i * fpp,
                        pts0 + k * fpp <= u64::MAX,
                        self.spec == old(self).spec,
                        self.params == old(self).params,
                        self.options == old(self).options,
                        self.frame_bytes == old(self).frame_bytes,
                        self.packet_bytes == old(self).packet_bytes,
                        self.pending == old(self).pending,
                        self.pending_frames == old(self).pending_frames,
                        sink.accepted().len() == acc0.len() + i,
                        sink.accepted().take(acc0.len() as int) == acc0,
                        forall|j: int|
                            0 <= j < i ==> pcm_packet(
                                #[trigger] sink.accepted()[acc0.len() + j],
                                data.subrange(j * packet_bytes, (j + 1) * packet_bytes),
                                (pts0 + j * fpp) as u64,
                                fpp,
                            ),
                    decreases k - i,
                {
                    proof {
                        assert((i + 1) * packet_bytes <= k * packet_bytes) by (nonlinear_arith)
                            requires
                                i < k,
                                packet_bytes > 0,
                        ;
                        assert(k * packet_bytes <= data.len()) by (nonlinear_arith)
                            requires
                                k == data.len() / (packet_bytes as nat),
                                packet_bytes > 0,
                        ;
                        assert((i + 1) * fpp <= k * fpp) by (nonlinear_arith)
                            requires
                                i < k,
                        ;
                        assert(i * fpp + fpp == (i + 1) * fpp) by (nonlinear_arith);
                    }
                    let mut chunk: Vec<u8> = Vec::new();
                    let mut j: usize = 0;
                    proof {
                        assert(off + packet_bytes == (i + 1) * packet_bytes) by (nonlinear_arith)
                            requires
                                off == i * packet_bytes,
                        ;
                        assert(chunk@ =~= buf@.subrange(off as int, off as int));
                    }
                    while j < packet_bytes
                        invariant
                            j <= packet_bytes,
                            off + packet_bytes <= blen,
                            blen == buf@.len(),
                            chunk@ == buf@.subrange(off as int, (off + j) as int),
                        decreases packet_bytes - j,
                    {
                        chunk.push(buf[off + j]);
                        j = j + 1;
                        proof {
                            assert(chunk@ =~= buf@.subrange(off as int, (off + j) as int));
                        }
                    }
                    let ghost before = sink.accepted();
                    let r = self.emit_packet(chunk, fpp, sink);
                    match r {
                        Ok(()) => {},
                        Err(e) => {
                            self.pending = Vec::new();
                            self.pending_frames = 0;
                            return Err(e);
                        },
                    }
                    proof {
                        assert forall|jj: int| 0 <= jj < i + 1 implies pcm_packet(
                            #[trigger] sink.accepted()[acc0.len() + jj],
                            data.subrange(jj * packet_bytes, (jj + 1) * packet_bytes),
                            (pts0 + jj * fpp) as u64,
                            fpp,
                        ) by {
                            if jj < i {
                                assert(sink.accepted()[acc0.len() + jj] == before[acc0.len() + jj]);
                            }
                        }
                        assert(sink.accepted().take(acc0.len() as int) =~= acc0);
                    }
                    off = off + packet_bytes;
                    i = i + 1;
                }
                let mut rest: Vec<u8> = Vec::new();
                let mut j: usize = off;
                proof {
                    assert(k * packet_bytes <= data.len()) by (nonlinear_arith)
                        requires
                            k == data.len() / (packet_bytes as nat),
                            packet_bytes > 0,
                    ;
                    assert(rest@ =~= buf@.subrange(off as int, off as int));
                }
                while j < buf.len()
                    invariant
                        off <= j <= buf@.len(),
                        rest@ == buf@.subrange(off as int, j as int),
                    decreases buf@.len() - j,
                {
                    rest.push(buf[j]);
                    j = j + 1;
                    proof {
                        assert(rest@ =~= buf@.subrange(off as int, j as int));
                    }
                }
                proof {
                    assert(rest@ =~= data.skip((k * packet_bytes) as int));
                    assert(k * packet_bytes <= data.len() < (k + 1) * packet_bytes) by (nonlinear_arith)
                        requires
                            k == data.len() / (packet_bytes as nat),
                            packet_bytes > 0,
                    ;
                }
                proof {
                    assert(k * fpp <= total_frames) by (nonlinear_arith)
                        requires
                            k * packet_bytes <= data.len(),
                            data.len() == total_frames * self.frame_bytes,
                            packet_bytes == fpp * self.frame_bytes,
                            self.frame_bytes > 0,
                    ;
                }
                self.pending = rest;
                self.pending_frames = total_frames - (k as u64) * fpp;
                proof {
                    assert(self.pending@.len() == self.pending_frames * self.frame_bytes) by (nonlinear_arith)
                        requires
                            self.pending@.len() == data.len() - k * packet_bytes,
                            data.len() == total_frames * self.frame_bytes,
                            packet_bytes == fpp * self.frame_bytes,
                            self.pending_frames == total_frames - k * fpp,
                    ;
                    assert(self.pending@.len() < packet_bytes) by (nonlinear_arith)
                        requires
                            self.pending@.len() == data.len() - k * packet_bytes,
                            data.len() < (k + 1) * packet_bytes,
                    ;
                    assert(self.wf());
                }
                Ok(())
            },
        }
    }

    /// Emits what is pending as one last, shorter packet.
    fn flush<S: PacketSink>(&mut self, sink: &mut S) -> (r: Result<(), Error>)
        ensures
            old(self).spec_pending().len() == 0 ==> r is Ok && *final(self) == *old(self)
                && final(sink).accepted() == old(sink).accepted(),
            old(self).spec_pending().len() != 0 && old(self).spec_next_pts() + old(self).spec_pending().len()
                / old(self).spec_frame_bytes() <= u64::MAX && old(sink).infallible() ==> r is Ok,
            r is Ok && old(self).spec_pending().len() != 0 ==> {
                &&& final(sink).accepted().len() == old(sink).accepted().len() + 1
                &&& final(sink).accepted().take(old(sink).accepted().len() as int) == old(sink).accepted()
                &&& pcm_packet(
                    final(sink).accepted().last(),
                    old(self).spec_pending(),
                    old(self).spec_next_pts(),
                    (old(self).spec_pending().len() / old(self).spec_frame_bytes()) as u64,
                )
                &&& final(self).spec_pending().len() == 0
                &&& final(self).spec_next_pts() == old(self).spec_next_pts() + old(self).spec_pending().len()
                    / old(self).spec_frame_bytes()
                &&& final(self).spec_input() == old(self).spec_input()
                &&& final(self).spec_options() == old(self).spec_options()
                &&& final(self).spec_params() == old(self).spec_params()
            },
    {
        if self.pending.len() == 0 {
            return Ok(());
        }
        proof {
            vstd::arithmetic::div_mod::lemma_mod_multiples_basic(self.pending_frames as int, self.frame_bytes as int);
            vstd::arithmetic::div_mod::lemma_div_multiples_vanish(self.pending_frames as int, self.frame_bytes as int);
            assert(self.pending_frames * self.frame_bytes == self.frame_bytes * self.pending_frames) by (nonlinear_arith);
        }
        if self.pending.len() % self.frame_bytes != 0 {
            return Err(Error::InvalidState("pending pcm payload is not aligned to complete frames"));
        }
        let frames = self.pending_frames;
        if frames > u64::MAX - self.next_pts {
            return Err(Error::InvalidState("timestamp overflow"));
        }
        let mut payload: Vec<u8> = Vec::new();
        std::mem::swap(&mut payload, &mut self.pending);
        self.pending_frames = 0;
        self.emit_packet(payload, frames, sink)
    }

    /// Forgets pending samples and restarts timestamps at zero.
    fn reset(&mut self) -> (r: Result<(), Error>)
        ensures
            r is Ok,
            final(self).spec_next_pts() == 0,
            final(self).spec_pending().len() == 0,
            final(self).spec_input() == old(self).spec_input(),
            final(self).spec_options() == old(self).spec_options(),
            final(self).spec_params() == old(self).spec_params(),
    {
        self.next_pts = 0;
        self.pending = Vec::new();
        self.pending_frames = 0;
        Ok(())
    }
}

} // verus!
