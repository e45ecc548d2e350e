use vstd::prelude::*;

use crate::audio::{spec_bits_per_sample, AudioBufferRef, AudioSpec, ChannelLayout, ChannelPosition, SampleFormat};
use crate::error::Error;
use crate::packet::EncodedPacket;

verus! {

/// The coding of a track.
#[derive(Clone, Copy, Debug, PartialEq, Eq, Hash, Structural)]
pub enum CodecId {
    PcmU8,
    PcmS16Le,
    PcmS24Le,
    PcmS32Le,
    PcmF32Le,
    PcmF64Le,
    Opus,
    Flac,
    Mp3,
}

/// The bytes of one sample of a PCM codec; `None` for a compressed codec.
pub open spec fn pcm_codec_width(c: CodecId) -> Option<nat> {
    match c {
        CodecId::PcmU8 => Some(1),
        CodecId::PcmS16Le => Some(2),
        CodecId::PcmS24Le => Some(3),
        CodecId::PcmS32Le => Some(4),
        CodecId::PcmF32Le => Some(4),
        CodecId::PcmF64Le => Some(8),
        _ => None,
    }
}

/// The PCM codecs whose samples are IEEE floating-point numbers.
pub open spec fn is_float_codec(c: CodecId) -> bool {
    c == CodecId::PcmF32Le || c == CodecId::PcmF64Le
}

/// Opus channel-mapping metadata (RFC 7845, section 5.1.1).
#[derive(Clone, Debug, PartialEq, Eq)]
pub struct OpusStreamMapping {
    pub family: u8,
    pub stream_count: u8,
    pub coupled_stream_count: u8,
    pub mapping: Vec<u8>,
}

impl OpusStreamMapping {
    pub fn new(family: u8, stream_count: u8, coupled_stream_count: u8, mapping: Vec<u8>) -> (r:
        Self)
        ensures
            r.family == family,
            r.stream_count == stream_count,
            r.coupled_stream_count == coupled_stream_count,
            r.mapping@ == mapping@,
    {
        OpusStreamMapping { family, stream_count, coupled_stream_count, mapping }
    }
}

/// The fields of a FLAC STREAMINFO block that an encoder knows.
#[derive(Clone, Debug, PartialEq, Eq)]
pub struct FlacStreamInfo {
    pub min_block_size: u16,
    pub max_block_size: u16,
    pub min_frame_size: u32,
    pub max_frame_size: u32,
    pub bits_per_sample: u8,
    pub total_samples: u64,
    pub md5: [u8; 16],
}

impl FlacStreamInfo {
    pub fn new(bits_per_sample: u8) -> (r: Self)
        ensures
            r.bits_per_sample == bits_per_sample,
            r.min_block_size == 0,
            r.max_block_size == 0,
            r.min_frame_size == 0,
            r.max_frame_size == 0,
            r.total_samples == 0,
            forall|i: int| 0 <= i < 16 ==> r.md5@[i] == 0,
    {
        FlacStreamInfo {
            min_block_size: 0,
            max_block_size: 0,
            min_frame_size: 0,
            max_frame_size: 0,
            bits_per_sample,
            total_samples: 0,
            md5: [0u8; 16],
        }
    }
}

/// MP3 stream parameters.
#[derive(Clone, Copy, Debug, PartialEq, Eq)]
pub struct Mp3StreamInfo {
    pub bitrate_bps: u32,
}

impl Mp3StreamInfo {
    pub fn new(bitrate_bps: u32) -> (r: Self)
        ensures
            r.bitrate_bps == bitrate_bps,
    {
        Mp3StreamInfo { bitrate_bps }
    }
}

/// Codec-specific metadata carried with the codec parameters.
#[derive(Clone, Debug, PartialEq, Eq)]
pub enum CodecSpecific {
    Opus(OpusStreamMapping),
    Flac(FlacStreamInfo),
    Mp3(Mp3StreamInfo),
}

/// What a muxer needs to know about a coded track.
#[derive(Clone, Debug, PartialEq, Eq)]
pub struct CodecParameters {
    pub codec: CodecId,
    pub sample_rate: u32,
    pub channels: ChannelLayout,
    pub sample_format: Option<SampleFormat>,
    pub bit_depth: Option<u32>,
    pub frame_samples: Option<u32>,
    pub encoder_delay: u32,
    pub encoder_padding: u32,
    pub codec_specific: Option<CodecSpecific>,
    pub extradata: Vec<u8>,
}

/// The parameters `CodecParameters::new` gives for a codec and an input shape.
pub open spec fn base_parameters(codec: CodecId, spec: AudioSpec, p: CodecParameters) -> bool {
    &&& p.codec == codec
    &&& p.sample_rate == spec.sample_rate
    &&& p.channels == spec.channels
    &&& p.sample_format == Some(spec.sample_format)
    &&& p.bit_depth == Some(spec_bits_per_sample(spec.sample_format))
    &&& p.frame_samples is None
    &&& p.encoder_delay == 0
    &&& p.encoder_padding == 0
    &&& p.codec_specific is None
    &&& p.extradata@.len() == 0
}

impl CodecParameters {
    pub fn new(codec: CodecId, spec: AudioSpec) -> (r: Self)
        ensures
            base_parameters(codec, spec, r),
    {
        CodecParameters {
            codec,
            sample_rate: spec.sample_rate,
            channels: spec.channels,
            sample_format: Some(spec.sample_format),
            bit_depth: Some(spec.sample_format.bits_per_sample()),
            frame_samples: None,
            encoder_delay: 0,
            encoder_padding: 0,
            codec_specific: None,
            extradata: Vec::new(),
        }
    }

    pub fn opus_stream_mapping(&self) -> (r: Option<&OpusStreamMapping>)
        ensures
            match self.codec_specific {
                Some(CodecSpecific::Opus(m)) => r == Some(&m),
                _ => r is None,
            },
    {
        match &self.codec_specific {
            Some(CodecSpecific::Opus(mapping)) => Some(mapping),
            _ => None,
        }
    }

    pub fn flac_stream_info(&self) -> (r: Option<&FlacStreamInfo>)
        ensures
            match self.codec_specific {
                Some(CodecSpecific::Flac(i)) => r == Some(&i),
                _ => r is None,
            },
    {
        match &self.codec_specific {
            Some(CodecSpecific::Flac(info)) => Some(info),
            _ => None,
        }
    }
}

/// The Vorbis/Opus surround channel order for `n` channels (RFC 7845, section 5.1.1.2).
pub open spec fn surround_order(n: u8) -> Option<Seq<ChannelPosition>> {
    if n == 1 {
        Some(seq![ChannelPosition::FrontCenter])
    } else if n == 2 {
        Some(seq![ChannelPosition::FrontLeft, ChannelPosition::FrontRight])
    } else if n == 3 {
        Some(seq![ChannelPosition::FrontLeft, ChannelPosition::FrontCenter, ChannelPosition::FrontRight])
    } else if n == 4 {
        Some(
            seq![
                ChannelPosition::FrontLeft,
                ChannelPosition::FrontRight,
                ChannelPosition::BackLeft,
                ChannelPosition::BackRight,
            ],
        )
    } else if n == 5 {
        Some(
            seq![
                ChannelPosition::FrontLeft,
                ChannelPosition::FrontCenter,
                ChannelPosition::FrontRight,
                ChannelPosition::BackLeft,
                ChannelPosition::BackRight,
            ],
        )
    } else if n == 6 {
        Some(
            seq![
                ChannelPosition::FrontLeft,
                ChannelPosition::FrontCenter,
                ChannelPosition::FrontRight,
                ChannelPosition::BackLeft,
                ChannelPosition::BackRight,
                ChannelPosition::LowFrequency,
            ],
        )
    } else if n == 7 {
        Some(
            seq![
                ChannelPosition::FrontLeft,
                ChannelPosition::FrontCenter,
                ChannelPosition::FrontRight,
                ChannelPosition::SideLeft,
                ChannelPosition::SideRight,
                ChannelPosition::BackCenter,
                ChannelPosition::LowFrequency,
            ],
        )
    } else if n == 8 {
        Some(
            seq![
                ChannelPosition::FrontLeft,
                ChannelPosition::FrontCenter,
                ChannelPosition::FrontRight,
                ChannelPosition::SideLeft,
                ChannelPosition::SideRight,
                ChannelPosition::BackLeft,
                ChannelPosition::BackRight,
                ChannelPosition::LowFrequency,
            ],
        )
    } else {
        None
    }
}

/// The surround channel order for `channel_count` channels, or `None` outside 1..=8.
pub fn opus_surround_channel_order(channel_count: u8) -> (r: Option<Vec<ChannelPosition>>)
    ensures
        match surround_order(channel_count) {
            Some(s) => r is Some && r->0@ == s,
            None => r is None,
        },
{

    let v: Vec<ChannelPosition> = if channel_count == 1 {
        vec![ChannelPosition::FrontCenter]
    } else if channel_count == 2 {
        vec![ChannelPosition::FrontLeft, ChannelPosition::FrontRight]
    } else if channel_count == 3 {
        vec![ChannelPosition::FrontLeft, ChannelPosition::FrontCenter, ChannelPosition::FrontRight]
    } else if channel_count == 4 {
        vec![ChannelPosition::FrontLeft, ChannelPosition::FrontRight, ChannelPosition::BackLeft, ChannelPosition::BackRight]
    } else if channel_count == 5 {
        vec![ChannelPosition::FrontLeft, ChannelPosition::FrontCenter, ChannelPosition::FrontRight, ChannelPosition::BackLeft, ChannelPosition::BackRight]
    } else if channel_count == 6 {
        vec![ChannelPosition::FrontLeft, ChannelPosition::FrontCenter, ChannelPosition::FrontRight, ChannelPosition::BackLeft, ChannelPosition::BackRight, ChannelPosition::LowFrequency]
    } else if channel_count == 7 {
        vec![ChannelPosition::FrontLeft, ChannelPosition::FrontCenter, ChannelPosition::FrontRight, ChannelPosition::SideLeft, ChannelPosition::SideRight, ChannelPosition::BackCenter, ChannelPosition::LowFrequency]
    } else if channel_count == 8 {
        vec![ChannelPosition::FrontLeft, ChannelPosition::FrontCenter, ChannelPosition::FrontRight, ChannelPosition::SideLeft, ChannelPosition::SideRight, ChannelPosition::BackLeft, ChannelPosition::BackRight, ChannelPosition::LowFrequency]
    } else {
        return None;
    };
    proof {
        assert(v@ =~= surround_order(channel_count)->0);
    }
    Some(v)
}

/// Stream and coupled-stream counts of the family-1 mapping for `n` channels.
pub open spec fn family1_counts(n: u8) -> (u8, u8) {
    if n == 1 {
        (1, 0)
    } else if n == 2 {
        (1, 1)
    } else if n == 3 {
        (2, 1)
    } else if n == 4 {
        (2, 2)
    } else if n == 5 {
        (3, 2)
    } else if n == 6 {
        (4, 2)
    } else if n == 7 {
        (5, 2)
    } else {
        (5, 3)
    }
}

/// The family-1 (Vorbis order) stream mapping for `channel_count` channels: the
/// counts of the standard table and the identity channel mapping.
pub fn opus_family1_stream_mapping(channel_count: u8) -> (r: Option<OpusStreamMapping>)
    ensures
        (1 <= channel_count <= 8) == (r is Some),
        r is Some ==> ({
            let m = r->0;
            &&& m.family == 1
            &&& (m.stream_count, m.coupled_stream_count) == family1_counts(channel_count)
            &&& m.mapping@ == Seq::new(channel_count as nat, |i: int| i as u8)
        }),
{
    let order = opus_surround_channel_order(channel_count);
    if order.is_none() {
        return None;
    }
    let (stream_count, coupled_count): (u8, u8) = if channel_count == 1 {
        (1, 0)
    } else if channel_count == 2 {
        (1, 1)
    } else if channel_count == 3 {
        (2, 1)
    } else if channel_count == 4 {
        (2, 2)
    } else if channel_count == 5 {
        (3, 2)
    } else if channel_count == 6 {
        (4, 2)
    } else if channel_count == 7 {
        (5, 2)
    } else {
        (5, 3)
    };
    let mut mapping: Vec<u8> = Vec::new();
    let mut i: u8 = 0;
    while i < channel_count
        invariant
            i <= channel_count,
            mapping@ == Seq::new(i as nat, |k: int| k as u8),
        decreases channel_count - i,
    {
        mapping.push(i);
        i = i + 1;
        proof {
            assert(mapping@ =~= Seq::new(i as nat, |k: int| k as u8));
        }
    }
    Some(OpusStreamMapping::new(1, stream_count, coupled_count, mapping))
}

/// Something that accepts encoded packets in order.
///
/// `accepted` is the sequence of packets taken so far; every implementation
/// must append exactly the written packet when it reports success and keep the
/// sequence unchanged when it reports an error. `sink_inv` is the
/// implementation's own consistency condition, kept by every write.
pub trait PacketSink {
    spec fn accepted(&self) -> Seq<EncodedPacket>;

    spec fn sink_inv(&self) -> bool;

    /// The sink never refuses a packet.
    spec fn infallible(&self) -> bool;

    fn write_packet(&mut self, packet: EncodedPacket) -> (r: Result<(), Error>)
        requires
            old(self).sink_inv(),
        ensures
            final(self).sink_inv(),
            final(self).infallible() == old(self).infallible(),
            old(self).infallible() ==> r is Ok,
            r is Ok ==> final(self).accepted() == old(self).accepted().push(packet),
            r is Err ==> final(self).accepted() == old(self).accepted(),
    ;
}

/// An audio encoder: takes interleaved samples of its input shape and hands
/// coded packets to a sink.
///
/// `enc_inv` is the implementation's own consistency condition, kept by every
/// operation whether it succeeds or fails.
pub trait AudioEncoder {
    spec fn enc_inv(&self) -> bool;

    fn codec_id(&self) -> CodecId;

    fn input_spec(&self) -> AudioSpec;

    fn codec_parameters(&self) -> &CodecParameters;

    fn encode<S: PacketSink>(&mut self, input: AudioBufferRef<'_>, sink: &mut S) -> (r: Result<(), Error>)
        requires
            old(self).enc_inv(),
            old(sink).sink_inv(),
        ensures
            final(self).enc_inv(),
            final(sink).sink_inv(),
    ;

    fn flush<S: PacketSink>(&mut self, sink: &mut S) -> (r: Result<(), Error>)
        requires
            old(self).enc_inv(),
            old(sink).sink_inv(),
        ensures
            final(self).enc_inv(),
            final(sink).sink_inv(),
    ;

    fn reset(&mut self) -> (r: Result<(), Error>)
        requires
            old(self).enc_inv(),
        ensures
            final(self).enc_inv(),
    ;
}

/// A sink that keeps every packet in memory.
#[derive(Debug)]
pub struct VecPacketSink {
    packets: Vec<EncodedPacket>,
}

impl VecPacketSink {
    pub closed spec fn view(&self) -> Seq<EncodedPacket> {
        self.packets@
    }

    pub fn new() -> (r: Self)
        ensures
            r.view().len() == 0,
    {
        VecPacketSink { packets: Vec::new() }
    }

    pub fn as_slice(&self) -> (r: &[EncodedPacket])
        ensures
            r@ == self.view(),
    {
        self.packets.as_slice()
    }

    pub fn into_inner(self) -> (r: Vec<EncodedPacket>)
        ensures
            r@ == self.view(),
    {
        self.packets
    }
}

impl Default for VecPacketSink {
    fn default() -> (r: Self)
        ensures
            r.view().len() == 0,
    {
        VecPacketSink::new()
    }
}

impl PacketSink for VecPacketSink {
    open spec fn accepted(&self) -> Seq<EncodedPacket> {
        self.view()
    }

    open spec fn sink_inv(&self) -> bool {
        true
    }

    open spec fn infallible(&self) -> bool {
        true
    }

    fn write_packet(&mut self, packet: EncodedPacket) -> (r: Result<(), Error>) {
        self.packets.push(packet);
        Ok(())
    }
}

} // verus!
