//! The MP3 encoder's settings: its options and builder, which inputs it
//! accepts, the codec parameters it announces, what it asks of the backend,
//! how its input is cut into frames and how its timestamps advance.
use vstd::prelude::*;

use crate::audio::{popcount, AudioSpec};
use crate::codecs::{CodecId, CodecParameters, CodecSpecific, Mp3StreamInfo};
use crate::error::Error;
use crate::packet::{EncodedPacket, PacketFlags};
use crate::units::Timestamp;

verus! {

/// Samples per channel in one MPEG-1 Layer III frame.
pub const MP3_FRAME_SAMPLES: u64 = 1152;

/// Settings of the MP3 encoder.
#[derive(Debug, Clone, Copy)]
pub struct Mp3EncoderOptions {
    pub bitrate_bps: u32,
}

impl Default for Mp3EncoderOptions {
    fn default() -> (r: Self)
        ensures
            r.bitrate_bps == 192_000,
    {
        Mp3EncoderOptions { bitrate_bps: 192_000 }
    }
}

/// Builds an MP3 encoder from a spec and options.
#[derive(Debug)]
pub struct Mp3EncoderBuilder {
    spec: AudioSpec,
    options: Mp3EncoderOptions,
}

impl Mp3EncoderBuilder {
    pub closed spec fn spec_spec(&self) -> AudioSpec {
        self.spec
    }

    pub closed spec fn spec_options(&self) -> Mp3EncoderOptions {
        self.options
    }

    pub fn new(spec: AudioSpec) -> (r: Self)
        ensures
            r.spec_spec() == spec,
            r.spec_options().bitrate_bps == 192_000,
    {
        Mp3EncoderBuilder { spec, options: Mp3EncoderOptions::default() }
    }

    pub fn options(self, options: Mp3EncoderOptions) -> (r: Self)
        ensures
            r.spec_spec() == self.spec_spec(),
            r.spec_options() == options,
    {
        Mp3EncoderBuilder { spec: self.spec, options }
    }

    pub fn bitrate_bps(self, bitrate_bps: u32) -> (r: Self)
        ensures
            r.spec_spec() == self.spec_spec(),
            r.spec_options().bitrate_bps == bitrate_bps,
    {
        Mp3EncoderBuilder { spec: self.spec, options: Mp3EncoderOptions { bitrate_bps } }
    }

    /// The spec the encoder will be built for.
    pub fn spec(&self) -> (r: AudioSpec)
        ensures
            r == self.spec_spec(),
    {
        self.spec
    }

    /// The options the encoder will be built with.
    pub fn current_options(&self) -> (r: Mp3EncoderOptions)
        ensures
            r == self.spec_options(),
    {
        self.options
    }
}

/// The encoder takes 32, 44.1 or 48 kHz, in mono or stereo.
pub open spec fn mp3_spec_ok(spec: AudioSpec) -> bool {
    &&& (spec.sample_rate == 32000 || spec.sample_rate == 44100 || spec.sample_rate == 48000)
    &&& 1 <= popcount(spec.channels.0) <= 2
}

/// `Unsupported` unless the rate and the channel count are ones the encoder takes.
pub fn validate_spec(spec: AudioSpec) -> (r: Result<(), Error>)
    ensures
        r is Ok <==> mp3_spec_ok(spec),
        r is Err ==> r->Err_0 matches Error::Unsupported(_),
{
    let rate = spec.sample_rate;
    if !(rate == 32000 || rate == 44100 || rate == 48000) {
        return Err(Error::Unsupported("mp3 encoder sample rate must be 32000, 44100, or 48000"));
    }
    let ch = spec.channels.count();
    if ch == 0 || ch > 2 {
        return Err(Error::Unsupported("mp3 encoder supports only mono or stereo"));
    }
    Ok(())
}

/// What the encoder hands the backend, and what it announces of its stream.
#[derive(Debug)]
pub struct Mp3Setup {
    pub sample_rate: u32,
    pub channels: u32,
    pub bitrate_kbps: u32,
    pub params: CodecParameters,
}

/// The codec parameters of an MP3 stream of `spec` at `options`.
pub open spec fn mp3_params(spec: AudioSpec, options: Mp3EncoderOptions, p: CodecParameters) -> bool {
    &&& p.codec == CodecId::Mp3
    &&& p.sample_rate == spec.sample_rate
    &&& p.channels == spec.channels
    &&& p.sample_format == Some(spec.sample_format)
    &&& p.bit_depth == Some(16u32)
    &&& p.frame_samples is None
    &&& p.encoder_delay == 0
    &&& p.encoder_padding == 0
    &&& p.codec_specific == Some(CodecSpecific::Mp3(Mp3StreamInfo { bitrate_bps: options.bitrate_bps }))
    &&& p.extradata@.len() == 0
}

/// Checks `spec`, then gives the backend's arguments (rate, channel count,
/// bitrate in whole kbit/s) and the stream's codec parameters.
pub fn mp3_setup(spec: AudioSpec, options: Mp3EncoderOptions) -> (r: Result<Mp3Setup, Error>)
    ensures
        r is Ok <==> mp3_spec_ok(spec),
        r is Err ==> r->Err_0 matches Error::Unsupported(_),
        r is Ok ==> {
            let s = r->Ok_0;
            &&& s.sample_rate == spec.sample_rate
            &&& s.channels == popcount(spec.channels.0)
            &&& s.bitrate_kbps == options.bitrate_bps / 1000
            &&& mp3_params(spec, options, s.params)
        },
{
    validate_spec(spec)?;
    let channels = spec.channels.count();
    let bitrate_kbps = options.bitrate_bps / 1000;
    let stream_info = Mp3StreamInfo::new(options.bitrate_bps);
    let mut params = CodecParameters::new(CodecId::Mp3, spec);
    params.sample_format = Some(spec.sample_format);
    params.bit_depth = Some(16);
    params.codec_specific = Some(CodecSpecific::Mp3(stream_info));
    Ok(Mp3Setup { sample_rate: spec.sample_rate, channels, bitrate_kbps, params })
}

/// Interleaved samples in one frame of `channels` channels.
pub fn mp3_frame_len(channels: u32) -> (r: usize)
    requires
        channels <= 2,
    ensures
        r == 1152 * channels,
{
    1152 * (channels as usize)
}

/// The timestamp after one more frame; `InvalidState` when it would overflow.
pub fn advance_mp3_pts(pts: u64) -> (r: Result<u64, Error>)
    ensures
        pts + MP3_FRAME_SAMPLES <= u64::MAX <==> r is Ok,
        r is Ok ==> r->Ok_0 == pts + MP3_FRAME_SAMPLES,
        r is Err ==> r->Err_0 matches Error::InvalidState(_),
{
    match pts.checked_add(MP3_FRAME_SAMPLES) {
        Some(v) => Ok(v),
        None => Err(Error::InvalidState("timestamp overflow")),
    }
}

/// The encoder's framing: interleaved input samples (the bit patterns of
/// 32-bit floats) wait here until a whole frame is in, and each coded frame's
/// packet is stamped with the next frame timestamp.
#[derive(Debug)]
pub struct Mp3Frames {
    frame_len: usize,
    pending: Vec<u32>,
    pts: u64,
}

impl Mp3Frames {
    /// Interleaved samples in one frame.
    pub closed spec fn spec_frame_len(&self) -> nat {
        self.frame_len as nat
    }

    /// Samples waiting for a whole frame, oldest first.
    pub closed spec fn spec_pending(&self) -> Seq<u32> {
        self.pending@
    }

    /// Timestamp of the next frame's packet, in samples per channel.
    pub closed spec fn spec_pts(&self) -> u64 {
        self.pts
    }

    /// Framing for `channels` interleaved channels, starting at timestamp 0.
    pub fn new(channels: u32) -> (r: Self)
        requires
            1 <= channels <= 2,
        ensures
            r.spec_frame_len() == 1152 * channels,
            r.spec_pending().len() == 0,
            r.spec_pts() == 0,
    {
        Mp3Frames { frame_len: mp3_frame_len(channels), pending: Vec::new(), pts: 0 }
    }

    /// Queues samples behind those already waiting.
    pub fn push(&mut self, samples: &[u32])
        ensures
            final(self).spec_pending() == old(self).spec_pending() + samples@,
            final(self).spec_frame_len() == old(self).spec_frame_len(),
            final(self).spec_pts() == old(self).spec_pts(),
    {
        let ghost start = self.pending@;
        let mut i: usize = 0;
        while i < samples.len()
            invariant
                i <= samples@.len(),
                self.pending@ == start + samples@.take(i as int),
                self.frame_len == old(self).frame_len,
                self.pts == old(self).pts,
                start == old(self).pending@,
            decreases samples@.len() - i,
        {
            self.pending.push(samples[i]);
            i = i + 1;
            proof {
                assert(samples@.take(i as int) =~= samples@.take(i - 1).push(samples@[i - 1]));
            }
        }
        proof {
            assert(samples@.take(i as int) =~= samples@);
        }
    }

    /// The oldest whole frame of waiting samples, taken off the queue;
    /// `None`, with nothing taken, while less than a frame waits.
    pub fn next_frame(&mut self) -> (r: Option<Vec<u32>>)
        ensures
            r is Some <==> old(self).spec_pending().len() >= old(self).spec_frame_len(),
            r is Some ==> r->0@ == old(self).spec_pending().take(old(self).spec_frame_len() as int)
                && final(self).spec_pending() == old(self).spec_pending().skip(
                old(self).spec_frame_len() as int,
            ),
            r is None ==> final(self).spec_pending() == old(self).spec_pending(),
            final(self).spec_frame_len() == old(self).spec_frame_len(),
            final(self).spec_pts() == old(self).spec_pts(),
    {
        if self.pending.len() < self.frame_len {
            return None;
        }
        let mut frame = self.pending.split_off(self.frame_len);
        std::mem::swap(&mut frame, &mut self.pending);
        proof {
            assert(frame@ =~= old(self).pending@.take(self.frame_len as int));
            assert(self.pending@ =~= old(self).pending@.skip(self.frame_len as int));
        }
        Some(frame)
    }

    /// Every waiting sample, taken off the queue.
    pub fn take_rest(&mut self) -> (r: Vec<u32>)
        ensures
            r@ == old(self).spec_pending(),
            final(self).spec_pending().len() == 0,
            final(self).spec_frame_len() == old(self).spec_frame_len(),
            final(self).spec_pts() == old(self).spec_pts(),
    {
        let mut rest: Vec<u32> = Vec::new();
        std::mem::swap(&mut rest, &mut self.pending);
        rest
    }

    /// The packet of one coded frame: a keyframe stamped with the frame's
    /// timestamp, which then moves on by one frame; `InvalidState`, with the
    /// timestamp kept, when it would overflow.
    pub fn frame_packet(&mut self, data: Vec<u8>) -> (r: Result<EncodedPacket, Error>)
        ensures
            r is Ok <==> old(self).spec_pts() + MP3_FRAME_SAMPLES <= u64::MAX,
            r is Ok ==> {
                let p = r->Ok_0;
                &&& p.data@ == data@
                &&& p.pts == Some(Timestamp(old(self).spec_pts()))
                &&& p.dts == Some(Timestamp(old(self).spec_pts()))
                &&& p.duration is None
                &&& p.trim_start == 0
                &&& p.trim_end == 0
                &&& p.flags.0 == 1
                &&& final(self).spec_pts() == old(self).spec_pts() + MP3_FRAME_SAMPLES
            },
            r is Err ==> (r->Err_0 matches Error::InvalidState(_)) && final(self).spec_pts() == old(self).spec_pts(),
            final(self).spec_pending() == old(self).spec_pending(),
            final(self).spec_frame_len() == old(self).spec_frame_len(),
    {
        let pts = Timestamp::new(self.pts);
        self.pts = advance_mp3_pts(self.pts)?;
        let mut packet = EncodedPacket::new(data);
        packet.pts = Some(pts);
        packet.dts = Some(pts);
        packet.flags = PacketFlags::keyframe();
        Ok(packet)
    }

    /// Drops the waiting samples and restarts the timestamps at 0.
    pub fn reset(&mut self)
        ensures
            final(self).spec_pending().len() == 0,
            final(self).spec_pts() == 0,
            final(self).spec_frame_len() == old(self).spec_frame_len(),
    {
        self.pending.clear();
        self.pts = 0;
    }
}

} // verus!
