//! The FLAC encoder: interleaved 16- or 24-bit samples are collected into
//! blocks, and each block is coded as one frame.
use vstd::prelude::*;

use crate::audio::{popcount, AudioBufferRef, AudioSpec, SampleFormat};
use crate::codecs::{base_parameters, CodecId, CodecParameters, CodecSpecific, AudioEncoder, FlacStreamInfo, PacketSink};
use crate::error::Error;
use crate::flac::frame::{channel_views, encode_frame, frame_input, frame_samples, spec_encode_frame};
use crate::packet::{EncodedPacket, PacketFlags};
use crate::units::Timestamp;

verus! {

/// Options of the FLAC encoder.
#[derive(Clone, Copy, Debug, PartialEq, Eq)]
pub struct FlacEncoderOptions {
    pub block_size: u16,
    pub max_fixed_order: u8,
    pub max_rice_partition_order: u8,
    pub stereo_decorrelation: bool,
}

impl Default for FlacEncoderOptions {
    fn default() -> (r: Self)
        ensures
            r.block_size == 4096,
            r.max_fixed_order == 4,
            r.max_rice_partition_order == 6,
            r.stereo_decorrelation,
    {
        FlacEncoderOptions {
            block_size: 4096,
            max_fixed_order: 4,
            max_rice_partition_order: 6,
            stereo_decorrelation: true,
        }
    }
}

/// The input shape FLAC accepts: 1 to 655350 Hz, one to eight channels,
/// 16- or 24-bit samples.
pub open spec fn flac_spec_ok(spec: AudioSpec) -> bool {
    &&& 1 <= spec.sample_rate <= 655_350
    &&& 1 <= popcount(spec.channels.0) <= 8
    &&& (spec.sample_format == SampleFormat::I16 || spec.sample_format == SampleFormat::I24)
}

/// Options FLAC accepts: blocks of at least 16 samples, fixed predictors of
/// order at most 4, Rice partition orders at most 15.
pub open spec fn flac_options_ok(options: FlacEncoderOptions) -> bool {
    &&& options.block_size >= 16
    &&& options.max_fixed_order <= 4
    &&& options.max_rice_partition_order <= 15
}

/// Checks the input shape; every refusal is `Unsupported`.
pub fn validate_spec(spec: AudioSpec) -> (r: Result<(), Error>)
    ensures
        r is Ok <==> flac_spec_ok(spec),
        r is Err ==> r->Err_0 matches Error::Unsupported(_),
{
    if spec.sample_rate == 0 || spec.sample_rate > 655_350 {
        return Err(Error::Unsupported("flac encoder sample rate must be 1-655350 Hz"));
    }
    let ch = spec.channels.count();
    if ch == 0 || ch > 8 {
        return Err(Error::Unsupported("flac encoder supports 1-8 channels"));
    }
    match spec.sample_format {
        SampleFormat::I16 => Ok(()),
        SampleFormat::I24 => Ok(()),
        _ => Err(Error::Unsupported("flac encoder supports only i16 or i24 input")),
    }
}

/// Checks the options; every refusal is `InvalidArgument`.
pub fn validate_options(options: FlacEncoderOptions) -> (r: Result<(), Error>)
    ensures
        r is Ok <==> flac_options_ok(options),
        r is Err ==> r->Err_0 matches Error::InvalidArgument(_),
{
    if options.block_size < 16 {
        return Err(Error::InvalidArgument("flac block_size must be at least 16"));
    }
    if options.max_fixed_order > 4 {
        return Err(Error::InvalidArgument("flac max_fixed_order must be 0-4"));
    }
    if options.max_rice_partition_order > 15 {
        return Err(Error::InvalidArgument("flac max_rice_partition_order must be 0-15"));
    }
    Ok(())
}

/// The sample size a format is coded with.
pub open spec fn flac_bits(f: SampleFormat) -> u8 {
    if f == SampleFormat::I16 {
        16
    } else {
        24
    }
}

/// The codec parameters of an encoder for `spec` and `options`.
pub open spec fn flac_params(spec: AudioSpec, options: FlacEncoderOptions, p: CodecParameters) -> bool {
    let bps = flac_bits(spec.sample_format);
    &&& p.codec == CodecId::Flac
    &&& p.sample_rate == spec.sample_rate
    &&& p.channels == spec.channels
    &&& p.sample_format == Some(spec.sample_format)
    &&& p.bit_depth == Some(bps as u32)
    &&& p.frame_samples == Some(options.block_size as u32)
    &&& p.encoder_delay == 0
    &&& p.encoder_padding == 0
    &&& p.extradata@.len() == 0
    &&& match p.codec_specific {
        Some(CodecSpecific::Flac(info)) => {
            &&& info.min_block_size == options.block_size
            &&& info.max_block_size == options.block_size
            &&& info.min_frame_size == 0
            &&& info.max_frame_size == 0
            &&& info.bits_per_sample == bps
            &&& info.total_samples == 0
            &&& forall|i: int| 0 <= i < 16 ==> info.md5@[i] == 0
        },
        _ => false,
    }
}

/// The samples of a 16- or 24-bit buffer, widened.
pub open spec fn flac_samples(input: AudioBufferRef) -> Seq<i64> {
    match input {
        AudioBufferRef::I16(d) => Seq::new(d@.len(), |i: int| d@[i] as i64),
        AudioBufferRef::I24(d) => Seq::new(d@.len(), |i: int| d@[i] as i64),
        _ => Seq::empty(),
    }
}

/// The buffer can be coded: 16-bit, or 24-bit with every sample in range.
pub open spec fn flac_samples_ok(input: AudioBufferRef) -> bool {
    match input {
        AudioBufferRef::I16(d) => true,
        AudioBufferRef::I24(d) => crate::pcm::i24_in_range(d@),
        _ => false,
    }
}

/// Channel `c` of interleaved samples.
pub open spec fn deinterleave(x: Seq<i64>, channels: nat) -> Seq<Seq<i64>> {
    Seq::new(channels, |c: int| Seq::new(x.len() / channels, |i: int| x[i * channels + c]))
}

/// Every sample fits the 24-bit signed range.
pub open spec fn small(x: Seq<i64>) -> bool {
    forall|i: int| 0 <= i < x.len() ==> -8_388_608 <= #[trigger] x[i] <= 8_388_607
}

/// `p` is a FLAC packet holding `data`, starting at sample `pts` and lasting
/// `frames` samples; every FLAC frame is a keyframe.
pub open spec fn flac_packet(p: EncodedPacket, data: Seq<u8>, pts: u64, frames: u64) -> bool {
    &&& p.data@ == data
    &&& p.pts == Some(Timestamp(pts))
    &&& p.dts == Some(Timestamp(pts))
    &&& p.duration == Some(frames)
    &&& p.trim_start == 0
    &&& p.trim_end == 0
    &&& p.flags.0 == 1
}

/// Builds a `FlacEncoder`.
#[derive(Debug)]
pub struct FlacEncoderBuilder {
    spec: AudioSpec,
    options: FlacEncoderOptions,
}

impl FlacEncoderBuilder {
    pub closed spec fn spec_spec(&self) -> AudioSpec {
        self.spec
    }

    pub closed spec fn spec_options(&self) -> FlacEncoderOptions {
        self.options
    }

    pub fn new(spec: AudioSpec) -> (r: Self)
        ensures
            r.spec_spec() == spec,
            r.spec_options().block_size == 4096,
            r.spec_options().max_fixed_order == 4,
            r.spec_options().max_rice_partition_order == 6,
            r.spec_options().stereo_decorrelation,
    {
        FlacEncoderBuilder { spec, options: FlacEncoderOptions::default() }
    }

    pub fn options(self, options: FlacEncoderOptions) -> (r: Self)
        ensures
            r.spec_spec() == self.spec_spec(),
            r.spec_options() == options,
    {
        FlacEncoderBuilder { spec: self.spec, options }
    }

    pub fn block_size(self, block_size: u16) -> (r: Self)
        ensures
            r.spec_spec() == self.spec_spec(),
            r.spec_options() == (FlacEncoderOptions { block_size, ..self.spec_options() }),
    {
        FlacEncoderBuilder { spec: self.spec, options: FlacEncoderOptions { block_size, ..self.options } }
    }

    pub fn stereo_decorrelation(self, enabled: bool) -> (r: Self)
        ensures
            r.spec_spec() == self.spec_spec(),
            r.spec_options() == (FlacEncoderOptions {
                stereo_decorrelation: enabled,
                ..self.spec_options()
            }),
    {
        FlacEncoderBuilder {
            spec: self.spec,
            options: FlacEncoderOptions { stereo_decorrelation: enabled, ..self.options },
        }
    }

    pub fn build(self) -> (r: Result<FlacEncoder, Error>)
        ensures
            r is Ok <==> flac_spec_ok(self.spec_spec()) && flac_options_ok(self.spec_options()),
            r is Ok ==> flac_fresh(r->Ok_0, self.spec_spec(), self.spec_options()),
            !flac_spec_ok(self.spec_spec()) ==> r is Err && r->Err_0 matches Error::Unsupported(_),
            flac_spec_ok(self.spec_spec()) && !flac_options_ok(self.spec_options()) ==> r is Err
                && r->Err_0 matches Error::InvalidArgument(_),
    {
        FlacEncoder::with_options(self.spec, self.options)
    }
}

/// `e` is a freshly built encoder.
pub open spec fn flac_fresh(e: FlacEncoder, spec: AudioSpec, options: FlacEncoderOptions) -> bool {
    &&& e.enc_inv()
    &&& e.spec_input() == spec
    &&& e.spec_options() == options
    &&& flac_params(spec, options, e.spec_params())
    &&& e.spec_pending().len() == 0
    &&& e.spec_next_pts() == 0
    &&& e.spec_frame_number() == 0
}

/// The FLAC encoder.
#[derive(Debug)]
pub struct FlacEncoder {
    spec: AudioSpec,
    params: CodecParameters,
    options: FlacEncoderOptions,
    channels: usize,
    bits_per_sample: u8,
    pending: Vec<i64>,
    next_pts: u64,
    frame_number: u32,
}

impl FlacEncoder {
    pub closed spec fn spec_input(&self) -> AudioSpec {
        self.spec
    }

    pub closed spec fn spec_options(&self) -> FlacEncoderOptions {
        self.options
    }

    pub closed spec fn spec_params(&self) -> CodecParameters {
        self.params
    }

    /// Interleaved samples waiting for a full block.
    pub closed spec fn spec_pending(&self) -> Seq<i64> {
        self.pending@
    }

    pub closed spec fn spec_next_pts(&self) -> u64 {
        self.next_pts
    }

    pub closed spec fn spec_frame_number(&self) -> u32 {
        self.frame_number
    }

    pub closed spec fn wf(&self) -> bool {
        &&& flac_spec_ok(self.spec)
        &&& flac_options_ok(self.options)
        &&& self.channels == popcount(self.spec.channels.0)
        &&& self.bits_per_sample == flac_bits(self.spec.sample_format)
        &&& flac_params(self.spec, self.options, self.params)
        &&& small(self.pending@)
        &&& self.pending@.len() % (self.channels as nat) == 0
        &&& self.pending@.len() < self.options.block_size * self.channels
    }

    pub fn new(spec: AudioSpec) -> (r: Result<Self, Error>)
        ensures
            r is Ok <==> flac_spec_ok(spec),
            r is Ok ==> flac_fresh(
                r->Ok_0,
                spec,
                FlacEncoderOptions {
                    block_size: 4096,
                    max_fixed_order: 4,
                    max_rice_partition_order: 6,
                    stereo_decorrelation: true,
                },
            ),
            r is Err ==> r->Err_0 matches Error::Unsupported(_),
    {
        Self::builder(spec).build()
    }

    pub fn builder(spec: AudioSpec) -> (r: FlacEncoderBuilder)
        ensures
            r.spec_spec() == spec,
            r.spec_options().block_size == 4096,
            r.spec_options().max_fixed_order == 4,
            r.spec_options().max_rice_partition_order == 6,
            r.spec_options().stereo_decorrelation,
    {
        FlacEncoderBuilder::new(spec)
    }

    /// Builds the encoder: `Unsupported` for an input shape FLAC cannot
    /// take, `InvalidArgument` for bad options.
    pub fn with_options(spec: AudioSpec, options: FlacEncoderOptions) -> (r: Result<Self, Error>)
        ensures
            r is Ok <==> flac_spec_ok(spec) && flac_options_ok(options),
            r is Ok ==> flac_fresh(r->Ok_0, spec, options),
            !flac_spec_ok(spec) ==> r is Err && r->Err_0 matches Error::Unsupported(_),
            flac_spec_ok(spec) && !flac_options_ok(options) ==> r is Err
                && r->Err_0 matches Error::InvalidArgument(_),
    {
        validate_spec(spec)?;
        validate_options(options)?;
        let bits_per_sample: u8 = match spec.sample_format {
            SampleFormat::I16 => 16,
            SampleFormat::I24 => 24,
            _ => {
                return Err(Error::Unsupported("flac encoder supports only i16 or i24 input"));
            },
        };
        let channels = spec.channels.count() as usize;
        let block_size = options.block_size;
        let stream_info = FlacStreamInfo {
            min_block_size: block_size,
            max_block_size: block_size,
            min_frame_size: 0,
            max_frame_size: 0,
            bits_per_sample,
            total_samples: 0,
            md5: [0u8; 16],
        };
        let mut params = CodecParameters::new(CodecId::Flac, spec);
        params.sample_format = Some(spec.sample_format);
        params.bit_depth = Some(bits_per_sample as u32);
        params.frame_samples = Some(block_size as u32);
        params.codec_specific = Some(CodecSpecific::Flac(stream_info));
        let e = FlacEncoder {
            spec,
            params,
            options,
            channels,
            bits_per_sample,
            pending: Vec::new(),
            next_pts: 0,
            frame_number: 0,
        };
        proof {
            assert(e.pending@.len() < e.options.block_size * e.channels) by (nonlinear_arith)
                requires
                    e.pending@.len() == 0,
                    e.options.block_size >= 16,
                    e.channels >= 1,
            ;
        }
        Ok(e)
    }

    pub fn options(&self) -> (r: FlacEncoderOptions)
        ensures
            r == self.spec_options(),
    {
        self.options
    }

    /// The samples of a 16- or 24-bit buffer, widened; `InvalidArgument` for
    /// a 24-bit sample out of range, `Unsupported` for other formats.
    pub fn samples_to_i64(input: AudioBufferRef<'_>) -> (r: Result<Vec<i64>, Error>)
        ensures
            r is Ok <==> flac_samples_ok(input),
            r is Ok ==> r->Ok_0@ == flac_samples(input) && small(r->Ok_0@),
            r is Err && (input.spec_sample_format() == SampleFormat::I16 || input.spec_sample_format()
                == SampleFormat::I24) ==> r->Err_0 matches Error::InvalidArgument(_),
            r is Err && !(input.spec_sample_format() == SampleFormat::I16 || input.spec_sample_format()
                == SampleFormat::I24) ==> r->Err_0 matches Error::Unsupported(_),
    {
        let mut out: Vec<i64> = Vec::new();
        match input {
            AudioBufferRef::I16(data) => {
                let mut i: usize = 0;
                while i < data.len()
                    invariant
                        i <= data@.len(),
                        out@ == Seq::new(i as nat, |k: int| data@[k] as i64),
                    decreases data@.len() - i,
                {
                    out.push(data[i] as i64);
                    i = i + 1;
                    proof {
                        assert(out@ =~= Seq::new(i as nat, |k: int| data@[k] as i64));
                    }
                }
                Ok(out)
            },
            AudioBufferRef::I24(data) => {
                let mut i: usize = 0;
                while i < data.len()
                    invariant
                        i <= data@.len(),
                        input == AudioBufferRef::I24(data),
                        forall|k: int| 0 <= k < i ==> -8_388_608 <= #[trigger] data@[k] <= 8_388_607,
                        out@ == Seq::new(i as nat, |k: int| data@[k] as i64),
                    decreases data@.len() - i,
                {
                    let s = data[i];
                    if s < -8_388_608 || s > 8_388_607 {
                        proof {
                            assert(data@[i as int] == s);
                            assert(!flac_samples_ok(input));
                        }
                        return Err(Error::InvalidArgument("i24 sample out of range"));
                    }
                    out.push(s as i64);
                    i = i + 1;
                    proof {
                        assert(out@ =~= Seq::new(i as nat, |k: int| data@[k] as i64));
                    }
                }
                Ok(out)
            },
            _ => Err(Error::Unsupported("flac encoder supports only i16 or i24 input")),
        }
    }
}

/// The frame a block of interleaved samples is coded as.
pub open spec fn flac_block_frame(
    block: Seq<i64>,
    channels: nat,
    frame_number: u32,
    spec: AudioSpec,
    options: FlacEncoderOptions,
    block_size: u16,
) -> Seq<u8> {
    spec_encode_frame(
        deinterleave(block, channels),
        frame_number,
        spec.sample_rate,
        flac_bits(spec.sample_format),
        block_size,
        options.max_fixed_order,
        options.max_rice_partition_order,
        options.stereo_decorrelation && channels == 2,
    )
}

/// The sink received one full-block frame for each whole block of `data`,
/// numbered and timed from `frame0` and `pts0`.
pub open spec fn flac_blocks_emitted(
    before: Seq<EncodedPacket>,
    after: Seq<EncodedPacket>,
    data: Seq<i64>,
    channels: nat,
    spec: AudioSpec,
    options: FlacEncoderOptions,
    frame0: u32,
    pts0: u64,
) -> bool {
    let b = options.block_size * channels;
    let k = data.len() as int / b;
    &&& after.len() == before.len() + k
    &&& after.take(before.len() as int) == before
    &&& forall|i: int|
        0 <= i < k ==> flac_packet(
            #[trigger] after[before.len() + i],
            flac_block_frame(
                data.subrange(i * b, (i + 1) * b),
                channels,
                (frame0 + i) as u32,
                spec,
                options,
                options.block_size,
            ),
            (pts0 + i * options.block_size) as u64,
            options.block_size as u64,
        )
}

impl FlacEncoder {
    /// Splits interleaved samples into one buffer per channel.
    fn deinterleave_block(interleaved: &[i64], channels: usize, block_size: usize) -> (r: Vec<Vec<i64>>)
        requires
            1 <= channels <= 8,
            interleaved@.len() == block_size * channels,
            block_size <= 0xffff,
        ensures
            channel_views(r@) == deinterleave(interleaved@, channels as nat),
            forall|c: int| 0 <= c < r@.len() ==> (#[trigger] r@[c])@.len() == block_size,
    {
        let ghost x = interleaved@;
        proof {
            vstd::arithmetic::div_mod::lemma_div_multiples_vanish(block_size as int, channels as int);
            assert(block_size * channels == channels * block_size) by (nonlinear_arith);
        }
        let mut out: Vec<Vec<i64>> = Vec::new();
        let mut c: usize = 0;
        while c < channels
            invariant
                c <= channels,
                1 <= channels <= 8,
                x == interleaved@,
                x.len() == block_size * channels,
                x.len() / (channels as nat) == block_size,
                block_size <= 0xffff,
                out@.len() == c,
                forall|cc: int| 0 <= cc < c ==> (#[trigger] out@[cc])@ == Seq::new(
                    block_size as nat,
                    |i: int| x[i * channels + cc],
                ),
            decreases channels - c,
        {
            let mut buf: Vec<i64> = Vec::new();
            let mut i: usize = 0;
            while i < block_size
                invariant
                    i <= block_size,
                    c < channels,
                    channels <= 8,
                    block_size <= 0xffff,
                    x == interleaved@,
                    x.len() == block_size * channels,
                    buf@ == Seq::new(i as nat, |j: int| x[j * channels + c]),
                decreases block_size - i,
            {
                proof {
                    assert(i * channels + c < block_size * channels) by (nonlinear_arith)
                        requires
                            i < block_size,
                            c < channels,
                    ;
                    assert(i * channels + c <= 0xffff * 8) by (nonlinear_arith)
                        requires
                            i < block_size,
                            block_size <= 0xffff,
                            c < channels,
                            channels <= 8,
                    ;
                }
                buf.push(interleaved[i * channels + c]);
                i = i + 1;
                proof {
                    assert(buf@ =~= Seq::new(i as nat, |j: int| x[j * channels + c]));
                }
            }
            out.push(buf);
            c = c + 1;
        }
        proof {
            assert(channel_views(out@) =~= deinterleave(x, channels as nat));
        }
        out
    }

    /// Codes one block as one frame and hands it to the sink.
    fn encode_block<S: PacketSink>(&mut self, interleaved: &[i64], block_size: u16, sink: &mut S) -> (r:
        Result<(), Error>)
        requires
            old(self).wf(),
            old(sink).sink_inv(),
            small(interleaved@),
            block_size >= 1,
            interleaved@.len() == block_size * old(self).channels,
            old(self).next_pts + block_size <= u64::MAX,
            old(self).frame_number < u32::MAX,
        ensures
            final(self).wf(),
            final(sink).sink_inv(),
            final(sink).infallible() == old(sink).infallible(),
            old(sink).infallible() ==> r is Ok,
            final(self).next_pts == old(self).next_pts + block_size,
            final(self).frame_number == old(self).frame_number + 1,
            final(self).spec == old(self).spec,
            final(self).params == old(self).params,
            final(self).options == old(self).options,
            final(self).channels == old(self).channels,
            final(self).bits_per_sample == old(self).bits_per_sample,
            final(self).pending == old(self).pending,
            r is Ok ==> final(sink).accepted().len() == old(sink).accepted().len() + 1
                && final(sink).accepted().take(old(sink).accepted().len() as int) == old(sink).accepted()
                && flac_packet(
                final(sink).accepted().last(),
                flac_block_frame(
                    interleaved@,
                    old(self).channels as nat,
                    old(self).frame_number,
                    old(self).spec,
                    old(self).options,
                    block_size,
                ),
                old(self).next_pts,
                block_size as u64,
            ),
            r is Err ==> final(sink).accepted() == old(sink).accepted(),
    {
        let bs = block_size as usize;
        let channel_bufs = Self::deinterleave_block(interleaved, self.channels, bs);
        let try_stereo = self.options.stereo_decorrelation && self.channels == 2;
        proof {
            let chs = channel_views(channel_bufs@);
            vstd::arithmetic::div_mod::lemma_div_multiples_vanish(bs as int, self.channels as int);
            assert(bs * self.channels == self.channels * bs) by (nonlinear_arith);
            assert forall|c: int| 0 <= c < chs.len() implies (#[trigger] chs[c]).len() == block_size
                && frame_samples(chs[c]) by {
                assert(chs[c] == channel_bufs@[c]@);
                assert forall|i: int| 0 <= i < chs[c].len() implies -0x100_0000 < #[trigger] chs[c][i]
                    < 0x100_0000 by {
                    assert(i * self.channels + c < bs * self.channels) by (nonlinear_arith)
                        requires
                            0 <= i < bs,
                            0 <= c < self.channels,
                    ;
                    assert(chs[c][i] == interleaved@[i * self.channels + c]);
                }
            }
        }
        let frame_bytes = encode_frame(
            channel_bufs.as_slice(),
            self.frame_number,
            self.spec.sample_rate,
            self.bits_per_sample,
            block_size,
            self.options.max_fixed_order,
            self.options.max_rice_partition_order,
            try_stereo,
        );
        let pts = Timestamp::new(self.next_pts);
        self.next_pts = self.next_pts + block_size as u64;
        self.frame_number = self.frame_number + 1;
        let mut packet = EncodedPacket::new(frame_bytes);
        packet.pts = Some(pts);
        packet.dts = Some(pts);
        packet.duration = Some(block_size as u64);
        packet.flags = PacketFlags::keyframe();
        let r = sink.write_packet(packet);
        proof {
            if r is Ok {
                assert(final(sink).accepted().take(old(sink).accepted().len() as int) =~= old(sink).accepted());
            }
        }
        r
    }
}

impl AudioEncoder for FlacEncoder {
    closed spec fn enc_inv(&self) -> bool {
        self.wf()
    }

    fn codec_id(&self) -> (r: CodecId)
        ensures
            r == CodecId::Flac,
    {
        CodecId::Flac
    }

    fn input_spec(&self) -> (r: AudioSpec)
        ensures
            r == self.spec_input(),
    {
        self.spec
    }

    fn codec_parameters(&self) -> (r: &CodecParameters)
        ensures
            *r == self.spec_params(),
    {
        &self.params
    }

    /// Collects samples and codes every whole block as a frame.
    #[verifier::rlimit(80)]
    fn encode<S: PacketSink>(&mut self, input: AudioBufferRef<'_>, sink: &mut S) -> (r: Result<(), Error>)
        ensures
            input.spec_sample_format() != old(self).spec_input().sample_format ==> r is Err
                && r->Err_0 matches Error::InvalidArgument(_),
            input.spec_sample_format() == old(self).spec_input().sample_format && input.spec_len() == 0
                ==> r is Ok && *final(self) == *old(self) && final(sink).accepted() == old(sink).accepted(),
            input.spec_sample_format() == old(self).spec_input().sample_format && input.spec_len() != 0
                && input.spec_len() % popcount(old(self).spec_input().channels.0) != 0 ==> r is Err
                && r->Err_0 matches Error::InvalidArgument(_),
            input.spec_sample_format() == old(self).spec_input().sample_format && input.spec_len() != 0
                && input.spec_len() % popcount(old(self).spec_input().channels.0) == 0
                && !flac_samples_ok(input) ==> r is Err && r->Err_0 matches Error::InvalidArgument(_),
            ({
                let ch = popcount(old(self).spec_input().channels.0);
                let data = old(self).spec_pending() + flac_samples(input);
                let k = data.len() as int / (old(self).spec_options().block_size * ch);
                input.spec_sample_format() == old(self).spec_input().sample_format && input.spec_len()
                    != 0 && input.spec_len() % ch == 0 && flac_samples_ok(input)
                    && old(self).spec_next_pts() + k * old(self).spec_options().block_size <= u64::MAX
                    && old(self).spec_frame_number() + k <= u32::MAX && old(sink).infallible() ==> r is Ok
            }),
            r is Ok && input.spec_len() != 0 ==> {
                let ch = popcount(old(self).spec_input().channels.0);
                let data = old(self).spec_pending() + flac_samples(input);
                let b = old(self).spec_options().block_size * ch;
                let k = data.len() as int / b;
                &&& flac_blocks_emitted(
                    old(sink).accepted(),
                    final(sink).accepted(),
                    data,
                    ch,
                    old(self).spec_input(),
                    old(self).spec_options(),
                    old(self).spec_frame_number(),
                    old(self).spec_next_pts(),
                )
                &&& final(self).spec_pending() == data.skip(k * b)
                &&& final(self).spec_next_pts() == old(self).spec_next_pts() + k * old(self).spec_options().block_size
                &&& final(self).spec_frame_number() == old(self).spec_frame_number() + k
                &&& final(self).spec_input() == old(self).spec_input()
                &&& final(self).spec_options() == old(self).spec_options()
                &&& final(self).spec_params() == old(self).spec_params()
            },
    {
        if !input.sample_format().same_as(self.spec.sample_format) {
            return Err(Error::InvalidArgument("buffer sample format does not match encoder input spec"));
        }
        if input.is_empty() {
            return Ok(());
        }
        let sample_count = input.len();
        if sample_count % self.channels != 0 {
            return Err(Error::InvalidArgument("input buffer sample count is not divisible by channel count"));
        }
        let samples = Self::samples_to_i64(input)?;
        proof {
            assert(samples@.len() == sample_count);
            assert(samples@.len() % (self.channels as nat) == 0);
        }
        let ghost data = self.pending@ + samples@;
        let mut buf: Vec<i64> = Vec::new();
        let mut t: usize = 0;
        while t < self.pending.len()
            invariant
                t <= self.pending@.len(),
                buf@ == self.pending@.take(t as int),
            decreases self.pending@.len() - t,
        {
            buf.push(self.pending[t]);
            t = t + 1;
            proof {
                assert(buf@ =~= self.pending@.take(t as int));
            }
        }
        let mut t: usize = 0;
        let ghost pend = self.pending@;
        proof {
            assert(pend.take(pend.len() as int) =~= pend);
        }
        while t < samples.len()
            invariant
                t <= samples@.len(),
                buf@ == pend + samples@.take(t as int),
            decreases samples@.len() - t,
        {
            buf.push(samples[t]);
            t = t + 1;
            proof {
                assert(buf@ =~= pend + samples@.take(t as int));
            }
        }
        proof {
            assert(samples@.take(t as int) =~= samples@);
            assert(buf@ == data);
            assert(small(data)) by {
                assert forall|i: int| 0 <= i < data.len() implies -8_388_608 <= #[trigger] data[i] <= 8_388_607 by {
                    if i < pend.len() {
                        assert(data[i] == pend[i]);
                    } else {
                        assert(data[i] == samples@[i - pend.len()]);
                    }
                }
            }
        }
        let ch = self.channels;
        let bsz = self.options.block_size;
        proof {
            assert(bsz * ch <= 0xffff * 8) by (nonlinear_arith)
                requires
                    ch <= 8,
            ;
        }
        let block_samples = bsz as usize * ch;
        proof {
            assert(block_samples >= 16) by (nonlinear_arith)
                requires
                    block_samples == bsz * ch,
                    bsz >= 16,
                    ch >= 1,
            ;
        }
        let k = buf.len() / block_samples;
        if (k as u64) > 0 && (bsz as u64) > (u64::MAX - self.next_pts) / (k as u64) {
            proof {
                assert(k * bsz > u64::MAX - self.next_pts) by (nonlinear_arith)
                    requires
                        k > 0,
                        bsz > (u64::MAX - self.next_pts) / (k as int),
                ;
            }
            return Err(Error::InvalidState("timestamp overflow"));
        }
        if k as u64 > (u32::MAX - self.frame_number) as u64 {
            return Err(Error::InvalidState("frame number overflow"));
        }
        proof {
            if k > 0 {
                assert(k * bsz <= u64::MAX - self.next_pts) by (nonlinear_arith)
                    requires
                        k > 0,
                        bsz <= (u64::MAX - self.next_pts) / (k as int),
                ;
            }
            assert(k * block_samples <= data.len() < (k + 1) * block_samples) by (nonlinear_arith)
                requires
                    k == data.len() / (block_samples as nat),
                    block_samples > 0,
            ;
        }
        let blen = buf.len();
        let mut off: usize = 0;
        let mut i: usize = 0;
        let ghost acc0 = sink.accepted();
        let ghost pts0 = self.next_pts;
        let ghost fn0 = self.frame_number;
        while i < k
            invariant
                self.wf(),
                self.pending@ == pend,
                input.spec_sample_format() == old(self).spec_input().sample_format,
                input.spec_len() != 0,
                input.spec_len() % popcount(old(self).spec_input().channels.0) == 0,
                flac_samples_ok(input),
                i <= k,
                k == data.len() / (block_samples as nat),
                k * block_samples <= data.len(),
                blen == buf@.len(),
                buf@ == data,
                small(data),
                off == i * block_samples,
                block_samples == bsz * ch,
                bsz == self.options.block_size,
                ch == self.channels,
                block_samples > 0,
                sink.sink_inv(),
                sink.infallible() == old(sink).infallible(),
                self.next_pts == pts0 + i * bsz,
                pts0 + k * bsz <= u64::MAX,
                self.frame_number == fn0 + i,
                fn0 + k <= u32::MAX,
                self.spec == old(self).spec,
                self.params == old(self).params,
                self.options == old(self).options,
                self.channels == old(self).channels,
                sink.accepted().len() == acc0.len() + i,
                sink.accepted().take(acc0.len() as int) == acc0,
                forall|j: int|
                    0 <= j < i ==> flac_packet(
                        #[trigger] sink.accepted()[acc0.len() + j],
                        flac_block_frame(
                            data.subrange(j * block_samples, (j + 1) * block_samples),
                            ch as nat,
                            (fn0 + j) as u32,
                            self.spec,
                            self.options,
                            bsz,
                        ),
                        (pts0 + j * bsz) as u64,
                        bsz as u64,
                    ),
            decreases k - i,
        {
            proof {
                assert((i + 1) * block_samples <= k * block_samples) by (nonlinear_arith)
                    requires
                        i < k,
                        block_samples > 0,
                ;
                assert(off + block_samples == (i + 1) * block_samples) by (nonlinear_arith)
                    requires
                        off == i * block_samples,
                ;
                assert((i + 1) * bsz <= k * bsz) by (nonlinear_arith)
                    requires
                        i < k,
                ;
                assert(i * bsz + bsz == (i + 1) * bsz) by (nonlinear_arith);
            }
            let mut block: Vec<i64> = Vec::new();
            let mut j: usize = 0;
            proof {
                assert(block@ =~= buf@.subrange(off as int, off as int));
            }
            while j < block_samples
                invariant
                    j <= block_samples,
                    off + block_samples <= blen,
                    blen == buf@.len(),
                    block@ == buf@.subrange(off as int, (off + j) as int),
                decreases block_samples - j,
            {
                block.push(buf[off + j]);
                j = j + 1;
                proof {
                    assert(block@ =~= buf@.subrange(off as int, (off + j) as int));
                }
            }
            proof {
                assert forall|q: int| 0 <= q < block@.len() implies -8_388_608 <= #[trigger] block@[q]
                    <= 8_388_607 by {
                    assert(block@[q] == data[off + q]);
                }
            }
            let ghost before = sink.accepted();
            let r = self.encode_block(block.as_slice(), bsz, sink);
            match r {
                Ok(()) => {},
                Err(e) => {
                    return Err(e);
                },
            }
            proof {
                assert forall|jj: int| 0 <= jj < i + 1 implies flac_packet(
                    #[trigger] sink.accepted()[acc0.len() + jj],
                    flac_block_frame(
                        data.subrange(jj * block_samples, (jj + 1) * block_samples),
                        ch as nat,
                        (fn0 + jj) as u32,
                        self.spec,
                        self.options,
                        bsz,
                    ),
                    (pts0 + jj * bsz) as u64,
                    bsz as u64,
                ) by {
                    if jj < i {
                        assert(sink.accepted()[acc0.len() + jj] == before[acc0.len() + jj]);
                    }
                }
                assert(sink.accepted().take(acc0.len() as int) =~= acc0);
            }
            off = off + block_samples;
            i = i + 1;
        }
        let mut rest: Vec<i64> = Vec::new();
        let mut j: usize = off;
        proof {
            assert(rest@ =~= buf@.subrange(off as int, off as int));
        }
        while j < blen
            invariant
                off <= j <= blen,
                blen == buf@.len(),
                rest@ == buf@.subrange(off as int, j as int),
            decreases blen - j,
        {
            rest.push(buf[j]);
            j = j + 1;
            proof {
                assert(rest@ =~= buf@.subrange(off as int, j as int));
            }
        }
        proof {
            assert(rest@ =~= data.skip((k * block_samples) as int));
            assert(rest@.len() < block_samples) by (nonlinear_arith)
                requires
                    rest@.len() == data.len() - k * block_samples,
                    data.len() < (k + 1) * block_samples,
            ;
            assert(data.len() % (ch as nat) == 0) by {
                assert(pend.len() % (ch as nat) == 0);
                assert(samples@.len() % (ch as nat) == 0);
                vstd::arithmetic::div_mod::lemma_add_mod_noop(pend.len() as int, samples@.len() as int, ch as int);
                vstd::arithmetic::div_mod::lemma_small_mod(0, ch as nat);
                assert(data.len() == pend.len() + samples@.len());
            }
            assert(rest@.len() % (ch as nat) == 0) by {
                vstd::arithmetic::div_mod::lemma_mod_multiples_basic((k * bsz) as int, ch as int);
                assert(k * block_samples == (k * bsz) * ch) by (nonlinear_arith)
                    requires
                        block_samples == bsz * ch,
                ;
                vstd::arithmetic::div_mod::lemma_sub_mod_noop(data.len() as int, (k * block_samples) as int, ch as int);
            }
            assert(small(rest@)) by {
                assert forall|q: int| 0 <= q < rest@.len() implies -8_388_608 <= #[trigger] rest@[q]
                    <= 8_388_607 by {
                    assert(rest@[q] == data[off + q]);
                }
            }
        }
        self.pending = rest;
        Ok(())
    }

    /// Codes what is pending as one last, shorter frame.
    fn flush<S: PacketSink>(&mut self, sink: &mut S) -> (r: Result<(), Error>)
        ensures
            old(self).spec_pending().len() == 0 ==> r is Ok && *final(self) == *old(self)
                && final(sink).accepted() == old(sink).accepted(),
            ({
                let ch = popcount(old(self).spec_input().channels.0);
                let n = old(self).spec_pending().len() / ch;
                old(self).spec_pending().len() != 0 && old(self).spec_next_pts() + n <= u64::MAX
                    && old(self).spec_frame_number() < u32::MAX && old(sink).infallible() ==> r is Ok
            }),
            r is Ok && old(self).spec_pending().len() != 0 ==> {
                let ch = popcount(old(self).spec_input().channels.0);
                let n = old(self).spec_pending().len() / ch;
                &&& final(sink).accepted().len() == old(sink).accepted().len() + 1
                &&& final(sink).accepted().take(old(sink).accepted().len() as int) == old(sink).accepted()
                &&& flac_packet(
                    final(sink).accepted().last(),
                    flac_block_frame(
                        old(self).spec_pending(),
                        ch,
                        old(self).spec_frame_number(),
                        old(self).spec_input(),
                        old(self).spec_options(),
                        n as u16,
                    ),
                    old(self).spec_next_pts(),
                    n as u64,
                )
                &&& final(self).spec_pending().len() == 0
                &&& final(self).spec_next_pts() == old(self).spec_next_pts() + n
                &&& final(self).spec_frame_number() == old(self).spec_frame_number() + 1
                &&& final(self).spec_input() == old(self).spec_input()
                &&& final(self).spec_options() == old(self).spec_options()
                &&& final(self).spec_params() == old(self).spec_params()
            },
    {
        if self.pending.len() == 0 {
            return Ok(());
        }
        if self.pending.len() % self.channels != 0 {
            return Err(Error::InvalidState("pending flac samples are not aligned to complete frames"));
        }
        let n = self.pending.len() / self.channels;
        proof {
            assert(n < self.options.block_size) by (nonlinear_arith)
                requires
                    n == self.pending@.len() / (self.channels as nat),
                    self.pending@.len() < self.options.block_size * self.channels,
                    self.channels >= 1,
            ;
            assert(self.pending@.len() == n * self.channels) by (nonlinear_arith)
                requires
                    n == self.pending@.len() / (self.channels as nat),
                    self.pending@.len() % (self.channels as nat) == 0,
                    self.channels >= 1,
            ;
        }
        proof {
            assert(n >= 1) by (nonlinear_arith)
                requires
                    self.pending@.len() == n * self.channels,
                    self.pending@.len() > 0,
            ;
        }
        let remaining_frames = n as u16;
        if remaining_frames as u64 > u64::MAX - self.next_pts {
            return Err(Error::InvalidState("timestamp overflow"));
        }
        if self.frame_number == u32::MAX {
            return Err(Error::InvalidState("frame number overflow"));
        }
        let mut block: Vec<i64> = Vec::new();
        std::mem::swap(&mut block, &mut self.pending);
        proof {
            assert(self.pending@.len() < self.options.block_size * self.channels) by (nonlinear_arith)
                requires
                    self.pending@.len() == 0,
                    self.options.block_size >= 16,
                    self.channels >= 1,
            ;
        }
        self.encode_block(block.as_slice(), remaining_frames, sink)
    }

    /// Forgets pending samples and restarts timestamps and frame numbers.
    fn reset(&mut self) -> (r: Result<(), Error>)
        ensures
            r is Ok,
            final(self).spec_pending().len() == 0,
            final(self).spec_next_pts() == 0,
            final(self).spec_frame_number() == 0,
            final(self).spec_input() == old(self).spec_input(),
            final(self).spec_options() == old(self).spec_options(),
            final(self).spec_params() == old(self).spec_params(),
    {
        self.pending = Vec::new();
        self.next_pts = 0;
        self.frame_number = 0;
        proof {
            assert(self.pending@.len() < self.options.block_size * self.channels) by (nonlinear_arith)
                requires
                    self.pending@.len() == 0,
                    self.options.block_size >= 16,
                    self.channels >= 1,
            ;
        }
        Ok(())
    }
}

} // verus!
