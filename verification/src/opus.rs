//! The Opus encoder: options and their checks, packetization into fixed
//! frames, end padding and the stream metadata; the coding itself is the
//! `mousiki` backend's.
use vstd::prelude::*;

use crate::audio::{popcount, AudioBufferRef, AudioSpec, ChannelLayout, SampleFormat};
use crate::codecs::{AudioEncoder, CodecId, CodecParameters, CodecSpecific, OpusStreamMapping, PacketSink};
use crate::error::Error;
use crate::opus_backend::{
    backend_bitrate, backend_build, backend_builder, backend_complexity, backend_dtx, backend_encode, backend_encode_24bit, backend_frame_duration, backend_inband_fec,
    backend_lookahead, backend_lsb_depth, backend_max_bandwidth, backend_packet_loss_perc,
    backend_prediction_disabled, backend_reset, backend_signal, backend_vbr,
    backend_vbr_constraint, backend_rate_ok, backend_settings_ok, opus_lookahead, BackendBuilder, BackendSettings, pcm16_view, pcm24_view, Backend, BackendBuildError,
    BackendCtlError, BackendEncodeError, BackendInitError, OpusApplication, OpusBandwidth,
    OpusBitrate, OpusChannelCount, OpusFrameDuration, OpusSignal,
};
use crate::packet::{EncodedPacket, PacketFlags};
use crate::units::Timestamp;

verus! {

/// The default packet buffer: six maximal 20 ms frames.
pub const DEFAULT_MAX_PACKET_BYTES: usize = 1276 * 6;

/// Options of the Opus encoder; `None` leaves a setting to the backend.
#[derive(Clone, Copy, Debug, PartialEq, Eq)]
pub struct OpusEncoderOptions {
    pub application: OpusApplication,
    pub bitrate: Option<OpusBitrate>,
    pub complexity: Option<u8>,
    pub vbr: Option<bool>,
    pub constrained_vbr: Option<bool>,
    pub max_bandwidth: Option<OpusBandwidth>,
    pub signal: Option<OpusSignal>,
    pub inband_fec: Option<bool>,
    pub packet_loss_perc: Option<u8>,
    pub dtx: Option<bool>,
    pub lsb_depth: Option<u8>,
    pub frame_duration: OpusFrameDuration,
    pub prediction_disabled: Option<bool>,
    pub mapping_family: Option<u8>,
    pub max_packet_bytes: usize,
    pub pad_flush: bool,
}

pub open spec fn default_opus_options() -> OpusEncoderOptions {
    OpusEncoderOptions {
        application: OpusApplication::Audio,
        bitrate: None,
        complexity: None,
        vbr: None,
        constrained_vbr: None,
        max_bandwidth: None,
        signal: None,
        inband_fec: None,
        packet_loss_perc: None,
        dtx: None,
        lsb_depth: None,
        frame_duration: OpusFrameDuration::Ms20,
        prediction_disabled: None,
        mapping_family: None,
        max_packet_bytes: 7656,
        pad_flush: true,
    }
}

impl Default for OpusEncoderOptions {
    fn default() -> (r: Self)
        ensures
            r == default_opus_options(),
    {
        OpusEncoderOptions {
            application: OpusApplication::Audio,
            bitrate: None,
            complexity: None,
            vbr: None,
            constrained_vbr: None,
            max_bandwidth: None,
            signal: None,
            inband_fec: None,
            packet_loss_perc: None,
            dtx: None,
            lsb_depth: None,
            frame_duration: OpusFrameDuration::Ms20,
            prediction_disabled: None,
            mapping_family: None,
            max_packet_bytes: DEFAULT_MAX_PACKET_BYTES,
            pad_flush: true,
        }
    }
}

/// The sample rates Opus codes at.
pub open spec fn opus_rate_ok(rate: u32) -> bool {
    rate == 8000 || rate == 12000 || rate == 16000 || rate == 24000 || rate == 48000
}

/// The input shapes the encoder accepts: an Opus rate, mono or stereo,
/// 16-bit, 24-bit or 32-bit float samples.
pub open spec fn opus_spec_ok(spec: AudioSpec) -> bool {
    &&& opus_rate_ok(spec.sample_rate)
    &&& (spec.channels.0 == 4 || spec.channels.0 == 3)
    &&& (spec.sample_format == SampleFormat::I16 || spec.sample_format == SampleFormat::I24
        || spec.sample_format == SampleFormat::F32)
}

/// The option values the encoder accepts.
pub open spec fn opus_options_ok(o: OpusEncoderOptions) -> bool {
    &&& o.max_packet_bytes > 0
    &&& o.bitrate != Some(OpusBitrate::Bits(0))
    &&& (o.complexity matches Some(c) ==> c <= 10)
    &&& (o.packet_loss_perc matches Some(p) ==> p <= 100)
    &&& o.lsb_depth != Some(0u8)
}

/// Checks the input shape; every refusal is `Unsupported`.
pub fn validate_spec(spec: AudioSpec) -> (r: Result<(), Error>)
    ensures
        r is Ok <==> opus_spec_ok(spec),
        r is Err ==> r->Err_0 matches Error::Unsupported(_),
{
    let rate = spec.sample_rate;
    if !(rate == 8000 || rate == 12000 || rate == 16000 || rate == 24000 || rate == 48000) {
        return Err(
            Error::Unsupported(
                "opus encoder input sample rate must be one of 8000, 12000, 16000, 24000, or 48000",
            ),
        );
    }
    let bits = spec.channels.bits();
    if bits != 4 && bits != 3 {
        return Err(
            Error::Unsupported(
                "opus top-level encoder currently supports only mono or stereo channel layouts",
            ),
        );
    }
    match spec.sample_format {
        SampleFormat::I16 => Ok(()),
        SampleFormat::I24 => Ok(()),
        SampleFormat::F32 => Ok(()),
        _ => Err(Error::Unsupported("opus encoder input sample format must be i16, i24, or f32")),
    }
}

/// Checks the options; every refusal is `InvalidArgument`.
pub fn validate_options(options: OpusEncoderOptions) -> (r: Result<(), Error>)
    ensures
        r is Ok <==> opus_options_ok(options),
        r is Err ==> r->Err_0 matches Error::InvalidArgument(_),
{
    if options.max_packet_bytes == 0 {
        return Err(Error::InvalidArgument("opus max_packet_bytes must be greater than zero"));
    }
    match options.bitrate {
        Some(OpusBitrate::Bits(b)) => {
            if b == 0 {
                return Err(Error::InvalidArgument("opus bitrate must be greater than zero"));
            }
        },
        _ => {},
    }
    match options.complexity {
        Some(value) => {
            if value > 10 {
                return Err(Error::InvalidArgument("opus complexity must be in the range 0..=10"));
            }
        },
        None => {},
    }
    match options.packet_loss_perc {
        Some(value) => {
            if value > 100 {
                return Err(Error::InvalidArgument("opus packet_loss_perc must be in the range 0..=100"));
            }
        },
        None => {},
    }
    match options.lsb_depth {
        Some(value) => {
            if value == 0 {
                return Err(Error::InvalidArgument("opus lsb_depth must be greater than zero"));
            }
        },
        None => {},
    }
    Ok(())
}

/// The family-0 mapping of a mono or stereo layout: one stream, coupled when
/// stereo, no table.
pub open spec fn family0_mapping_of(bits: u32) -> (u8, u8, u8) {
    if bits == 4 {
        (0u8, 1u8, 0u8)
    } else {
        (0u8, 1u8, 1u8)
    }
}

/// The family-0 stream mapping of a mono or stereo layout, `Unsupported`
/// for any other.
pub fn family0_stream_mapping(layout: ChannelLayout) -> (r: Result<OpusStreamMapping, Error>)
    ensures
        r is Ok <==> (layout.0 == 4 || layout.0 == 3),
        r is Ok ==> {
            let m = r->Ok_0;
            &&& (m.family, m.stream_count, m.coupled_stream_count) == family0_mapping_of(layout.0)
            &&& m.mapping@.len() == 0
        },
        r is Err ==> r->Err_0 matches Error::Unsupported(_),
{
    let bits = layout.bits();
    if bits == 4 {
        Ok(OpusStreamMapping::new(0, 1, 0, Vec::new()))
    } else if bits == 3 {
        Ok(OpusStreamMapping::new(0, 1, 1, Vec::new()))
    } else {
        Err(Error::Unsupported("opus mapping family 0 supports only mono or stereo"))
    }
}

/// The stream mapping for the requested family (0 when none is requested):
/// family 0 is built here; other families are refused with `Unsupported`,
/// since the multistream backend is not wired.
pub fn resolve_stream_mapping(layout: ChannelLayout, requested_family: Option<u8>) -> (r: Result<
    OpusStreamMapping,
    Error,
>)
    ensures
        r is Ok <==> (requested_family is None || requested_family == Some(0u8)) && (layout.0 == 4
            || layout.0 == 3),
        r is Ok ==> {
            let m = r->Ok_0;
            &&& (m.family, m.stream_count, m.coupled_stream_count) == family0_mapping_of(layout.0)
            &&& m.mapping@.len() == 0
        },
        r is Err ==> r->Err_0 matches Error::Unsupported(_),
{
    let family: u8 = match requested_family {
        Some(f) => f,
        None => 0,
    };
    if family == 0 {
        family0_stream_mapping(layout)
    } else if family == 1 {
        Err(
            Error::Unsupported(
                "opus surround/family-1 metadata is supported in CodecParameters and Ogg headers, but the multistream encoder backend is not wired yet",
            ),
        )
    } else if family == 255 {
        Err(
            Error::Unsupported(
                "opus family-255 metadata is supported in CodecParameters and Ogg headers, but the multistream encoder backend is not wired yet",
            ),
        )
    } else {
        Err(
            Error::Unsupported(
                "requested opus mapping family is not supported by the current encoder implementation",
            ),
        )
    }
}

/// The backend channel count of a mono or stereo layout, with the count.
pub fn to_mousiki_channels(layout: ChannelLayout) -> (r: Result<(OpusChannelCount, usize), Error>)
    ensures
        r is Ok <==> (layout.0 == 4 || layout.0 == 3),
        r is Ok ==> (layout.0 == 4 ==> r->Ok_0 == (OpusChannelCount::Mono, 1usize)) && (layout.0 == 3
            ==> r->Ok_0 == (OpusChannelCount::Stereo, 2usize)),
        r is Err ==> r->Err_0 matches Error::Unsupported(_),
{
    let bits = layout.bits();
    if bits == 4 {
        Ok((OpusChannelCount::Mono, 1))
    } else if bits == 3 {
        Ok((OpusChannelCount::Stereo, 2))
    } else {
        Err(
            Error::Unsupported(
                "opus top-level encoder currently supports only mono or stereo channel layouts",
            ),
        )
    }
}

/// The bitrate as the backend takes it: a count of bits must fit `i32`.
pub fn to_mousiki_bitrate(value: OpusBitrate) -> (r: Result<OpusBitrate, Error>)
    ensures
        r is Ok <==> !(value matches OpusBitrate::Bits(b) && b > i32::MAX),
        r is Ok ==> r->Ok_0 == value,
        r is Err ==> r->Err_0 matches Error::Unsupported(_),
{
    match value {
        OpusBitrate::Bits(bits) => {
            if bits > i32::MAX as u32 {
                return Err(Error::Unsupported("opus bitrate exceeds i32"));
            }
            Ok(value)
        },
        _ => Ok(value),
    }
}

/// The samples per channel of one frame of `fd` at `rate`; `None` when the
/// backend chooses.
pub open spec fn opus_frame_samples(fd: OpusFrameDuration, rate: u32) -> Option<nat> {
    match fd {
        OpusFrameDuration::Auto => None,
        OpusFrameDuration::Ms2_5 => Some((rate / 400) as nat),
        OpusFrameDuration::Ms5 => Some((rate / 200) as nat),
        OpusFrameDuration::Ms10 => Some((rate / 100) as nat),
        OpusFrameDuration::Ms20 => Some((rate / 50) as nat),
        OpusFrameDuration::Ms40 => Some((rate / 25) as nat),
        OpusFrameDuration::Ms60 => Some(((rate * 3) / 50) as nat),
        OpusFrameDuration::Ms80 => Some(((rate * 2) / 25) as nat),
        OpusFrameDuration::Ms100 => Some((rate / 10) as nat),
        OpusFrameDuration::Ms120 => Some(((rate * 3) / 25) as nat),
    }
}

/// A frame duration in half milliseconds; `None` when the backend chooses.
pub open spec fn duration_half_ms(fd: OpusFrameDuration) -> Option<nat> {
    match fd {
        OpusFrameDuration::Auto => None,
        OpusFrameDuration::Ms2_5 => Some(5),
        OpusFrameDuration::Ms5 => Some(10),
        OpusFrameDuration::Ms10 => Some(20),
        OpusFrameDuration::Ms20 => Some(40),
        OpusFrameDuration::Ms40 => Some(80),
        OpusFrameDuration::Ms60 => Some(120),
        OpusFrameDuration::Ms80 => Some(160),
        OpusFrameDuration::Ms100 => Some(200),
        OpusFrameDuration::Ms120 => Some(240),
    }
}

/// A fixed frame lasts exactly its duration: at every rate the backend runs
/// at, a frame of `d` milliseconds holds `rate * d / 1000` samples per
/// channel; only the backend's own choice leaves the frame size open.
pub proof fn lemma_frame_samples_match_duration(fd: OpusFrameDuration, rate: u32)
    requires
        backend_rate_ok(rate),
    ensures
        opus_frame_samples(fd, rate) is None <==> fd == OpusFrameDuration::Auto,
        opus_frame_samples(fd, rate) is Some ==> opus_frame_samples(fd, rate)->0 * 2000 == rate
            * duration_half_ms(fd)->0,
{
}

/// Samples per channel of one frame.
pub fn frame_samples_for_duration(frame_duration: OpusFrameDuration, sample_rate: u32) -> (r: Option<
    usize,
>)
    requires
        sample_rate <= 48000,
    ensures
        match opus_frame_samples(frame_duration, sample_rate) {
            Some(n) => r == Some(n as usize),
            None => r is None,
        },
{
    let samples: u32 = match frame_duration {
        OpusFrameDuration::Auto => {
            return None;
        },
        OpusFrameDuration::Ms2_5 => sample_rate / 400,
        OpusFrameDuration::Ms5 => sample_rate / 200,
        OpusFrameDuration::Ms10 => sample_rate / 100,
        OpusFrameDuration::Ms20 => sample_rate / 50,
        OpusFrameDuration::Ms40 => sample_rate / 25,
        OpusFrameDuration::Ms60 => (sample_rate * 3) / 50,
        OpusFrameDuration::Ms80 => (sample_rate * 2) / 25,
        OpusFrameDuration::Ms100 => sample_rate / 10,
        OpusFrameDuration::Ms120 => (sample_rate * 3) / 25,
    };
    Some(samples as usize)
}

/// Whole frames of `sample_count` interleaved samples.
pub fn frame_count(sample_count: usize, channels: usize) -> (r: Result<u64, Error>)
    ensures
        channels == 0 ==> r is Err && r->Err_0 matches Error::InvalidState(_),
        channels != 0 ==> (r is Ok <==> sample_count % channels == 0),
        r is Ok ==> r->Ok_0 == sample_count / channels,
        channels != 0 && r is Err ==> r->Err_0 matches Error::InvalidArgument(_),
{
    if channels == 0 {
        return Err(Error::InvalidState("encoder has zero channels"));
    }
    if sample_count % channels != 0 {
        return Err(Error::InvalidArgument("input buffer sample count is not divisible by channel count"));
    }
    Ok((sample_count / channels) as u64)
}

pub fn map_init_error(error: BackendInitError) -> (r: Error)
    ensures
        r == map_init_error_spec(error),
{
    match error {
        BackendInitError::BadArgument => Error::InvalidArgument(
            "invalid opus encoder initialization arguments",
        ),
        BackendInitError::SilkInit => Error::InvalidState("failed to initialize opus encoder internals"),
        BackendInitError::CeltInit => Error::InvalidState("failed to initialize opus encoder internals"),
    }
}

pub fn map_ctl_error(error: BackendCtlError) -> (r: Error)
    ensures
        r == map_ctl_error_spec(error),
{
    match error {
        BackendCtlError::BadArgument => Error::InvalidArgument("invalid opus encoder control value"),
        BackendCtlError::Unimplemented => Error::Unsupported("opus encoder control is unimplemented"),
        BackendCtlError::Silk => Error::InvalidState("opus silk control operation failed"),
        BackendCtlError::InternalError => Error::InvalidState("opus encoder internal error"),
    }
}

pub fn map_builder_error(error: BackendBuildError) -> (r: Error)
    ensures
        match error {
            BackendBuildError::Init(e) => r == map_init_error_spec(e),
            BackendBuildError::Ctl(e) => r == map_ctl_error_spec(e),
        },
{
    match error {
        BackendBuildError::Init(e) => map_init_error(e),
        BackendBuildError::Ctl(e) => map_ctl_error(e),
    }
}

pub open spec fn map_init_error_spec(error: BackendInitError) -> Error {
    match error {
        BackendInitError::BadArgument => Error::InvalidArgument("invalid opus encoder initialization arguments"),
        _ => Error::InvalidState("failed to initialize opus encoder internals"),
    }
}

pub open spec fn map_ctl_error_spec(error: BackendCtlError) -> Error {
    match error {
        BackendCtlError::BadArgument => Error::InvalidArgument("invalid opus encoder control value"),
        BackendCtlError::Unimplemented => Error::Unsupported("opus encoder control is unimplemented"),
        BackendCtlError::Silk => Error::InvalidState("opus silk control operation failed"),
        BackendCtlError::InternalError => Error::InvalidState("opus encoder internal error"),
    }
}

pub open spec fn map_encode_error_spec(error: BackendEncodeError) -> Error {
    match error {
        BackendEncodeError::BadArgument => Error::InvalidArgument("invalid opus input or frame size"),
        BackendEncodeError::BufferTooSmall => Error::InvalidArgument("opus packet buffer too small"),
        BackendEncodeError::InternalError => Error::InvalidState("opus encoder internal error"),
        BackendEncodeError::Unimplemented => Error::Unsupported("requested opus encode path is unimplemented"),
        BackendEncodeError::Silk => Error::InvalidState("opus silk encode operation failed"),
    }
}

/// An error that the backend's encode call reported.
pub open spec fn is_backend_encode_error(e: Error) -> bool {
    exists|b: BackendEncodeError| e == map_encode_error_spec(b)
}

pub fn map_encode_error(error: BackendEncodeError) -> (r: Error)
    ensures
        r == map_encode_error_spec(error),
{
    match error {
        BackendEncodeError::BadArgument => Error::InvalidArgument("invalid opus input or frame size"),
        BackendEncodeError::BufferTooSmall => Error::InvalidArgument("opus packet buffer too small"),
        BackendEncodeError::InternalError => Error::InvalidState("opus encoder internal error"),
        BackendEncodeError::Unimplemented => Error::Unsupported(
            "requested opus encode path is unimplemented",
        ),
        BackendEncodeError::Silk => Error::InvalidState("opus silk encode operation failed"),
    }
}

/// Builds an `OpusEncoder`.
#[derive(Debug)]
pub struct OpusEncoderBuilder {
    spec: AudioSpec,
    options: OpusEncoderOptions,
}

impl OpusEncoderBuilder {
    pub closed spec fn spec_spec(&self) -> AudioSpec {
        self.spec
    }

    pub closed spec fn spec_options(&self) -> OpusEncoderOptions {
        self.options
    }

    pub fn new(spec: AudioSpec) -> (r: Self)
        ensures
            r.spec_spec() == spec,
            r.spec_options() == default_opus_options(),
    {
        OpusEncoderBuilder { spec, options: OpusEncoderOptions::default() }
    }

    pub fn options(self, options: OpusEncoderOptions) -> (r: Self)
        ensures
            r.spec_spec() == self.spec_spec(),
            r.spec_options() == options,
    {
        OpusEncoderBuilder { spec: self.spec, options }
    }

    pub fn application(self, application: OpusApplication) -> (r: Self)
        ensures
            r.spec_spec() == self.spec_spec(),
            r.spec_options() == (OpusEncoderOptions { application, ..self.spec_options() }),
    {
        OpusEncoderBuilder { spec: self.spec, options: OpusEncoderOptions { application, ..self.options } }
    }

    pub fn bitrate(self, bitrate: OpusBitrate) -> (r: Self)
        ensures
            r.spec_spec() == self.spec_spec(),
            r.spec_options() == (OpusEncoderOptions { bitrate: Some(bitrate), ..self.spec_options() }),
    {
        OpusEncoderBuilder {
            spec: self.spec,
            options: OpusEncoderOptions { bitrate: Some(bitrate), ..self.options },
        }
    }

    pub fn bitrate_bits(self, bits: u32) -> (r: Self)
        ensures
            r.spec_spec() == self.spec_spec(),
            r.spec_options() == (OpusEncoderOptions {
                bitrate: Some(OpusBitrate::Bits(bits)),
                ..self.spec_options()
            }),
    {
        OpusEncoderBuilder {
            spec: self.spec,
            options: OpusEncoderOptions { bitrate: Some(OpusBitrate::Bits(bits)), ..self.options },
        }
    }

    pub fn complexity(self, complexity: u8) -> (r: Self)
        ensures
            r.spec_spec() == self.spec_spec(),
            r.spec_options() == (OpusEncoderOptions {
                complexity: Some(complexity),
                ..self.spec_options()
            }),
    {
        OpusEncoderBuilder {
            spec: self.spec,
            options: OpusEncoderOptions { complexity: Some(complexity), ..self.options },
        }
    }

    pub fn vbr(self, enabled: bool) -> (r: Self)
        ensures
            r.spec_spec() == self.spec_spec(),
            r.spec_options() == (OpusEncoderOptions { vbr: Some(enabled), ..self.spec_options() }),
    {
        OpusEncoderBuilder { spec: self.spec, options: OpusEncoderOptions { vbr: Some(enabled), ..self.options } }
    }

    pub fn constrained_vbr(self, enabled: bool) -> (r: Self)
        ensures
            r.spec_spec() == self.spec_spec(),
            r.spec_options() == (OpusEncoderOptions {
                constrained_vbr: Some(enabled),
                ..self.spec_options()
            }),
    {
        OpusEncoderBuilder {
            spec: self.spec,
            options: OpusEncoderOptions { constrained_vbr: Some(enabled), ..self.options },
        }
    }

    pub fn max_bandwidth(self, bandwidth: OpusBandwidth) -> (r: Self)
        ensures
            r.spec_spec() == self.spec_spec(),
            r.spec_options() == (OpusEncoderOptions {
                max_bandwidth: Some(bandwidth),
                ..self.spec_options()
            }),
    {
        OpusEncoderBuilder {
            spec: self.spec,
            options: OpusEncoderOptions { max_bandwidth: Some(bandwidth), ..self.options },
        }
    }

    pub fn signal(self, signal: OpusSignal) -> (r: Self)
        ensures
            r.spec_spec() == self.spec_spec(),
            r.spec_options() == (OpusEncoderOptions { signal: Some(signal), ..self.spec_options() }),
    {
        OpusEncoderBuilder {
            spec: self.spec,
            options: OpusEncoderOptions { signal: Some(signal), ..self.options },
        }
    }

    pub fn inband_fec(self, enabled: bool) -> (r: Self)
        ensures
            r.spec_spec() == self.spec_spec(),
            r.spec_options() == (OpusEncoderOptions {
                inband_fec: Some(enabled),
                ..self.spec_options()
            }),
    {
        OpusEncoderBuilder {
            spec: self.spec,
            options: OpusEncoderOptions { inband_fec: Some(enabled), ..self.options },
        }
    }

    pub fn packet_loss_perc(self, percent: u8) -> (r: Self)
        ensures
            r.spec_spec() == self.spec_spec(),
            r.spec_options() == (OpusEncoderOptions {
                packet_loss_perc: Some(percent),
                ..self.spec_options()
            }),
    {
        OpusEncoderBuilder {
            spec: self.spec,
            options: OpusEncoderOptions { packet_loss_perc: Some(percent), ..self.options },
        }
    }

    pub fn dtx(self, enabled: bool) -> (r: Self)
        ensures
            r.spec_spec() == self.spec_spec(),
            r.spec_options() == (OpusEncoderOptions { dtx: Some(enabled), ..self.spec_options() }),
    {
        OpusEncoderBuilder { spec: self.spec, options: OpusEncoderOptions { dtx: Some(enabled), ..self.options } }
    }

    pub fn lsb_depth(self, bits: u8) -> (r: Self)
        ensures
            r.spec_spec() == self.spec_spec(),
            r.spec_options() == (OpusEncoderOptions { lsb_depth: Some(bits), ..self.spec_options() }),
    {
        OpusEncoderBuilder {
            spec: self.spec,
            options: OpusEncoderOptions { lsb_depth: Some(bits), ..self.options },
        }
    }

    pub fn frame_duration(self, frame_duration: OpusFrameDuration) -> (r: Self)
        ensures
            r.spec_spec() == self.spec_spec(),
            r.spec_options() == (OpusEncoderOptions { frame_duration, ..self.spec_options() }),
    {
        OpusEncoderBuilder {
            spec: self.spec,
            options: OpusEncoderOptions { frame_duration, ..self.options },
        }
    }

    pub fn prediction_disabled(self, disabled: bool) -> (r: Self)
        ensures
            r.spec_spec() == self.spec_spec(),
            r.spec_options() == (OpusEncoderOptions {
                prediction_disabled: Some(disabled),
                ..self.spec_options()
            }),
    {
        OpusEncoderBuilder {
            spec: self.spec,
            options: OpusEncoderOptions { prediction_disabled: Some(disabled), ..self.options },
        }
    }

    pub fn mapping_family(self, family: u8) -> (r: Self)
        ensures
            r.spec_spec() == self.spec_spec(),
            r.spec_options() == (OpusEncoderOptions {
                mapping_family: Some(family),
                ..self.spec_options()
            }),
    {
        OpusEncoderBuilder {
            spec: self.spec,
            options: OpusEncoderOptions { mapping_family: Some(family), ..self.options },
        }
    }

    pub fn max_packet_bytes(self, bytes: usize) -> (r: Self)
        ensures
            r.spec_spec() == self.spec_spec(),
            r.spec_options() == (OpusEncoderOptions { max_packet_bytes: bytes, ..self.spec_options() }),
    {
        OpusEncoderBuilder {
            spec: self.spec,
            options: OpusEncoderOptions { max_packet_bytes: bytes, ..self.options },
        }
    }

    pub fn pad_flush(self, pad: bool) -> (r: Self)
        ensures
            r.spec_spec() == self.spec_spec(),
            r.spec_options() == (OpusEncoderOptions { pad_flush: pad, ..self.spec_options() }),
    {
        OpusEncoderBuilder { spec: self.spec, options: OpusEncoderOptions { pad_flush: pad, ..self.options } }
    }

    pub fn build(self) -> (r: Result<OpusEncoder, Error>)
        ensures
            opus_build_outcome(self.spec_spec(), self.spec_options(), r),
    {
        OpusEncoder::with_options(self.spec, self.options)
    }
}

/// Samples waiting for a full frame, in the input's format.
#[derive(Debug)]
pub enum PendingPcm {
    I16(Vec<i16>),
    I24(Vec<i32>),
}

/// The pending samples as numbers.
pub open spec fn pending_view(p: PendingPcm) -> Seq<int> {
    match p {
        PendingPcm::I16(v) => Seq::new(v@.len(), |i: int| v@[i] as int),
        PendingPcm::I24(v) => Seq::new(v@.len(), |i: int| v@[i] as int),
    }
}

/// The samples of a buffer as numbers (empty for the formats the encoder
/// does not buffer).
pub open spec fn input_view(input: AudioBufferRef) -> Seq<int> {
    match input {
        AudioBufferRef::I16(d) => Seq::new(d@.len(), |i: int| d@[i] as int),
        AudioBufferRef::I24(d) => Seq::new(d@.len(), |i: int| d@[i] as int),
        _ => Seq::empty(),
    }
}

pub open spec fn pending_format(p: PendingPcm) -> SampleFormat {
    match p {
        PendingPcm::I16(_) => SampleFormat::I16,
        PendingPcm::I24(_) => SampleFormat::I24,
    }
}

impl PendingPcm {
    /// An empty buffer for 16- or 24-bit input. Floating-point input has no
    /// buffer here, so it is `Unsupported`, as are the other formats.
    pub fn with_format(sample_format: SampleFormat) -> (r: Result<Self, Error>)
        ensures
            r is Ok <==> (sample_format == SampleFormat::I16 || sample_format == SampleFormat::I24),
            r is Ok ==> pending_view(r->Ok_0).len() == 0 && pending_format(r->Ok_0) == sample_format,
            r is Err ==> r->Err_0 matches Error::Unsupported(_),
    {
        match sample_format {
            SampleFormat::I16 => Ok(PendingPcm::I16(Vec::new())),
            SampleFormat::I24 => Ok(PendingPcm::I24(Vec::new())),
            SampleFormat::F32 => Err(Error::Unsupported("opus f32 input is coded on the floating-point path, which this encoder does not carry")),
            _ => Err(Error::Unsupported("opus encoder input sample format must be i16, i24, or f32")),
        }
    }

    pub fn len(&self) -> (r: usize)
        ensures
            r == pending_view(*self).len(),
    {
        match self {
            PendingPcm::I16(data) => data.len(),
            PendingPcm::I24(data) => data.len(),
        }
    }

    pub fn is_empty(&self) -> (r: bool)
        ensures
            r == (pending_view(*self).len() == 0),
    {
        self.len() == 0
    }

    pub fn clear(&mut self)
        ensures
            pending_view(*final(self)).len() == 0,
            pending_format(*final(self)) == pending_format(*old(self)),
    {
        match self {
            PendingPcm::I16(data) => data.clear(),
            PendingPcm::I24(data) => data.clear(),
        }
    }

    /// Appends samples of the same format; `InvalidState` for another format.
    pub fn extend(&mut self, input: AudioBufferRef<'_>) -> (r: Result<(), Error>)
        ensures
            r is Ok <==> input.spec_sample_format() == pending_format(*old(self)),
            r is Ok ==> pending_view(*final(self)) == pending_view(*old(self)) + input_view(input),
            r is Err ==> *final(self) == *old(self) && r->Err_0 matches Error::InvalidState(_),
            pending_format(*final(self)) == pending_format(*old(self)),
    {
        match (self, input) {
            (PendingPcm::I16(dst), AudioBufferRef::I16(src)) => {
                let ghost d0 = dst@;
                let mut i: usize = 0;
                while i < src.len()
                    invariant
                        i <= src@.len(),
                        dst@ == d0 + src@.take(i as int),
                    decreases src@.len() - i,
                {
                    dst.push(src[i]);
                    i = i + 1;
                    proof {
                        assert(dst@ =~= d0 + src@.take(i as int));
                    }
                }
                proof {
                    assert(src@.take(i as int) =~= src@);
                    assert(Seq::new(dst@.len(), |k: int| dst@[k] as int) =~= Seq::new(d0.len(), |k: int| d0[k] as int)
                        + Seq::new(src@.len(), |k: int| src@[k] as int));
                }
                Ok(())
            },
            (PendingPcm::I24(dst), AudioBufferRef::I24(src)) => {
                let ghost d0 = dst@;
                let mut i: usize = 0;
                while i < src.len()
                    invariant
                        i <= src@.len(),
                        dst@ == d0 + src@.take(i as int),
                    decreases src@.len() - i,
                {
                    dst.push(src[i]);
                    i = i + 1;
                    proof {
                        assert(dst@ =~= d0 + src@.take(i as int));
                    }
                }
                proof {
                    assert(src@.take(i as int) =~= src@);
                    assert(Seq::new(dst@.len(), |k: int| dst@[k] as int) =~= Seq::new(d0.len(), |k: int| d0[k] as int)
                        + Seq::new(src@.len(), |k: int| src@[k] as int));
                }
                Ok(())
            },
            _ => Err(Error::InvalidState("pending opus buffer format does not match encoder format")),
        }
    }

    /// A copy of the first `n` samples.
    pub fn front(&self, n: usize) -> (r: PendingPcm)
        requires
            n <= pending_view(*self).len(),
        ensures
            pending_view(r) == pending_view(*self).take(n as int),
            pending_format(r) == pending_format(*self),
    {
        match self {
            PendingPcm::I16(data) => {
                let mut out: Vec<i16> = Vec::new();
                let mut i: usize = 0;
                while i < n
                    invariant
                        i <= n,
                        n <= data@.len(),
                        out@ == data@.take(i as int),
                    decreases n - i,
                {
                    out.push(data[i]);
                    proof {
                        assert(data@.take(i + 1) =~= data@.take(i as int).push(data@[i as int]));
                    }
                    i = i + 1;
                }
                proof {
                    assert(pending_view(PendingPcm::I16(out)) =~= pending_view(*self).take(n as int));
                }
                PendingPcm::I16(out)
            },
            PendingPcm::I24(data) => {
                let mut out: Vec<i32> = Vec::new();
                let mut i: usize = 0;
                while i < n
                    invariant
                        i <= n,
                        n <= data@.len(),
                        out@ == data@.take(i as int),
                    decreases n - i,
                {
                    out.push(data[i]);
                    proof {
                        assert(data@.take(i + 1) =~= data@.take(i as int).push(data@[i as int]));
                    }
                    i = i + 1;
                }
                proof {
                    assert(pending_view(PendingPcm::I24(out)) =~= pending_view(*self).take(n as int));
                }
                PendingPcm::I24(out)
            },
        }
    }

    /// Splits off the first `n` samples.
    pub fn take_front(&mut self, n: usize) -> (r: PendingPcm)
        requires
            n <= pending_view(*old(self)).len(),
        ensures
            pending_view(r) == pending_view(*old(self)).take(n as int),
            pending_view(*final(self)) == pending_view(*old(self)).skip(n as int),
            pending_format(r) == pending_format(*old(self)),
            pending_format(*final(self)) == pending_format(*old(self)),
    {
        match self {
            PendingPcm::I16(data) => {
                let ghost d0 = data@;
                let mut front: Vec<i16> = Vec::new();
                let mut back: Vec<i16> = Vec::new();
                let mut i: usize = 0;
                while i < data.len()
                    invariant
                        i <= d0.len(),
                        n <= d0.len(),
                        data@ == d0,
                        front@ == d0.take(if i < n { i as int } else { n as int }),
                        back@ == (if i < n { Seq::empty() } else { d0.subrange(n as int, i as int) }),
                    decreases d0.len() - i,
                {
                    if i < n {
                        front.push(data[i]);
                    } else {
                        back.push(data[i]);
                    }
                    i = i + 1;
                    proof {
                        assert(front@ =~= d0.take(if i < n { i as int } else { n as int }));
                        assert(back@ =~= (if i < n { Seq::empty() } else { d0.subrange(n as int, i as int) }));
                    }
                }
                *data = back;
                proof {
                    assert(Seq::new(front@.len(), |k: int| front@[k] as int) =~= Seq::new(d0.len(), |k: int| d0[k] as int).take(n as int));
                    assert(Seq::new(data@.len(), |k: int| data@[k] as int) =~= Seq::new(d0.len(), |k: int| d0[k] as int).skip(n as int));
                }
                PendingPcm::I16(front)
            },
            PendingPcm::I24(data) => {
                let ghost d0 = data@;
                let mut front: Vec<i32> = Vec::new();
                let mut back: Vec<i32> = Vec::new();
                let mut i: usize = 0;
                while i < data.len()
                    invariant
                        i <= d0.len(),
                        n <= d0.len(),
                        data@ == d0,
                        front@ == d0.take(if i < n { i as int } else { n as int }),
                        back@ == (if i < n { Seq::empty() } else { d0.subrange(n as int, i as int) }),
                    decreases d0.len() - i,
                {
                    if i < n {
                        front.push(data[i]);
                    } else {
                        back.push(data[i]);
                    }
                    i = i + 1;
                    proof {
                        assert(front@ =~= d0.take(if i < n { i as int } else { n as int }));
                        assert(back@ =~= (if i < n { Seq::empty() } else { d0.subrange(n as int, i as int) }));
                    }
                }
                *data = back;
                proof {
                    assert(Seq::new(front@.len(), |k: int| front@[k] as int) =~= Seq::new(d0.len(), |k: int| d0[k] as int).take(n as int));
                    assert(Seq::new(data@.len(), |k: int| data@[k] as int) =~= Seq::new(d0.len(), |k: int| d0[k] as int).skip(n as int));
                }
                PendingPcm::I24(front)
            },
        }
    }

    /// Appends zero samples up to `n` samples in all.
    pub fn pad_to(&mut self, n: usize)
        requires
            pending_view(*old(self)).len() <= n,
        ensures
            pending_view(*final(self)) == pending_view(*old(self)) + Seq::new(
                (n - pending_view(*old(self)).len()) as nat,
                |i: int| 0int,
            ),
            pending_format(*final(self)) == pending_format(*old(self)),
    {
        match self {
            PendingPcm::I16(data) => {
                let ghost d0 = data@;
                while data.len() < n
                    invariant
                        d0.len() <= data@.len() <= n,
                        data@ == d0 + Seq::new((data@.len() - d0.len()) as nat, |i: int| 0i16),
                    decreases n - data@.len(),
                {
                    data.push(0);
                    proof {
                        assert(data@ =~= d0 + Seq::new((data@.len() - d0.len()) as nat, |i: int| 0i16));
                    }
                }
                proof {
                    assert(Seq::new(data@.len(), |k: int| data@[k] as int) =~= Seq::new(d0.len(), |k: int| d0[k] as int)
                        + Seq::new((n - d0.len()) as nat, |i: int| 0int));
                }
            },
            PendingPcm::I24(data) => {
                let ghost d0 = data@;
                while data.len() < n
                    invariant
                        d0.len() <= data@.len() <= n,
                        data@ == d0 + Seq::new((data@.len() - d0.len()) as nat, |i: int| 0i32),
                    decreases n - data@.len(),
                {
                    data.push(0);
                    proof {
                        assert(data@ =~= d0 + Seq::new((data@.len() - d0.len()) as nat, |i: int| 0i32));
                    }
                }
                proof {
                    assert(Seq::new(data@.len(), |k: int| data@[k] as int) =~= Seq::new(d0.len(), |k: int| d0[k] as int)
                        + Seq::new((n - d0.len()) as nat, |i: int| 0int));
                }
            },
        }
    }
}

/// `p` is an Opus packet starting at sample `pts`, lasting `frames` samples,
/// with `trim_end` padding samples at its end and at most `max` bytes.
pub open spec fn opus_packet(p: EncodedPacket, pts: u64, frames: u64, trim_end: u32, max: usize) -> bool {
    &&& p.pts == Some(Timestamp(pts))
    &&& p.dts == Some(Timestamp(pts))
    &&& p.duration == Some(frames)
    &&& p.trim_start == 0
    &&& p.trim_end == trim_end
    &&& p.flags.0 == 0
    &&& p.data@.len() <= max
}

/// The codec parameters of an encoder for `spec` and `options`; the encoder
/// delay is the backend's lookahead.
pub open spec fn opus_params(spec: AudioSpec, options: OpusEncoderOptions, p: CodecParameters) -> bool {
    &&& p.codec == CodecId::Opus
    &&& p.sample_rate == spec.sample_rate
    &&& p.channels == spec.channels
    &&& p.sample_format is None
    &&& p.bit_depth is None
    &&& match opus_frame_samples(options.frame_duration, spec.sample_rate) {
        Some(n) => p.frame_samples == Some(n as u32),
        None => p.frame_samples is None,
    }
    &&& p.encoder_delay == opus_lookahead(spec.sample_rate, options.application)
    &&& p.encoder_padding == 0
    &&& p.extradata@.len() == 0
    &&& match p.codec_specific {
        Some(CodecSpecific::Opus(m)) => (m.family, m.stream_count, m.coupled_stream_count)
            == family0_mapping_of(spec.channels.0) && m.mapping@.len() == 0,
        _ => false,
    }
}

/// `e` is a freshly built encoder.
pub open spec fn opus_fresh(e: OpusEncoder, spec: AudioSpec, options: OpusEncoderOptions) -> bool {
    &&& e.enc_inv()
    &&& e.spec_input() == spec
    &&& e.spec_options() == options
    &&& opus_params(spec, options, e.spec_params())
    &&& e.spec_next_pts() == 0
    &&& e.spec_pending().len() == 0
    &&& e.spec_backend_settings() == opus_backend_settings(spec, options)
    &&& e.spec_coded().len() == 0
}

/// The settings the encoder hands the backend for `spec` and `options`: the
/// channel count of the layout, the frame duration always, and each other
/// option that is set.
pub open spec fn opus_backend_settings(spec: AudioSpec, options: OpusEncoderOptions) -> BackendSettings {
    BackendSettings {
        sample_rate: spec.sample_rate,
        channels: if spec.channels.0 == 4 {
            OpusChannelCount::Mono
        } else {
            OpusChannelCount::Stereo
        },
        application: options.application,
        bitrate: options.bitrate,
        complexity: match options.complexity {
            Some(c) => Some(c as i32),
            None => None,
        },
        vbr: options.vbr,
        vbr_constraint: options.constrained_vbr,
        max_bandwidth: options.max_bandwidth,
        signal: options.signal,
        inband_fec: options.inband_fec,
        dtx: options.dtx,
        frame_duration: Some(options.frame_duration),
        prediction_disabled: options.prediction_disabled,
        packet_loss_perc: match options.packet_loss_perc {
            Some(p) => Some(p as i32),
            None => None,
        },
        lsb_depth: match options.lsb_depth {
            Some(d) => Some(d as i32),
            None => None,
        },
    }
}

/// An encoder can be built for `spec` and `options`: the library's checks
/// pass, the input is not floating point, and the backend takes the number
/// of significant input bits (8 to 24).
pub open spec fn opus_build_ok(spec: AudioSpec, options: OpusEncoderOptions) -> bool {
    &&& opus_spec_ok(spec)
    &&& spec.sample_format != SampleFormat::F32
    &&& opus_options_ok(options)
    &&& (options.mapping_family is None || options.mapping_family == Some(0u8))
    &&& !(options.bitrate matches Some(OpusBitrate::Bits(b)) && b > i32::MAX)
    &&& (options.lsb_depth matches Some(d) ==> 8 <= d <= 24)
}

/// What building an encoder for `spec` and `options` gives: the refusals the
/// library decides, success exactly when `opus_build_ok` holds, and then a
/// fresh encoder.
pub open spec fn opus_build_outcome(
    spec: AudioSpec,
    options: OpusEncoderOptions,
    r: Result<OpusEncoder, Error>,
) -> bool {
    &&& !opus_spec_ok(spec) ==> (r is Err && r->Err_0 matches Error::Unsupported(_))
    &&& opus_spec_ok(spec) && !opus_options_ok(options) ==> (r is Err && r->Err_0 matches Error::InvalidArgument(_))
    &&& opus_spec_ok(spec) && opus_options_ok(options) && !(options.mapping_family is None
        || options.mapping_family == Some(0u8)) ==> (r is Err && r->Err_0 matches Error::Unsupported(_))
    &&& opus_spec_ok(spec) && opus_options_ok(options) && (options.bitrate matches Some(
        OpusBitrate::Bits(b),
    ) && b > i32::MAX) && (options.mapping_family is None || options.mapping_family == Some(0u8))
        ==> (r is Err && r->Err_0 matches Error::Unsupported(_))
    &&& spec.sample_format == SampleFormat::F32 ==> r is Err
    &&& r is Ok <==> opus_build_ok(spec, options)
    &&& r is Ok ==> opus_fresh(r->Ok_0, spec, options)
}

/// The Opus encoder.
pub struct OpusEncoder {
    spec: AudioSpec,
    params: CodecParameters,
    options: OpusEncoderOptions,
    encoder: Backend,
    channels: usize,
    frame_samples: Option<usize>,
    next_pts: u64,
    pending: PendingPcm,
}

impl OpusEncoder {
    pub closed spec fn spec_input(&self) -> AudioSpec {
        self.spec
    }

    pub closed spec fn spec_options(&self) -> OpusEncoderOptions {
        self.options
    }

    pub closed spec fn spec_params(&self) -> CodecParameters {
        self.params
    }

    pub closed spec fn spec_next_pts(&self) -> u64 {
        self.next_pts
    }

    /// Samples waiting for a full frame.
    pub closed spec fn spec_pending(&self) -> Seq<int> {
        pending_view(self.pending)
    }

    /// Samples per channel of a frame, when fixed.
    pub open spec fn spec_frame_samples(&self) -> Option<nat> {
        opus_frame_samples(self.spec_options().frame_duration, self.spec_input().sample_rate)
    }

    /// Every successful coding call of the backend since the encoder was
    /// built or last reset: the samples it was given and the packet it
    /// produced.
    pub closed spec fn spec_coded(&self) -> Seq<(Seq<int>, Seq<u8>)> {
        self.encoder.spec_coded()
    }

    /// The settings the backend was built with.
    pub closed spec fn spec_backend_settings(&self) -> BackendSettings {
        self.encoder.spec_settings()
    }

    pub closed spec fn wf(&self) -> bool {
        &&& opus_spec_ok(self.spec)
        &&& self.spec.sample_format != SampleFormat::F32
        &&& opus_options_ok(self.options)
        &&& self.channels == (if self.spec.channels.0 == 4 {
            1usize
        } else {
            2usize
        })
        &&& self.channels == popcount(self.spec.channels.0)
        &&& opus_params(self.spec, self.options, self.params)
        &&& pending_format(self.pending) == self.spec.sample_format
        &&& self.encoder.spec_settings() == opus_backend_settings(self.spec, self.options)
        &&& backend_rate_ok(self.spec.sample_rate)
        &&& match opus_frame_samples(self.options.frame_duration, self.spec.sample_rate) {
            Some(n) => {
                &&& self.frame_samples == Some(n as usize)
                &&& n >= 20
            },
            None => self.frame_samples is None && pending_view(self.pending).len() == 0,
        }
        &&& pending_view(self.pending).len() % (self.channels as nat) == 0
    }

    pub fn new(spec: AudioSpec) -> (r: Result<Self, Error>)
        ensures
            opus_build_outcome(spec, default_opus_options(), r),
    {
        Self::builder(spec).build()
    }

    pub fn builder(spec: AudioSpec) -> (r: OpusEncoderBuilder)
        ensures
            r.spec_spec() == spec,
            r.spec_options() == default_opus_options(),
    {
        OpusEncoderBuilder::new(spec)
    }

    pub fn options(&self) -> (r: OpusEncoderOptions)
        ensures
            r == self.spec_options(),
    {
        self.options
    }

    /// Builds the encoder: the library's own checks, then the backend with
    /// every setting given, then its lookahead as the encoder delay.
    #[verifier::rlimit(40)]
    #[verifier::spinoff_prover]
    pub fn with_options(spec: AudioSpec, options: OpusEncoderOptions) -> (r: Result<Self, Error>)
        ensures
            opus_build_outcome(spec, options, r),
    {
        validate_spec(spec)?;
        validate_options(options)?;
        let stream_mapping = resolve_stream_mapping(spec.channels, options.mapping_family)?;
        let (mousiki_channels, channels) = to_mousiki_channels(spec.channels)?;
        let mut builder = backend_builder(spec.sample_rate, mousiki_channels, options.application);
        match options.bitrate {
            Some(value) => {
                let b = to_mousiki_bitrate(value)?;
                builder = backend_bitrate(builder, b);
            },
            None => {},
        }
        if spec.sample_format.same_as(SampleFormat::F32) {
            return Err(
                Error::Unsupported(
                    "opus f32 input is coded on the floating-point path, which this encoder does not carry",
                ),
            );
        }
        builder = apply_tuning(builder, options);
        proof {
            assert(builder.spec_settings() == opus_backend_settings(spec, options));
        }
        let mut encoder = match backend_build(builder) {
            Ok(e) => e,
            Err(e) => {
                return Err(map_builder_error(e));
            },
        };
        let encoder_delay = query_lookahead(&mut encoder)?;
        let frame_samples = frame_samples_for_duration(options.frame_duration, spec.sample_rate);
        let mut params = CodecParameters::new(CodecId::Opus, spec);
        params.sample_format = None;
        params.bit_depth = None;
        params.frame_samples = match frame_samples {
            Some(value) => Some(value as u32),
            None => None,
        };
        params.encoder_delay = encoder_delay;
        params.encoder_padding = 0;
        params.codec_specific = Some(CodecSpecific::Opus(stream_mapping));
        let pending = PendingPcm::with_format(spec.sample_format)?;
        let e = OpusEncoder {
            spec,
            params,
            options,
            encoder,
            channels,
            frame_samples,
            next_pts: 0,
            pending,
        };
        proof {
            crate::audio::lemma_popcount_mono_stereo();
        }
        Ok(e)
    }
}

/// `s` with every option after the bitrate recorded: the frame duration
/// always, each other one where it is set.
pub open spec fn tuned_settings(s: BackendSettings, options: OpusEncoderOptions) -> BackendSettings {
    BackendSettings {
        complexity: match options.complexity {
            Some(c) => Some(c as i32),
            None => s.complexity,
        },
        vbr: match options.vbr {
            Some(v) => Some(v),
            None => s.vbr,
        },
        vbr_constraint: match options.constrained_vbr {
            Some(v) => Some(v),
            None => s.vbr_constraint,
        },
        max_bandwidth: match options.max_bandwidth {
            Some(v) => Some(v),
            None => s.max_bandwidth,
        },
        signal: match options.signal {
            Some(v) => Some(v),
            None => s.signal,
        },
        inband_fec: match options.inband_fec {
            Some(v) => Some(v),
            None => s.inband_fec,
        },
        packet_loss_perc: match options.packet_loss_perc {
            Some(p) => Some(p as i32),
            None => s.packet_loss_perc,
        },
        dtx: match options.dtx {
            Some(v) => Some(v),
            None => s.dtx,
        },
        lsb_depth: match options.lsb_depth {
            Some(d) => Some(d as i32),
            None => s.lsb_depth,
        },
        frame_duration: Some(options.frame_duration),
        prediction_disabled: match options.prediction_disabled {
            Some(v) => Some(v),
            None => s.prediction_disabled,
        },
        ..s
    }
}

/// Hands the backend builder every option after the bitrate.
fn apply_tuning(builder: BackendBuilder, options: OpusEncoderOptions) -> (r: BackendBuilder)
    ensures
        r.spec_settings() == tuned_settings(builder.spec_settings(), options),
{
    let ghost t = tuned_settings(builder.spec_settings(), options);
    let mut builder = builder;
    let ghost before = builder.spec_settings();
    match options.complexity {
        Some(value) => {
            builder = backend_complexity(builder, value as i32);
        },
        None => {},
    }
    assert(builder.spec_settings() == (BackendSettings { complexity: t.complexity, ..before }));
    let ghost before = builder.spec_settings();
    match options.vbr {
        Some(value) => {
            builder = backend_vbr(builder, value);
        },
        None => {},
    }
    assert(builder.spec_settings() == (BackendSettings { vbr: t.vbr, ..before }));
    let ghost before = builder.spec_settings();
    match options.constrained_vbr {
        Some(value) => {
            builder = backend_vbr_constraint(builder, value);
        },
        None => {},
    }
    assert(builder.spec_settings() == (BackendSettings { vbr_constraint: t.vbr_constraint, ..before }));
    let ghost before = builder.spec_settings();
    match options.max_bandwidth {
        Some(value) => {
            builder = backend_max_bandwidth(builder, value);
        },
        None => {},
    }
    assert(builder.spec_settings() == (BackendSettings { max_bandwidth: t.max_bandwidth, ..before }));
    let ghost before = builder.spec_settings();
    match options.signal {
        Some(value) => {
            builder = backend_signal(builder, value);
        },
        None => {},
    }
    assert(builder.spec_settings() == (BackendSettings { signal: t.signal, ..before }));
    let ghost before = builder.spec_settings();
    match options.inband_fec {
        Some(value) => {
            builder = backend_inband_fec(builder, value);
        },
        None => {},
    }
    assert(builder.spec_settings() == (BackendSettings { inband_fec: t.inband_fec, ..before }));
    let ghost before = builder.spec_settings();
    match options.packet_loss_perc {
        Some(value) => {
            builder = backend_packet_loss_perc(builder, value as i32);
        },
        None => {},
    }
    assert(builder.spec_settings() == (BackendSettings { packet_loss_perc: t.packet_loss_perc, ..before }));
    let ghost before = builder.spec_settings();
    match options.dtx {
        Some(value) => {
            builder = backend_dtx(builder, value);
        },
        None => {},
    }
    assert(builder.spec_settings() == (BackendSettings { dtx: t.dtx, ..before }));
    let ghost before = builder.spec_settings();
    match options.lsb_depth {
        Some(value) => {
            builder = backend_lsb_depth(builder, value as i32);
        },
        None => {},
    }
    assert(builder.spec_settings() == (BackendSettings { lsb_depth: t.lsb_depth, ..before }));
    let ghost before = builder.spec_settings();
    builder = backend_frame_duration(builder, options.frame_duration);
    assert(builder.spec_settings() == (BackendSettings { frame_duration: t.frame_duration, ..before }));
    let ghost before = builder.spec_settings();
    match options.prediction_disabled {
        Some(value) => {
            builder = backend_prediction_disabled(builder, value);
        },
        None => {},
    }
    assert(builder.spec_settings() == (BackendSettings { prediction_disabled: t.prediction_disabled, ..before }));
    assert(builder.spec_settings() =~= t);
    builder
}

/// An error that a backend control request reported.
pub open spec fn is_backend_ctl_error(e: Error) -> bool {
    exists|b: BackendCtlError| e == map_ctl_error_spec(b)
}

/// The encoder delay for a lookahead the backend reported: the lookahead
/// itself, or `InvalidState` when it is negative.
pub fn delay_from_lookahead(lookahead: i32) -> (r: Result<u32, Error>)
    ensures
        r is Ok <==> lookahead >= 0,
        r is Ok ==> r->Ok_0 == lookahead,
        r is Err ==> r->Err_0 matches Error::InvalidState(_),
{
    if lookahead < 0 {
        return Err(Error::InvalidState("opus encoder reported a negative lookahead"));
    }
    Ok(lookahead as u32)
}

/// Asks the backend for its lookahead and takes it as the encoder delay: a
/// 400th of the sample rate, plus a 250th of it except in the low-delay
/// application.
pub fn query_lookahead(encoder: &mut Backend) -> (r: Result<u32, Error>)
    requires
        backend_rate_ok(old(encoder).spec_sample_rate()),
    ensures
        r == Ok::<u32, Error>(opus_lookahead(old(encoder).spec_sample_rate(), old(encoder).spec_application()) as u32),
        final(encoder).spec_settings() == old(encoder).spec_settings(),
        final(encoder).spec_coded() == old(encoder).spec_coded(),
{
    let lookahead = match backend_lookahead(encoder) {
        Ok(v) => v,
        Err(e) => {
            return Err(map_ctl_error(e));
        },
    };
    delay_from_lookahead(lookahead)
}

/// The first `n` bytes of a packet buffer, or all of it when `n` is larger,
/// and no more than `max` bytes.
pub fn payload_of(packet: &Vec<u8>, n: usize, max: usize) -> (r: Vec<u8>)
    ensures
        r@ == packet@.take(vstd::math::min(vstd::math::min(n as int, max as int), packet@.len() as int)),
{
    let mut keep = if n < max {
        n
    } else {
        max
    };
    if packet.len() < keep {
        keep = packet.len();
    }
    let mut out: Vec<u8> = Vec::new();
    let mut j: usize = 0;
    while j < keep
        invariant
            j <= keep,
            keep <= packet@.len(),
            keep == vstd::math::min(vstd::math::min(n as int, max as int), packet@.len() as int),
            out@ == packet@.take(j as int),
        decreases keep - j,
    {
        out.push(packet[j]);
        proof {
            assert(packet@.take(j + 1) =~= packet@.take(j as int).push(packet@[j as int]));
        }
        j = j + 1;
    }
    out
}

/// Codes one chunk of samples into a packet of at most `max` bytes; the call
/// and its packet are added to the backend's record.
fn encode_chunk(encoder: &mut Backend, chunk: &PendingPcm, max: usize) -> (r: Result<Vec<u8>, Error>)
    ensures
        final(encoder).spec_settings() == old(encoder).spec_settings(),
        r is Ok ==> r->Ok_0@.len() <= max && final(encoder).spec_coded() == old(encoder).spec_coded().push(
            (pending_view(*chunk), r->Ok_0@),
        ),
        r is Err ==> is_backend_encode_error(r->Err_0) && final(encoder).spec_coded() == old(
            encoder,
        ).spec_coded(),
{
    let mut packet: Vec<u8> = Vec::new();
    let mut i: usize = 0;
    while i < max
        invariant
            i <= max,
            packet@.len() == i,
        decreases max - i,
    {
        packet.push(0);
        i = i + 1;
    }
    let res = match chunk {
        PendingPcm::I16(data) => backend_encode(encoder, data.as_slice(), &mut packet),
        PendingPcm::I24(data) => backend_encode_24bit(encoder, data.as_slice(), &mut packet),
    };
    proof {
        match chunk {
            PendingPcm::I16(data) => {
                assert(pcm16_view(data@) =~= pending_view(*chunk));
            },
            PendingPcm::I24(data) => {
                assert(pcm24_view(data@) =~= pending_view(*chunk));
            },
        }
    }
    let len = match res {
        Ok(n) => n,
        Err(e) => {
            return Err(map_encode_error(e));
        },
    };
    Ok(payload_of(&packet, len, max))
}

/// The backend calls that code the first `outs.len()` packets of `ps`
/// samples cut from the front of `data`, each with the packet it gave.
pub open spec fn chunk_calls(data: Seq<int>, ps: int, outs: Seq<Seq<u8>>) -> Seq<(Seq<int>, Seq<u8>)> {
    Seq::new(outs.len(), |q: int| (data.subrange(q * ps, (q + 1) * ps), outs[q]))
}

/// The bytes of each of a run of buffers.
pub open spec fn payload_views(v: Seq<Vec<u8>>) -> Seq<Seq<u8>> {
    Seq::new(v.len(), |q: int| v[q]@)
}

impl OpusEncoder {
    /// Hands one packet to the sink and advances the timestamp.
    fn emit_packet<S: PacketSink>(&mut self, payload: Vec<u8>, frame_count: u64, trim_end: u32, sink: &mut S) -> (r:
        Result<(), Error>)
        requires
            old(sink).sink_inv(),
            old(self).next_pts + frame_count <= u64::MAX,
        ensures
            final(sink).sink_inv(),
            final(sink).infallible() == old(sink).infallible(),
            old(sink).infallible() ==> r is Ok,
            final(self).next_pts == old(self).next_pts + frame_count,
            final(self).spec == old(self).spec,
            final(self).params == old(self).params,
            final(self).options == old(self).options,
            final(self).channels == old(self).channels,
            final(self).frame_samples == old(self).frame_samples,
            final(self).pending == old(self).pending,
            final(self).encoder == old(self).encoder,
            r is Ok ==> final(sink).accepted().len() == old(sink).accepted().len() + 1
                && final(sink).accepted().take(old(sink).accepted().len() as int) == old(sink).accepted()
                && final(sink).accepted().last().data@ == payload@ && opus_packet(
                final(sink).accepted().last(),
                old(self).next_pts,
                frame_count,
                trim_end,
                payload.len(),
            ),
            r is Err ==> final(sink).accepted() == old(sink).accepted(),
    {
        let pts = Timestamp::new(self.next_pts);
        self.next_pts = self.next_pts + frame_count;
        let mut packet = EncodedPacket::new(payload);
        packet.pts = Some(pts);
        packet.dts = Some(pts);
        packet.duration = Some(frame_count);
        packet.trim_end = trim_end;
        packet.flags = PacketFlags::none();
        let r = sink.write_packet(packet);
        proof {
            if r is Ok {
                assert(final(sink).accepted().take(old(sink).accepted().len() as int) =~= old(sink).accepted());
            }
        }
        r
    }

    /// Codes every whole frame of the pending samples, then hands the packets
    /// to the sink. A frame leaves the pending samples only once the backend
    /// has coded it; on any failure the samples not yet coded stay pending,
    /// and the packets coded but not yet handed to the sink are lost.
    #[verifier::rlimit(80)]
    fn drain_ready_packets<S: PacketSink>(&mut self, sink: &mut S) -> (r: Result<(), Error>)
        requires
            old(self).wf(),
            old(self).frame_samples is Some,
            old(sink).sink_inv(),
        ensures
            final(self).wf(),
            final(sink).sink_inv(),
            final(sink).infallible() == old(sink).infallible(),
            final(self).spec == old(self).spec,
            final(self).params == old(self).params,
            final(self).options == old(self).options,
            ({
                let fs = old(self).frame_samples->0 as nat;
                let ps = (fs * old(self).channels) as nat;
                let data = pending_view(old(self).pending);
                let k = data.len() / ps;
                old(self).next_pts + k * fs <= u64::MAX && old(sink).infallible() ==> r is Ok
                    || is_backend_encode_error(r->Err_0)
            }),
            ({
                let fs = old(self).frame_samples->0 as nat;
                let ps = (fs * old(self).channels) as nat;
                let data = pending_view(old(self).pending);
                let k = data.len() / ps;
                old(self).next_pts + k * fs > u64::MAX ==> r == Err::<(), Error>(Error::InvalidState("timestamp overflow"))
                    && *final(self) == *old(self) && final(sink).accepted() == old(sink).accepted()
            }),
            opus_drained(
                *old(self),
                *final(self),
                pending_view(old(self).pending),
                old(self).frame_samples->0 as nat,
                old(self).channels as nat,
                old(sink).accepted(),
                final(sink).accepted(),
                r is Ok,
            ),
            r is Ok ==> {
                let fs = old(self).frame_samples->0 as nat;
                let ps = (fs * old(self).channels) as nat;
                let data = pending_view(old(self).pending);
                let k = data.len() / ps;
                let acc = old(sink).accepted();
                &&& final(sink).accepted().len() == acc.len() + k
                &&& final(sink).accepted().take(acc.len() as int) == acc
                &&& forall|i: int|
                    0 <= i < k ==> opus_packet(
                        #[trigger] final(sink).accepted()[acc.len() + i],
                        (old(self).next_pts + i * fs) as u64,
                        fs as u64,
                        0,
                        old(self).options.max_packet_bytes,
                    )
                &&& pending_view(final(self).pending) == data.skip((k * ps) as int)
                &&& final(self).next_pts == old(self).next_pts + k * fs
            },
    {
        let frame_samples = match self.frame_samples {
            Some(n) => n,
            None => {
                return Ok(());
            },
        };
        let packet_samples = frame_samples * self.channels;
        let ghost data = pending_view(self.pending);
        let ghost c0 = self.encoder.spec_coded();
        let ghost ps = packet_samples as int;
        proof {
            assert(frame_samples <= 5760) by {
                assert(self.spec.sample_rate <= 48000);
            }
            assert(packet_samples > 0);
        }
        let k = self.pending.len() / packet_samples;
        if (k as u64) > 0 && (frame_samples as u64) > (u64::MAX - self.next_pts) / (k as u64) {
            proof {
                assert(k * frame_samples > u64::MAX - self.next_pts) by (nonlinear_arith)
                    requires
                        k > 0,
                        frame_samples > (u64::MAX - self.next_pts) / (k as int),
                ;
                assert(c0.take(c0.len() as int) =~= c0);
                assert(c0.skip(c0.len() as int) =~= Seq::<(Seq<int>, Seq<u8>)>::empty());
                assert(data.skip(0) =~= data);
                assert(sink.accepted().take(sink.accepted().len() as int) =~= sink.accepted());
            }
            return Err(Error::InvalidState("timestamp overflow"));
        }
        proof {
            if k > 0 {
                assert(k * frame_samples <= u64::MAX - self.next_pts) by (nonlinear_arith)
                    requires
                        k > 0,
                        frame_samples <= (u64::MAX - self.next_pts) / (k as int),
                ;
            } else {
                assert(k * frame_samples == 0) by (nonlinear_arith)
                    requires
                        k == 0,
                ;
            }
            assert(k * packet_samples <= data.len() < (k + 1) * packet_samples) by (nonlinear_arith)
                requires
                    k == data.len() / (packet_samples as nat),
                    packet_samples > 0,
            ;
        }
        let max_packet_bytes = self.options.max_packet_bytes;
        let mut payloads: Vec<Vec<u8>> = Vec::new();
        let mut i: usize = 0;
        proof {
            assert(self.encoder.spec_coded() =~= c0 + chunk_calls(data, ps, payload_views(payloads@)));
            assert(data.skip(0) =~= data);
        }
        while i < k
            invariant
                self.wf(),
                sink.sink_inv(),
                sink.infallible() == old(sink).infallible(),
                sink.accepted() == old(sink).accepted(),
                data.len() % (self.channels as nat) == 0,
                i <= k,
                k == data.len() / (packet_samples as nat),
                k * packet_samples <= data.len(),
                packet_samples == frame_samples * self.channels,
                packet_samples > 0,
                ps == packet_samples,
                pending_view(self.pending) == data.skip(i * packet_samples),
                pending_format(self.pending) == old(self).spec.sample_format,
                payloads@.len() == i,
                forall|j: int| 0 <= j < i ==> (#[trigger] payloads@[j])@.len() <= max_packet_bytes,
                self.encoder.spec_coded() == c0 + chunk_calls(data, ps, payload_views(payloads@)),
                max_packet_bytes == self.options.max_packet_bytes,
                self.spec == old(self).spec,
                self.params == old(self).params,
                self.options == old(self).options,
                self.channels == old(self).channels,
                self.frame_samples == old(self).frame_samples,
                self.next_pts == old(self).next_pts,
                c0 == old(self).encoder.spec_coded(),
                data == pending_view(old(self).pending),
                old(self).frame_samples == Some(frame_samples),
                old(self).next_pts + k * frame_samples <= u64::MAX,
            decreases k - i,
        {
            proof {
                assert((i + 1) * packet_samples <= k * packet_samples) by (nonlinear_arith)
                    requires
                        i < k,
                        packet_samples > 0,
                ;
                assert(i * packet_samples + packet_samples == (i + 1) * packet_samples) by (nonlinear_arith);
            }
            let chunk = self.pending.front(packet_samples);
            proof {
                assert(pending_view(chunk) =~= data.subrange(i * ps, (i + 1) * ps));
            }
            let ghost before_coded = self.encoder.spec_coded();
            let payload = match encode_chunk(&mut self.encoder, &chunk, max_packet_bytes) {
                Ok(p) => p,
                Err(e) => {
                    proof {
                        assert(self.encoder.spec_coded().take(c0.len() as int) =~= c0);
                        assert(self.encoder.spec_coded().skip(c0.len() as int) =~= chunk_calls(
                            data,
                            ps,
                            payload_views(payloads@),
                        ));
                        assert(sink.accepted().take(old(sink).accepted().len() as int) =~= old(sink).accepted());
                    }
                    return Err(e);
                },
            };
            let _ = self.pending.take_front(packet_samples);
            payloads.push(payload);
            proof {
                assert(data.skip(i * packet_samples).skip(packet_samples as int) =~= data.skip((i + 1) * packet_samples));
                assert(self.encoder.spec_coded() =~= c0 + chunk_calls(data, ps, payload_views(payloads@)));
                assert(pending_view(self.pending).len() % (self.channels as nat) == 0) by {
                    vstd::arithmetic::div_mod::lemma_mod_multiples_basic(((i + 1) * frame_samples) as int, self.channels as int);
                    assert((i + 1) * packet_samples == ((i + 1) * frame_samples) * self.channels) by (nonlinear_arith)
                        requires
                            packet_samples == frame_samples * self.channels,
                    ;
                    vstd::arithmetic::div_mod::lemma_sub_mod_noop(data.len() as int, ((i + 1) * packet_samples) as int, self.channels as int);
                    vstd::arithmetic::div_mod::lemma_small_mod(0, self.channels as nat);
                }
            }
            i = i + 1;
        }
        proof {
            assert(pending_view(self.pending).len() == data.len() - k * packet_samples);
            assert(pending_view(self.pending).len() % (self.channels as nat) == 0) by {
                assert(data.len() % (self.channels as nat) == 0);
                vstd::arithmetic::div_mod::lemma_mod_multiples_basic((k * frame_samples) as int, self.channels as int);
                assert(k * packet_samples == (k * frame_samples) * self.channels) by (nonlinear_arith)
                    requires
                        packet_samples == frame_samples * self.channels,
                ;
                vstd::arithmetic::div_mod::lemma_sub_mod_noop(data.len() as int, (k * packet_samples) as int, self.channels as int);
                vstd::arithmetic::div_mod::lemma_small_mod(0, self.channels as nat);
            }
            assert(self.encoder.spec_coded().take(c0.len() as int) =~= c0);
            assert(self.encoder.spec_coded().skip(c0.len() as int) =~= chunk_calls(data, ps, payload_views(payloads@)));
        }
        let ghost acc0 = sink.accepted();
        let ghost pts0 = self.next_pts;
        let ghost coded = self.encoder.spec_coded();
        let mut j: usize = 0;
        while j < k
            invariant
                self.wf(),
                j <= k,
                payloads@.len() == k,
                forall|q: int| 0 <= q < k ==> (#[trigger] payloads@[q])@.len() <= max_packet_bytes,
                max_packet_bytes == self.options.max_packet_bytes,
                sink.sink_inv(),
                sink.infallible() == old(sink).infallible(),
                self.next_pts == pts0 + j * frame_samples,
                pts0 + k * frame_samples <= u64::MAX,
                pts0 == old(self).next_pts,
                self.spec == old(self).spec,
                self.params == old(self).params,
                self.options == old(self).options,
                self.channels == old(self).channels,
                self.frame_samples == old(self).frame_samples,
                self.encoder.spec_coded() == coded,
                coded.take(c0.len() as int) == c0,
                coded.skip(c0.len() as int) == chunk_calls(data, ps, payload_views(payloads@)),
                coded.len() == c0.len() + k,
                pending_view(self.pending) == data.skip(k * packet_samples),
                pending_format(self.pending) == old(self).spec.sample_format,
                acc0 == old(sink).accepted(),
                c0 == old(self).encoder.spec_coded(),
                old(self).frame_samples == Some(frame_samples),
                ps == packet_samples,
                packet_samples == frame_samples * self.channels,
                data == pending_view(old(self).pending),
                k == data.len() / (packet_samples as nat),
                sink.accepted().len() == acc0.len() + j,
                sink.accepted().take(acc0.len() as int) == acc0,
                forall|q: int|
                    0 <= q < j ==> opus_packet(
                        #[trigger] sink.accepted()[acc0.len() + q],
                        (pts0 + q * frame_samples) as u64,
                        frame_samples as u64,
                        0,
                        max_packet_bytes,
                    ) && sink.accepted()[acc0.len() + q].data@ == payloads@[q]@,
            decreases k - j,
        {
            proof {
                assert((j + 1) * frame_samples <= k * frame_samples) by (nonlinear_arith)
                    requires
                        j < k,
                ;
                assert(j * frame_samples + frame_samples == (j + 1) * frame_samples) by (nonlinear_arith);
            }
            let payload = payloads[j].clone();
            proof {
                assert(payload@ == payloads@[j as int]@);
            }
            let ghost before = sink.accepted();
            let r = self.emit_packet(payload, frame_samples as u64, 0, sink);
            match r {
                Ok(()) => {},
                Err(e) => {
                    proof {
                        assert(self.wf());
                        assert(self.next_pts == pts0 + (j + 1) * frame_samples);
                        assert(self.encoder.spec_coded() == coded);
                        assert(coded.len() == c0.len() + k);
                        assert(coded.take(c0.len() as int) == c0);
                        let calls = coded.skip(c0.len() as int);
                        assert(calls.len() == k);
                        assert forall|q: int| 0 <= q < calls.len() implies (#[trigger] calls[q]).0 == data.subrange(
                            q * ps,
                            (q + 1) * ps,
                        ) by {
                            assert(calls[q] == chunk_calls(data, ps, payload_views(payloads@))[q]);
                        }
                        assert forall|q: int| 0 <= q < j implies sink.accepted()[acc0.len() + q].data@ == (
                            #[trigger] calls[q]).1 by {
                            assert(calls[q] == chunk_calls(data, ps, payload_views(payloads@))[q]);
                        }
                    }
                    return Err(e);
                },
            }
            proof {
                assert forall|q: int| 0 <= q < j + 1 implies opus_packet(
                    #[trigger] sink.accepted()[acc0.len() + q],
                    (pts0 + q * frame_samples) as u64,
                    frame_samples as u64,
                    0,
                    max_packet_bytes,
                ) && sink.accepted()[acc0.len() + q].data@ == payloads@[q]@ by {
                    if q < j {
                        assert(sink.accepted()[acc0.len() + q] == before[acc0.len() + q]);
                    }
                }
                assert(sink.accepted().take(acc0.len() as int) =~= acc0);
            }
            j = j + 1;
        }
        proof {
            let calls = coded.skip(c0.len() as int);
            assert forall|q: int| 0 <= q < k implies sink.accepted()[acc0.len() + q].data@ == (
                #[trigger] calls[q]).1 by {
                assert(calls[q] == chunk_calls(data, ps, payload_views(payloads@))[q]);
            }
        }
        Ok(())
    }
}

/// `n` samples of silence.
pub open spec fn opus_padding(n: nat) -> Seq<int> {
    Seq::new(n, |i: int| 0int)
}

/// What draining whole frames of `data` from `before` leaves in `after`:
/// the backend was called on the first frames of `data` in order, those
/// samples left the pending ones, and the first of the packets it gave were
/// handed to the sink with consecutive timestamps. A sink's refusal still
/// advances the timestamp past the refused packet. When the drain is
/// complete, every whole frame was coded and handed over.
pub open spec fn opus_drained(
    before: OpusEncoder,
    after: OpusEncoder,
    data: Seq<int>,
    fs: nat,
    ch: nat,
    acc0: Seq<EncodedPacket>,
    acc1: Seq<EncodedPacket>,
    complete: bool,
) -> bool {
    let ps = fs * ch;
    let k = data.len() / ps;
    let c0 = before.spec_coded();
    let calls = after.spec_coded().skip(c0.len() as int);
    let e = acc1.len() - acc0.len();
    &&& after.spec_coded().len() >= c0.len()
    &&& after.spec_coded().take(c0.len() as int) == c0
    &&& calls.len() <= k
    &&& forall|q: int| 0 <= q < calls.len() ==> (#[trigger] calls[q]).0 == data.subrange(q * ps, (q + 1) * ps)
    &&& after.spec_pending() == data.skip((calls.len() * ps) as int)
    &&& acc1.len() >= acc0.len()
    &&& acc1.take(acc0.len() as int) == acc0
    &&& e <= calls.len()
    &&& forall|i: int|
        0 <= i < e ==> opus_packet(
            #[trigger] acc1[acc0.len() + i],
            (before.spec_next_pts() + i * fs) as u64,
            fs as u64,
            0,
            before.spec_options().max_packet_bytes,
        ) && acc1[acc0.len() + i].data@ == calls[i].1
    &&& (after.spec_next_pts() == before.spec_next_pts() + e * fs || (!complete && e < calls.len()
        && after.spec_next_pts() == before.spec_next_pts() + (e + 1) * fs))
    &&& complete ==> calls.len() == k && e == k
    &&& !complete ==> calls.len() < k || e < k
}

impl AudioEncoder for OpusEncoder {
    closed spec fn enc_inv(&self) -> bool {
        self.wf()
    }

    fn codec_id(&self) -> (r: CodecId)
        ensures
            r == self.spec_params().codec,
    {
        self.params.codec
    }

    fn input_spec(&self) -> (r: AudioSpec)
        ensures
            r == self.spec_input(),
    {
        self.spec
    }

    fn codec_parameters(&self) -> (r: &CodecParameters)
        ensures
            *r == self.spec_params(),
    {
        &self.params
    }

    /// Codes interleaved samples: each input buffer as one packet when the
    /// frame duration is automatic, else into frames of the configured
    /// duration with the remainder kept for later.
    fn encode<S: PacketSink>(&mut self, input: AudioBufferRef<'_>, sink: &mut S) -> (r: Result<(), Error>)
        ensures
            input.spec_sample_format() != old(self).spec_input().sample_format ==> r is Err
                && r->Err_0 matches Error::InvalidArgument(_),
            input.spec_sample_format() == old(self).spec_input().sample_format && input.spec_len()
                % popcount(old(self).spec_input().channels.0) != 0 ==> r is Err
                && r->Err_0 matches Error::InvalidArgument(_),
            input.spec_sample_format() == old(self).spec_input().sample_format && input.spec_len() == 0
                ==> r is Ok && *final(self) == *old(self) && final(sink).accepted() == old(sink).accepted(),
            ({
                let ch = popcount(old(self).spec_input().channels.0);
                let n = input.spec_len() / ch;
                input.spec_sample_format() == old(self).spec_input().sample_format && input.spec_len() % ch == 0
                    && input.spec_len() != 0 && old(self).spec_frame_samples() is None ==> {
                    &&& old(self).spec_next_pts() + n > u64::MAX ==> r == Err::<(), Error>(
                        Error::InvalidState("timestamp overflow"),
                    ) && *final(self) == *old(self) && final(sink).accepted() == old(sink).accepted()
                    &&& old(self).spec_next_pts() + n <= u64::MAX && old(sink).infallible() ==> r is Ok
                        || is_backend_encode_error(r->Err_0)
                    &&& r is Ok ==> final(self).spec_coded() == old(self).spec_coded().push(
                        (input_view(input), final(sink).accepted().last().data@),
                    )
                    &&& r is Err ==> final(sink).accepted() == old(sink).accepted() && final(self).spec_pending().len()
                        == 0
                    &&& r is Err ==> (final(self).spec_coded() == old(self).spec_coded()
                        && final(self).spec_next_pts() == old(self).spec_next_pts()) || (final(self).spec_coded().len()
                        == old(self).spec_coded().len() + 1 && final(self).spec_coded().take(
                        old(self).spec_coded().len() as int,
                    ) == old(self).spec_coded() && final(self).spec_coded().last().0 == input_view(input)
                        && final(self).spec_next_pts() == old(self).spec_next_pts() + n)
                }
            }),
            ({
                let ch = popcount(old(self).spec_input().channels.0);
                let fs = old(self).spec_frame_samples()->0;
                let data = old(self).spec_pending() + input_view(input);
                let k = data.len() / (fs * ch);
                input.spec_sample_format() == old(self).spec_input().sample_format && input.spec_len() % ch == 0
                    && input.spec_len() != 0 && old(self).spec_frame_samples() is Some ==> {
                    &&& opus_drained(
                        *old(self),
                        *final(self),
                        data,
                        fs,
                        ch,
                        old(sink).accepted(),
                        final(sink).accepted(),
                        r is Ok,
                    )
                    &&& old(self).spec_next_pts() + k * fs > u64::MAX ==> r == Err::<(), Error>(
                        Error::InvalidState("timestamp overflow"),
                    )
                    &&& old(self).spec_next_pts() + k * fs <= u64::MAX && old(sink).infallible() ==> r is Ok
                        || is_backend_encode_error(r->Err_0)
                }
            }),
            r is Ok && input.spec_len() != 0 ==> {
                let ch = popcount(old(self).spec_input().channels.0);
                let max = old(self).spec_options().max_packet_bytes;
                let acc = old(sink).accepted();
                &&& final(self).spec_input() == old(self).spec_input()
                &&& final(self).spec_options() == old(self).spec_options()
                &&& final(self).spec_params() == old(self).spec_params()
                &&& match old(self).spec_frame_samples() {
                    None => {
                        &&& final(sink).accepted().len() == acc.len() + 1
                        &&& final(sink).accepted().take(acc.len() as int) == acc
                        &&& opus_packet(
                            final(sink).accepted().last(),
                            old(self).spec_next_pts(),
                            (input.spec_len() / ch) as u64,
                            0,
                            max,
                        )
                        &&& final(self).spec_next_pts() == old(self).spec_next_pts() + input.spec_len() / ch
                        &&& final(self).spec_pending().len() == 0
                    },
                    Some(fs) => {
                        let data = old(self).spec_pending() + input_view(input);
                        let ps = (fs * ch) as nat;
                        let k = data.len() / ps;
                        &&& final(sink).accepted().len() == acc.len() + k
                        &&& final(sink).accepted().take(acc.len() as int) == acc
                        &&& forall|i: int|
                            0 <= i < k ==> opus_packet(
                                #[trigger] final(sink).accepted()[acc.len() + i],
                                (old(self).spec_next_pts() + i * fs) as u64,
                                fs as u64,
                                0,
                                max,
                            )
                        &&& final(self).spec_pending() == data.skip((k * ps) as int)
                        &&& final(self).spec_next_pts() == old(self).spec_next_pts() + k * fs
                    },
                }
            },
    {
        if !input.sample_format().same_as(self.spec.sample_format) {
            return Err(Error::InvalidArgument("buffer sample format does not match encoder input spec"));
        }
        let frame_count = frame_count(input.len(), self.channels)?;
        proof {
            assert(input.spec_len() == frame_count * self.channels) by (nonlinear_arith)
                requires
                    frame_count == input.spec_len() / (self.channels as nat),
                    input.spec_len() % (self.channels as nat) == 0,
                    self.channels > 0,
            ;
        }
        if frame_count == 0 {
            proof {
                assert(input.spec_len() == 0) by (nonlinear_arith)
                    requires
                        input.spec_len() == frame_count * self.channels,
                        frame_count == 0,
                ;
            }
            return Ok(());
        }
        match self.frame_samples {
            None => {
                if frame_count > u64::MAX - self.next_pts {
                    return Err(Error::InvalidState("timestamp overflow"));
                }
                let mut chunk = PendingPcm::with_format(input.sample_format())?;
                chunk.extend(input)?;
                proof {
                    assert(pending_view(chunk) =~= input_view(input));
                }
                let payload = encode_chunk(&mut self.encoder, &chunk, self.options.max_packet_bytes)?;
                let ghost plen = payload@.len();
                let r = self.emit_packet(payload, frame_count, 0, sink);
                r
            },
            Some(_) => {
                self.pending.extend(input)?;
                proof {
                    assert(pending_view(self.pending).len() % (self.channels as nat) == 0) by {
                        vstd::arithmetic::div_mod::lemma_mod_multiples_basic(frame_count as int, self.channels as int);
                        assert(frame_count * self.channels == self.channels * frame_count) by (nonlinear_arith);
                        vstd::arithmetic::div_mod::lemma_add_mod_noop(
                            pending_view(old(self).pending).len() as int,
                            input.spec_len() as int,
                            self.channels as int,
                        );
                        vstd::arithmetic::div_mod::lemma_small_mod(0, self.channels as nat);
                    }
                }
                self.drain_ready_packets(sink)
            },
        }
    }

    /// Codes every whole frame still pending, then what remains as one last
    /// frame padded with silence; the padding is declared as that packet's
    /// end trim. If the backend fails on the last frame, the padded samples
    /// stay pending.
    #[verifier::rlimit(80)]
    fn flush<S: PacketSink>(&mut self, sink: &mut S) -> (r: Result<(), Error>)
        ensures
            old(self).spec_pending().len() == 0 ==> r is Ok && *final(self) == *old(self)
                && final(sink).accepted() == old(sink).accepted(),
            ({
                let ch = popcount(old(self).spec_input().channels.0);
                let fs = old(self).spec_frame_samples()->0;
                let ps = fs * ch;
                let data = old(self).spec_pending();
                let k = data.len() / ps;
                let rest = data.skip((k * ps) as int);
                let last = if rest.len() != 0 {
                    1nat
                } else {
                    0nat
                };
                let acc = old(sink).accepted();
                let max = old(self).spec_options().max_packet_bytes;
                let c0 = old(self).spec_coded();
                let calls = final(self).spec_coded().skip(c0.len() as int);
                old(self).spec_pending().len() != 0 ==> {
                    &&& rest.len() != 0 && !old(self).spec_options().pad_flush ==> r is Err && ((r->Err_0 matches Error::InvalidState(_)
                        && calls.len() == k && final(sink).accepted().len() == acc.len() + k
                        && final(self).spec_pending() == rest) || calls.len() < k || final(sink).accepted().len()
                        < acc.len() + k)
                    &&& old(self).spec_next_pts() + k * fs > u64::MAX ==> r == Err::<(), Error>(
                        Error::InvalidState("timestamp overflow"),
                    )
                    &&& old(self).spec_next_pts() + (k + last) * fs <= u64::MAX && (rest.len() != 0
                        ==> old(self).spec_options().pad_flush) && old(sink).infallible() ==> r is Ok
                        || is_backend_encode_error(r->Err_0)
                    &&& r is Ok ==> {
                        &&& final(sink).accepted().len() == acc.len() + k + last
                        &&& final(sink).accepted().take(acc.len() as int) == acc
                        &&& forall|i: int|
                            0 <= i < k ==> opus_packet(
                                #[trigger] final(sink).accepted()[acc.len() + i],
                                (old(self).spec_next_pts() + i * fs) as u64,
                                fs as u64,
                                0,
                                max,
                            )
                        &&& rest.len() != 0 ==> opus_packet(
                            final(sink).accepted().last(),
                            (old(self).spec_next_pts() + k * fs) as u64,
                            fs as u64,
                            ((ps - rest.len()) / (ch as int)) as u32,
                            max,
                        )
                        &&& calls.len() == k + last
                        &&& forall|q: int| 0 <= q < k ==> #[trigger] calls[q] == (
                            data.subrange(q * ps, (q + 1) * ps),
                            final(sink).accepted()[acc.len() + q].data@,
                        )
                        &&& rest.len() != 0 ==> calls.last() == (
                            rest + opus_padding((ps - rest.len()) as nat),
                            final(sink).accepted().last().data@,
                        )
                        &&& final(self).spec_pending().len() == 0
                        &&& final(self).spec_next_pts() == old(self).spec_next_pts() + (k + last) * fs
                    }
                    &&& r is Err ==> {
                        &&& final(self).spec_coded().len() >= c0.len()
                        &&& final(self).spec_coded().take(c0.len() as int) == c0
                        &&& calls.len() <= k + last
                        &&& forall|q: int| 0 <= q < calls.len() && q < k ==> (#[trigger] calls[q]).0
                            == data.subrange(q * ps, (q + 1) * ps)
                        &&& final(sink).accepted().len() >= acc.len()
                        &&& final(sink).accepted().take(acc.len() as int) == acc
                        &&& final(self).spec_pending() == data.skip((calls.len() * ps) as int) || (calls.len()
                            == k && final(self).spec_pending() == rest + opus_padding((ps - rest.len()) as nat))
                            || (calls.len() == k + 1 && final(self).spec_pending().len() == 0)
                    }
                }
            }),
    {
        if self.pending.is_empty() {
            return Ok(());
        }
        let frame_samples = match self.frame_samples {
            Some(n) => n,
            None => {
                return Err(
                    Error::InvalidState("cannot flush partial opus data when frame duration is automatic"),
                );
            },
        };
        proof {
            assert(frame_samples <= 5760) by {
                assert(self.spec.sample_rate <= 48000);
            }
        }
        let ghost data = pending_view(self.pending);
        let ghost c0 = self.encoder.spec_coded();
        let ghost acc = sink.accepted();
        let ghost old_pts = self.next_pts;
        let packet_samples = frame_samples * self.channels;
        let ghost ps = packet_samples as int;
        let ghost k = data.len() / (packet_samples as nat);
        proof {
            assert(k * ps <= data.len() && data.len() - k * ps < ps) by (nonlinear_arith)
                requires
                    k == data.len() / (packet_samples as nat),
                    ps == packet_samples,
                    packet_samples > 0,
            ;
        }
        proof {
            assert(self.channels == popcount(self.spec.channels.0));
            assert(frame_samples == self.spec_frame_samples()->0);
            assert(k * frame_samples <= (k + 1) * frame_samples) by (nonlinear_arith);
        }
        let drained = self.drain_ready_packets(sink);
        match drained {
            Ok(()) => {},
            Err(e) => {
                return Err(e);
            },
        }
        let ghost mid_coded = self.encoder.spec_coded();
        let ghost mid_acc = sink.accepted();
        proof {
            assert(pending_view(self.pending) == data.skip(k * ps));
            assert(data.skip(k * ps).len() == data.len() - k * ps);
            assert(pending_view(self.pending).len() < packet_samples);
        }
        if self.pending.is_empty() {
            proof {
                assert(mid_coded.skip(c0.len() as int).len() == k);
            }
            return Ok(());
        }
        let pending_samples = self.pending.len();
        if pending_samples >= packet_samples {
            return Err(Error::InvalidState("pending opus samples should have been drained before flush padding"));
        }
        if !self.options.pad_flush {
            return Err(Error::InvalidState("cannot flush partial opus frame without padding"));
        }
        let pad_samples = packet_samples - pending_samples;
        let trim_end_frames = (pad_samples / self.channels) as u32;
        if frame_samples as u64 > u64::MAX - self.next_pts {
            proof {
                assert(self.next_pts == old_pts + k * frame_samples);
                assert(old_pts + (k + 1) * frame_samples > u64::MAX) by (nonlinear_arith)
                    requires
                        self.next_pts == old_pts + k * frame_samples,
                        frame_samples > u64::MAX - self.next_pts,
                ;
                assert(mid_coded.skip(c0.len() as int).len() == k);
            }
            return Err(Error::InvalidState("timestamp overflow"));
        }
        self.pending.pad_to(packet_samples);
        let ghost padded = pending_view(self.pending);
        proof {
            assert(padded =~= data.skip(k * ps) + opus_padding((ps - data.skip(k * ps).len()) as nat));
            assert(padded.len() % (self.channels as nat) == 0) by {
                vstd::arithmetic::div_mod::lemma_mod_multiples_basic(frame_samples as int, self.channels as int);
                assert(packet_samples == frame_samples * self.channels);
                assert(frame_samples * self.channels == self.channels * frame_samples) by (nonlinear_arith);
            }
        }
        let payload = match encode_chunk(&mut self.encoder, &self.pending, self.options.max_packet_bytes) {
            Ok(p) => p,
            Err(e) => {
                return Err(e);
            },
        };
        self.pending.clear();
        let r = self.emit_packet(payload, frame_samples as u64, trim_end_frames, sink);
        proof {
            let calls = self.encoder.spec_coded().skip(c0.len() as int);
            let mid_calls = mid_coded.skip(c0.len() as int);
            assert(mid_calls.len() == k);
            assert(k * frame_samples + frame_samples == (k + 1) * frame_samples) by (nonlinear_arith);
            assert forall|q: int| 0 <= q < k implies #[trigger] calls[q] == mid_calls[q] by {
                assert(self.encoder.spec_coded()[c0.len() + q] == mid_coded[c0.len() + q]);
            }
            if r is Ok {
                assert forall|i: int| 0 <= i < k implies #[trigger] sink.accepted()[acc.len() + i] == mid_acc[acc.len()
                    + i] by {
                    assert(sink.accepted().take(mid_acc.len() as int)[acc.len() + i] == mid_acc[acc.len() + i]);
                }
                assert(sink.accepted().take(acc.len() as int) =~= acc) by {
                    assert(sink.accepted().take(mid_acc.len() as int) == mid_acc);
                    assert(mid_acc.take(acc.len() as int) == acc);
                }
            }
        }
        r
    }

    /// Restarts timestamps, forgets pending samples and resets the backend,
    /// which keeps the settings it was built with; it always succeeds.
    fn reset(&mut self) -> (r: Result<(), Error>)
        ensures
            final(self).spec_next_pts() == 0,
            final(self).spec_pending().len() == 0,
            final(self).spec_input() == old(self).spec_input(),
            final(self).spec_options() == old(self).spec_options(),
            final(self).spec_params() == old(self).spec_params(),
            final(self).spec_backend_settings() == old(self).spec_backend_settings(),
            final(self).spec_coded().len() == 0,
            r is Ok,
    {
        self.next_pts = 0;
        self.pending.clear();
        match backend_reset(&mut self.encoder) {
            Ok(()) => Ok(()),
            Err(e) => Err(map_ctl_error(e)),
        }
    }
}

} // verus!
