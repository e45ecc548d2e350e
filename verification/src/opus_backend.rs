//! The calls into the `mousiki` Opus encoder, behind trusted wrappers, and
//! the library's own mirrors of its option and error values.
use vstd::prelude::*;

use mousiki::c_style_api::opus_encoder::{opus_encoder_ctl, OpusEncoderCtlRequest};
use mousiki::{EncoderBuilderError, OpusEncodeError, OpusEncoderCtlError, OpusEncoderInitError};

verus! {

#[verifier::external_type_specification]
#[verifier::external_body]
pub struct ExBackendEncoder(mousiki::Encoder);

#[verifier::external_type_specification]
#[verifier::external_body]
pub struct ExBackendBuilder(mousiki::EncoderBuilder);

/// The settings a backend builder has recorded: the values the builder was
/// made with and each setting handed to it (`None` where none was).
#[derive(Clone, Copy, Debug, PartialEq, Eq, Structural)]
pub struct BackendSettings {
    pub sample_rate: u32,
    pub channels: OpusChannelCount,
    pub application: OpusApplication,
    pub bitrate: Option<OpusBitrate>,
    pub complexity: Option<i32>,
    pub vbr: Option<bool>,
    pub vbr_constraint: Option<bool>,
    pub max_bandwidth: Option<OpusBandwidth>,
    pub signal: Option<OpusSignal>,
    pub inband_fec: Option<bool>,
    pub packet_loss_perc: Option<i32>,
    pub dtx: Option<bool>,
    pub lsb_depth: Option<i32>,
    pub frame_duration: Option<OpusFrameDuration>,
    pub prediction_disabled: Option<bool>,
}

/// The settings of a fresh builder.
pub open spec fn initial_settings(
    sample_rate: u32,
    channels: OpusChannelCount,
    application: OpusApplication,
) -> BackendSettings {
    BackendSettings {
        sample_rate,
        channels,
        application,
        bitrate: None,
        complexity: None,
        vbr: None,
        vbr_constraint: None,
        max_bandwidth: None,
        signal: None,
        inband_fec: None,
        packet_loss_perc: None,
        dtx: None,
        lsb_depth: None,
        frame_duration: None,
        prediction_disabled: None,
    }
}

/// The samples of one coding call, as numbers.
pub open spec fn pcm16_view(pcm: Seq<i16>) -> Seq<int> {
    Seq::new(pcm.len(), |i: int| pcm[i] as int)
}

/// The samples of one 24-bit coding call, as numbers.
pub open spec fn pcm24_view(pcm: Seq<i32>) -> Seq<int> {
    Seq::new(pcm.len(), |i: int| pcm[i] as int)
}

/// The backend encoder, with the settings it was built with, and a record of
/// every successful coding call since it was built or last reset: the
/// samples each call was given and the packet bytes it produced. Only the
/// wrappers of this file write the record.
pub struct Backend {
    encoder: mousiki::Encoder,
    settings: Ghost<BackendSettings>,
    coded: Ghost<Seq<(Seq<int>, Seq<u8>)>>,
}

impl Backend {
    /// The settings the encoder was built with.
    pub closed spec fn spec_settings(&self) -> BackendSettings {
        self.settings@
    }

    pub open spec fn spec_sample_rate(&self) -> u32 {
        self.spec_settings().sample_rate
    }

    pub open spec fn spec_application(&self) -> OpusApplication {
        self.spec_settings().application
    }

    /// Every successful coding call since the encoder was built or last
    /// reset: its samples and its packet.
    pub closed spec fn spec_coded(&self) -> Seq<(Seq<int>, Seq<u8>)> {
        self.coded@
    }
}

/// A backend builder, with the settings it has recorded.
pub struct BackendBuilder {
    builder: mousiki::EncoderBuilder,
    settings: Ghost<BackendSettings>,
}

impl BackendBuilder {
    /// The settings recorded so far.
    pub closed spec fn spec_settings(&self) -> BackendSettings {
        self.settings@
    }
}

/// The settings under which the backend builds: a rate it can run at, a
/// positive bitrate when one is given, complexity 0 to 10, expected loss 0 to
/// 100 percent and 8 to 24 significant input bits.
pub open spec fn backend_settings_ok(s: BackendSettings) -> bool {
    &&& backend_rate_ok(s.sample_rate)
    &&& (s.bitrate matches Some(OpusBitrate::Bits(b)) ==> b > 0)
    &&& (s.complexity matches Some(c) ==> 0 <= c <= 10)
    &&& (s.packet_loss_perc matches Some(p) ==> 0 <= p <= 100)
    &&& (s.lsb_depth matches Some(d) ==> 8 <= d <= 24)
}

/// The sample rates the backend encoder can be created at.
pub open spec fn backend_rate_ok(sample_rate: u32) -> bool {
    sample_rate == 8000 || sample_rate == 12000 || sample_rate == 16000 || sample_rate == 24000
        || sample_rate == 48000
}

/// The backend's lookahead, in samples at its own rate: 2.5 ms, plus 4 ms of
/// delay compensation except in the low-delay application.
pub open spec fn opus_lookahead(sample_rate: u32, application: OpusApplication) -> int {
    sample_rate / 400 + if application == OpusApplication::LowDelay {
        0
    } else {
        sample_rate / 250
    }
}

/// Coding mode of the encoder.
#[derive(Clone, Copy, Debug, PartialEq, Eq, Structural)]
pub enum OpusApplication {
    Voip,
    Audio,
    LowDelay,
}

/// Target bitrate.
#[derive(Clone, Copy, Debug, PartialEq, Eq, Structural)]
pub enum OpusBitrate {
    Auto,
    Max,
    Bits(u32),
}

/// Audio bandwidth limit.
#[derive(Clone, Copy, Debug, PartialEq, Eq, Structural)]
pub enum OpusBandwidth {
    Narrowband,
    Mediumband,
    Wideband,
    Superwideband,
    Fullband,
}

/// Signal type hint.
#[derive(Clone, Copy, Debug, PartialEq, Eq, Structural)]
pub enum OpusSignal {
    Auto,
    Voice,
    Music,
}

/// Duration of one coded frame.
#[derive(Clone, Copy, Debug, PartialEq, Eq, Structural)]
pub enum OpusFrameDuration {
    Auto,
    Ms2_5,
    Ms5,
    Ms10,
    Ms20,
    Ms40,
    Ms60,
    Ms80,
    Ms100,
    Ms120,
}

/// Mono or stereo, the channel counts the single-stream encoder takes.
#[derive(Clone, Copy, Debug, PartialEq, Eq, Structural)]
pub enum OpusChannelCount {
    Mono,
    Stereo,
}

/// Why the backend could not be created.
#[derive(Clone, Copy, Debug, PartialEq, Eq, Structural)]
pub enum BackendInitError {
    BadArgument,
    SilkInit,
    CeltInit,
}

/// Why a backend control request failed.
#[derive(Clone, Copy, Debug, PartialEq, Eq, Structural)]
pub enum BackendCtlError {
    BadArgument,
    Unimplemented,
    Silk,
    InternalError,
}

/// Why building the backend failed: creating it, or applying a setting.
#[derive(Clone, Copy, Debug, PartialEq, Eq, Structural)]
pub enum BackendBuildError {
    Init(BackendInitError),
    Ctl(BackendCtlError),
}

/// Why coding a frame failed.
#[derive(Clone, Copy, Debug, PartialEq, Eq, Structural)]
pub enum BackendEncodeError {
    BadArgument,
    BufferTooSmall,
    InternalError,
    Unimplemented,
    Silk,
}

/// `mousiki::Encoder::builder`: a builder for `sample_rate`, the channel
/// count and the application, with every other setting left to the library.
#[verifier::external_body]
pub(crate) fn backend_builder(sample_rate: u32, channels: OpusChannelCount, application: OpusApplication)
    -> (r: BackendBuilder)
    ensures
        r.spec_settings() == initial_settings(sample_rate, channels, application),
{
    let ch = match channels {
        OpusChannelCount::Mono => mousiki::Channels::Mono,
        OpusChannelCount::Stereo => mousiki::Channels::Stereo,
    };
    let app = match application {
        OpusApplication::Voip => mousiki::Application::Voip,
        OpusApplication::Audio => mousiki::Application::Audio,
        OpusApplication::LowDelay => mousiki::Application::LowDelay,
    };
    let settings = Ghost(initial_settings(sample_rate, channels, application));
    BackendBuilder { builder: mousiki::Encoder::builder(sample_rate, ch, app), settings }
}

/// `mousiki::EncoderBuilder::bitrate`: records the target bitrate.
#[verifier::external_body]
pub(crate) fn backend_bitrate(b: BackendBuilder, value: OpusBitrate) -> (r: BackendBuilder)
    requires
        value matches OpusBitrate::Bits(bits) ==> bits <= i32::MAX,
    ensures
        r.spec_settings() == (BackendSettings { bitrate: Some(value), ..b.spec_settings() }),
{
    let v = match value {
        OpusBitrate::Auto => mousiki::Bitrate::Auto,
        OpusBitrate::Max => mousiki::Bitrate::Max,
        OpusBitrate::Bits(bits) => mousiki::Bitrate::Bits(bits as i32),
    };
    BackendBuilder { builder: b.builder.bitrate(v), settings: Ghost(BackendSettings { bitrate: Some(value), ..b.settings@ }) }
}

/// `mousiki::EncoderBuilder::complexity`: records the complexity.
#[verifier::external_body]
pub(crate) fn backend_complexity(b: BackendBuilder, value: i32) -> (r: BackendBuilder)
    ensures
        r.spec_settings() == (BackendSettings { complexity: Some(value), ..b.spec_settings() }),
{
    BackendBuilder { builder: b.builder.complexity(value), settings: Ghost(BackendSettings { complexity: Some(value), ..b.settings@ }) }
}

/// `mousiki::EncoderBuilder::vbr`: records whether the bitrate varies.
#[verifier::external_body]
pub(crate) fn backend_vbr(b: BackendBuilder, value: bool) -> (r: BackendBuilder)
    ensures
        r.spec_settings() == (BackendSettings { vbr: Some(value), ..b.spec_settings() }),
{
    BackendBuilder { builder: b.builder.vbr(value), settings: Ghost(BackendSettings { vbr: Some(value), ..b.settings@ }) }
}

/// `mousiki::EncoderBuilder::vbr_constraint`: records whether variable
/// bitrate is constrained.
#[verifier::external_body]
pub(crate) fn backend_vbr_constraint(b: BackendBuilder, value: bool) -> (r: BackendBuilder)
    ensures
        r.spec_settings() == (BackendSettings { vbr_constraint: Some(value), ..b.spec_settings() }),
{
    BackendBuilder { builder: b.builder.vbr_constraint(value), settings: Ghost(BackendSettings { vbr_constraint: Some(value), ..b.settings@ }) }
}

/// `mousiki::EncoderBuilder::max_bandwidth`: records the bandwidth limit.
#[verifier::external_body]
pub(crate) fn backend_max_bandwidth(b: BackendBuilder, value: OpusBandwidth) -> (r: BackendBuilder)
    ensures
        r.spec_settings() == (BackendSettings { max_bandwidth: Some(value), ..b.spec_settings() }),
{
    let v = match value {
        OpusBandwidth::Narrowband => mousiki::Bandwidth::Narrowband,
        OpusBandwidth::Mediumband => mousiki::Bandwidth::Mediumband,
        OpusBandwidth::Wideband => mousiki::Bandwidth::Wideband,
        OpusBandwidth::Superwideband => mousiki::Bandwidth::Superwideband,
        OpusBandwidth::Fullband => mousiki::Bandwidth::Fullband,
    };
    BackendBuilder { builder: b.builder.max_bandwidth(v), settings: Ghost(BackendSettings { max_bandwidth: Some(value), ..b.settings@ }) }
}

/// `mousiki::EncoderBuilder::signal`: records the signal hint.
#[verifier::external_body]
pub(crate) fn backend_signal(b: BackendBuilder, value: OpusSignal) -> (r: BackendBuilder)
    ensures
        r.spec_settings() == (BackendSettings { signal: Some(value), ..b.spec_settings() }),
{
    let v = match value {
        OpusSignal::Auto => mousiki::Signal::Auto,
        OpusSignal::Voice => mousiki::Signal::Voice,
        OpusSignal::Music => mousiki::Signal::Music,
    };
    BackendBuilder { builder: b.builder.signal(v), settings: Ghost(BackendSettings { signal: Some(value), ..b.settings@ }) }
}

/// `mousiki::EncoderBuilder::inband_fec`: records in-band forward error correction.
#[verifier::external_body]
pub(crate) fn backend_inband_fec(b: BackendBuilder, value: bool) -> (r: BackendBuilder)
    ensures
        r.spec_settings() == (BackendSettings { inband_fec: Some(value), ..b.spec_settings() }),
{
    BackendBuilder { builder: b.builder.inband_fec(value), settings: Ghost(BackendSettings { inband_fec: Some(value), ..b.settings@ }) }
}

/// `mousiki::EncoderBuilder::packet_loss_perc`: records the expected loss.
#[verifier::external_body]
pub(crate) fn backend_packet_loss_perc(b: BackendBuilder, value: i32) -> (r: BackendBuilder)
    ensures
        r.spec_settings() == (BackendSettings { packet_loss_perc: Some(value), ..b.spec_settings() }),
{
    BackendBuilder { builder: b.builder.packet_loss_perc(value), settings: Ghost(BackendSettings { packet_loss_perc: Some(value), ..b.settings@ }) }
}

/// `mousiki::EncoderBuilder::dtx`: records discontinuous transmission.
#[verifier::external_body]
pub(crate) fn backend_dtx(b: BackendBuilder, value: bool) -> (r: BackendBuilder)
    ensures
        r.spec_settings() == (BackendSettings { dtx: Some(value), ..b.spec_settings() }),
{
    BackendBuilder { builder: b.builder.dtx(value), settings: Ghost(BackendSettings { dtx: Some(value), ..b.settings@ }) }
}

/// `mousiki::EncoderBuilder::lsb_depth`: records the input's significant bits.
#[verifier::external_body]
pub(crate) fn backend_lsb_depth(b: BackendBuilder, value: i32) -> (r: BackendBuilder)
    ensures
        r.spec_settings() == (BackendSettings { lsb_depth: Some(value), ..b.spec_settings() }),
{
    BackendBuilder { builder: b.builder.lsb_depth(value), settings: Ghost(BackendSettings { lsb_depth: Some(value), ..b.settings@ }) }
}

/// `mousiki::EncoderBuilder::frame_duration`: records the frame duration.
#[verifier::external_body]
pub(crate) fn backend_frame_duration(b: BackendBuilder, value: OpusFrameDuration) -> (r: BackendBuilder)
    ensures
        r.spec_settings() == (BackendSettings { frame_duration: Some(value), ..b.spec_settings() }),
{
    let v = match value {
        OpusFrameDuration::Auto => mousiki::FrameDuration::Auto,
        OpusFrameDuration::Ms2_5 => mousiki::FrameDuration::Ms2_5,
        OpusFrameDuration::Ms5 => mousiki::FrameDuration::Ms5,
        OpusFrameDuration::Ms10 => mousiki::FrameDuration::Ms10,
        OpusFrameDuration::Ms20 => mousiki::FrameDuration::Ms20,
        OpusFrameDuration::Ms40 => mousiki::FrameDuration::Ms40,
        OpusFrameDuration::Ms60 => mousiki::FrameDuration::Ms60,
        OpusFrameDuration::Ms80 => mousiki::FrameDuration::Ms80,
        OpusFrameDuration::Ms100 => mousiki::FrameDuration::Ms100,
        OpusFrameDuration::Ms120 => mousiki::FrameDuration::Ms120,
    };
    BackendBuilder { builder: b.builder.frame_duration(v), settings: Ghost(BackendSettings { frame_duration: Some(value), ..b.settings@ }) }
}

/// `mousiki::EncoderBuilder::prediction_disabled`: records whether
/// inter-frame prediction is off.
#[verifier::external_body]
pub(crate) fn backend_prediction_disabled(b: BackendBuilder, value: bool) -> (r: BackendBuilder)
    ensures
        r.spec_settings() == (BackendSettings { prediction_disabled: Some(value), ..b.spec_settings() }),
{
    BackendBuilder { builder: b.builder.prediction_disabled(value), settings: Ghost(BackendSettings { prediction_disabled: Some(value), ..b.settings@ }) }
}

/// `mousiki::EncoderBuilder::build`: creates the encoder at the recorded
/// rate, channel count and application, then applies the recorded settings.
/// It succeeds exactly when the rate is one the backend runs at and each
/// recorded number lies in the backend's range (`backend_settings_ok`); the
/// other settings are always accepted. The encoder carries the builder's
/// record of its settings and has coded nothing yet.
#[verifier::external_body]
pub(crate) fn backend_build(b: BackendBuilder) -> (r: Result<Backend, BackendBuildError>)
    ensures
        r is Ok <==> backend_settings_ok(b.spec_settings()),
        r is Ok ==> r->Ok_0.spec_settings() == b.spec_settings() && r->Ok_0.spec_coded().len() == 0,
{
    match b.builder.build() {
        Ok(e) => Ok(Backend { encoder: e, settings: b.settings, coded: Ghost(Seq::empty()) }),
        Err(EncoderBuilderError::Init(e)) => Err(BackendBuildError::Init(match e {
            OpusEncoderInitError::BadArgument => BackendInitError::BadArgument,
            OpusEncoderInitError::SilkInit => BackendInitError::SilkInit,
            OpusEncoderInitError::CeltInit => BackendInitError::CeltInit,
        })),
        Err(EncoderBuilderError::Ctl(e)) => Err(BackendBuildError::Ctl(match e {
            OpusEncoderCtlError::BadArgument => BackendCtlError::BadArgument,
            OpusEncoderCtlError::Unimplemented => BackendCtlError::Unimplemented,
            OpusEncoderCtlError::Silk(_) => BackendCtlError::Silk,
            OpusEncoderCtlError::InternalError => BackendCtlError::InternalError,
        })),
    }
}

/// `opus_encoder_ctl` with `GetLookahead`: the encoder's algorithmic delay in
/// samples at its own rate, which the request always answers: a 400th of the
/// rate, plus a 250th of it except in the low-delay application.
#[verifier::external_body]
pub(crate) fn backend_lookahead(b: &mut Backend) -> (r: Result<i32, BackendCtlError>)
    requires
        backend_rate_ok(old(b).spec_sample_rate()),
    ensures
        r == Ok::<i32, BackendCtlError>(opus_lookahead(old(b).spec_sample_rate(), old(b).spec_application()) as i32),
        final(b).spec_settings() == old(b).spec_settings(),
        final(b).spec_coded() == old(b).spec_coded(),
{
    let mut lookahead = 0_i32;
    match opus_encoder_ctl(b.encoder.as_raw_mut(), OpusEncoderCtlRequest::GetLookahead(&mut lookahead)) {
        Ok(()) => Ok(lookahead),
        Err(OpusEncoderCtlError::BadArgument) => Err(BackendCtlError::BadArgument),
        Err(OpusEncoderCtlError::Unimplemented) => Err(BackendCtlError::Unimplemented),
        Err(OpusEncoderCtlError::Silk(_)) => Err(BackendCtlError::Silk),
        Err(OpusEncoderCtlError::InternalError) => Err(BackendCtlError::InternalError),
    }
}

/// `mousiki::Encoder::encode`: codes interleaved 16-bit samples into
/// `packet`, returning the number of bytes written, at most the buffer's
/// length. No samples is a bad argument, and a buffer under two bytes
/// always fails. The call and its packet (the first bytes of the buffer) are
/// added to the record; the bytes themselves depend on the encoder's state
/// and are not stated. The buffer keeps its length.
#[verifier::external_body]
pub(crate) fn backend_encode(b: &mut Backend, pcm: &[i16], packet: &mut Vec<u8>) -> (r: Result<
    usize,
    BackendEncodeError,
>)
    ensures
        final(b).spec_settings() == old(b).spec_settings(),
        final(packet)@.len() == old(packet)@.len(),
        r is Ok ==> r->Ok_0 <= old(packet)@.len() && final(b).spec_coded() == old(b).spec_coded().push(
            (pcm16_view(pcm@), final(packet)@.take(r->Ok_0 as int)),
        ),
        r is Err ==> final(b).spec_coded() == old(b).spec_coded(),
        pcm@.len() == 0 ==> r is Err && r->Err_0 == BackendEncodeError::BadArgument,
        old(packet)@.len() < 2 ==> r is Err,
{
    match b.encoder.encode(pcm, packet.as_mut_slice()) {
        Ok(n) => Ok(n),
        Err(OpusEncodeError::BadArgument) => Err(BackendEncodeError::BadArgument),
        Err(OpusEncodeError::BufferTooSmall) => Err(BackendEncodeError::BufferTooSmall),
        Err(OpusEncodeError::InternalError) => Err(BackendEncodeError::InternalError),
        Err(OpusEncodeError::Unimplemented) => Err(BackendEncodeError::Unimplemented),
        Err(OpusEncodeError::Silk(_)) => Err(BackendEncodeError::Silk),
    }
}

/// `mousiki::Encoder::encode_24bit`: codes interleaved 24-bit samples
/// (stored in `i32`) into `packet`, returning the number of bytes written, at
/// most the buffer's length. No samples is a bad argument, and a buffer under
/// two bytes always fails. The call and its packet are added to the record;
/// the bytes themselves are not stated. The buffer keeps its length.
#[verifier::external_body]
pub(crate) fn backend_encode_24bit(b: &mut Backend, pcm: &[i32], packet: &mut Vec<u8>) -> (r:
    Result<usize, BackendEncodeError>)
    ensures
        final(b).spec_settings() == old(b).spec_settings(),
        final(packet)@.len() == old(packet)@.len(),
        r is Ok ==> r->Ok_0 <= old(packet)@.len() && final(b).spec_coded() == old(b).spec_coded().push(
            (pcm24_view(pcm@), final(packet)@.take(r->Ok_0 as int)),
        ),
        r is Err ==> final(b).spec_coded() == old(b).spec_coded(),
        pcm@.len() == 0 ==> r is Err && r->Err_0 == BackendEncodeError::BadArgument,
        old(packet)@.len() < 2 ==> r is Err,
{
    match b.encoder.encode_24bit(pcm, packet.as_mut_slice()) {
        Ok(n) => Ok(n),
        Err(OpusEncodeError::BadArgument) => Err(BackendEncodeError::BadArgument),
        Err(OpusEncodeError::BufferTooSmall) => Err(BackendEncodeError::BufferTooSmall),
        Err(OpusEncodeError::InternalError) => Err(BackendEncodeError::InternalError),
        Err(OpusEncodeError::Unimplemented) => Err(BackendEncodeError::Unimplemented),
        Err(OpusEncodeError::Silk(_)) => Err(BackendEncodeError::Silk),
    }
}

/// `mousiki::Encoder::reset_state`: re-initialises the SILK and CELT coders
/// and the encoder's running state (delay buffer, mode and bandwidth history,
/// signal analysis), so the record of coding calls starts anew; the record of
/// the settings it was built with stays as it is. What the call leaves of the
/// encoder's other internal fields is not stated. The call always succeeds:
/// both coders' resets return no error on any path.
#[verifier::external_body]
pub(crate) fn backend_reset(b: &mut Backend) -> (r: Result<(), BackendCtlError>)
    ensures
        r is Ok,
        final(b).spec_settings() == old(b).spec_settings(),
        final(b).spec_coded().len() == 0,
{
    let r = b.encoder.reset_state();
    b.coded = Ghost(Seq::empty());
    match r {
        Ok(()) => Ok(()),
        Err(OpusEncoderCtlError::BadArgument) => Err(BackendCtlError::BadArgument),
        Err(OpusEncoderCtlError::Unimplemented) => Err(BackendCtlError::Unimplemented),
        Err(OpusEncoderCtlError::Silk(_)) => Err(BackendCtlError::Silk),
        Err(OpusEncoderCtlError::InternalError) => Err(BackendCtlError::InternalError),
    }
}

} // verus!
