//! Ogg Opus header packets (RFC 7845), channel-mapping checks and the
//! conversion of track time to 48 kHz samples.
use vstd::prelude::*;

use crate::bits::{le16, le32, push_all, push_le16, push_le32};
use crate::codecs::{CodecParameters, CodecSpecific, OpusStreamMapping};
use crate::error::Error;
use crate::units::TimeBase;
use crate::vorbis::{comments_block, encodable, VorbisComments};

verus! {

pub open spec fn opus_head_magic() -> Seq<u8> {
    seq![0x4fu8, 0x70u8, 0x75u8, 0x73u8, 0x48u8, 0x65u8, 0x61u8, 0x64u8]
}

pub open spec fn opus_tags_magic() -> Seq<u8> {
    seq![0x4fu8, 0x70u8, 0x75u8, 0x73u8, 0x54u8, 0x61u8, 0x67u8, 0x73u8]
}

/// The mapping family a mapping declares; family 0 when there is none.
pub open spec fn mapping_family(m: Option<OpusStreamMapping>) -> u8 {
    match m {
        Some(m) => m.family,
        None => 0,
    }
}

/// The identification header: magic, version 1, channel count, pre-skip,
/// input sample rate, output gain, mapping family and, for a nonzero family,
/// the stream counts and the channel mapping table.
pub open spec fn opus_head(
    channel_count: u8,
    pre_skip: u16,
    input_sample_rate: u32,
    output_gain: i16,
    m: Option<OpusStreamMapping>,
) -> Seq<u8> {
    let family = mapping_family(m);
    opus_head_magic() + seq![1u8, channel_count] + le16(pre_skip) + le32(input_sample_rate) + le16(
        output_gain as u16,
    ) + seq![family] + if family != 0 {
        seq![m->0.stream_count, m->0.coupled_stream_count] + m->0.mapping@
    } else {
        Seq::empty()
    }
}

/// The conditions `build_opus_head` checks.
pub open spec fn opus_head_ok(channel_count: u8, m: Option<OpusStreamMapping>) -> bool {
    &&& channel_count != 0
    &&& mapping_family(m) != 0 ==> {
        &&& m->0.stream_count != 0
        &&& m->0.coupled_stream_count <= m->0.stream_count
        &&& m->0.mapping@.len() == channel_count
    }
}

pub open spec fn opt_deref<'a>(m: Option<&'a OpusStreamMapping>) -> Option<OpusStreamMapping> {
    match m {
        Some(r) => Some(*r),
        None => None,
    }
}

/// Builds the identification header, or `InvalidArgument` when the channel
/// count is zero or a nonzero-family mapping is inconsistent.
pub fn build_opus_head(
    channel_count: u8,
    pre_skip: u16,
    input_sample_rate: u32,
    output_gain: i16,
    stream_mapping: Option<&OpusStreamMapping>,
) -> (r: Result<Vec<u8>, Error>)
    ensures
        r is Ok <==> opus_head_ok(channel_count, opt_deref(stream_mapping)),
        r is Ok ==> r->Ok_0@ == opus_head(
            channel_count,
            pre_skip,
            input_sample_rate,
            output_gain,
            opt_deref(stream_mapping),
        ),
        r is Err ==> r->Err_0 matches Error::InvalidArgument(_),
{
    if channel_count == 0 {
        return Err(Error::InvalidArgument("ogg opus channel count must be greater than zero"));
    }
    let family: u8 = match stream_mapping {
        Some(m) => m.family,
        None => 0,
    };
    if family != 0 {
        let mapping = match stream_mapping {
            Some(m) => m,
            None => {
                return Err(
                    Error::InvalidArgument(
                        "nonzero opus mapping family requires stream mapping metadata",
                    ),
                );
            },
        };
        if mapping.stream_count == 0 {
            return Err(Error::InvalidArgument("opus stream_count must be greater than zero"));
        }
        if mapping.coupled_stream_count > mapping.stream_count {
            return Err(
                Error::InvalidArgument("opus coupled_stream_count must not exceed stream_count"),
            );
        }
        if mapping.mapping.len() != channel_count as usize {
            return Err(
                Error::InvalidArgument("opus channel mapping table length must equal channel count"),
            );
        }
    }
    let magic: [u8; 8] = [0x4f, 0x70, 0x75, 0x73, 0x48, 0x65, 0x61, 0x64];
    let mut packet: Vec<u8> = Vec::new();
    push_all(&mut packet, &magic);
    packet.push(1);
    packet.push(channel_count);
    push_le16(&mut packet, pre_skip);
    push_le32(&mut packet, input_sample_rate);
    push_le16(&mut packet, output_gain as u16);
    packet.push(family);
    let ghost base = packet@;
    match stream_mapping {
        Some(mapping) => {
            if family != 0 {
                packet.push(mapping.stream_count);
                packet.push(mapping.coupled_stream_count);
                push_all(&mut packet, mapping.mapping.as_slice());
                proof {
                    assert(packet@ =~= base + (seq![mapping.stream_count, mapping.coupled_stream_count]
                        + mapping.mapping@));
                }
            } else {
                proof {
                    assert(packet@ =~= base + Seq::<u8>::empty());
                }
            }
        },
        None => {
            proof {
                assert(packet@ =~= base + Seq::<u8>::empty());
            }
        },
    }
    proof {
        assert(magic@ =~= opus_head_magic());
        assert(packet@ =~= opus_head(
            channel_count,
            pre_skip,
            input_sample_rate,
            output_gain,
            opt_deref(stream_mapping),
        ));
    }
    Ok(packet)
}

/// The comment header: magic then the Vorbis comment block.
pub open spec fn opus_tags(c: VorbisComments) -> Seq<u8> {
    opus_tags_magic() + comments_block(c.spec_vendor(), c.spec_entries())
}

pub open spec fn opus_tags_ok(c: VorbisComments) -> bool {
    &&& encodable(c.spec_vendor(), c.spec_entries())
    &&& 8 + comments_block(c.spec_vendor(), c.spec_entries()).len() <= usize::MAX
}

/// Builds the comment header, or `Unsupported` when the comments do not fit.
pub fn build_opus_tags(comments: &VorbisComments) -> (r: Result<Vec<u8>, Error>)
    ensures
        r is Ok <==> opus_tags_ok(*comments),
        r is Ok ==> r->Ok_0@ == opus_tags(*comments),
        r is Err ==> r->Err_0 matches Error::Unsupported(_),
{
    let payload = match comments.encode() {
        Some(p) => p,
        None => {
            return Err(Error::Unsupported("opus comment header exceeds u32 limits"));
        },
    };
    if payload.len() > usize::MAX - 8 {
        return Err(Error::Unsupported("opus comment header exceeds platform limits"));
    }
    let magic: [u8; 8] = [0x4f, 0x70, 0x75, 0x73, 0x54, 0x61, 0x67, 0x73];
    let mut packet: Vec<u8> = Vec::new();
    push_all(&mut packet, &magic);
    push_all(&mut packet, payload.as_slice());
    proof {
        assert(magic@ =~= opus_tags_magic());
    }
    Ok(packet)
}

/// A channel count and a stream mapping agree: without a mapping, or with a
/// family-0 one, at most two channels, one stream, coupled exactly when
/// stereo and no table; with another family at least one stream, no more
/// coupled streams than streams, and one table entry per channel.
pub open spec fn mapping_valid(channel_count: u8, m: Option<OpusStreamMapping>) -> bool {
    match m {
        None => channel_count <= 2,
        Some(m) => if m.family == 0 {
            &&& channel_count <= 2
            &&& m.mapping@.len() == 0
            &&& m.stream_count == 1
            &&& m.coupled_stream_count == (if channel_count == 2 {
                1u8
            } else {
                0u8
            })
        } else {
            &&& m.stream_count != 0
            &&& m.coupled_stream_count <= m.stream_count
            &&& m.mapping@.len() == channel_count
        },
    }
}

/// Checks a stream mapping against the channel count.
pub fn validate_opus_stream_mapping(
    channel_count: u8,
    stream_mapping: Option<&OpusStreamMapping>,
) -> (r: Result<(), Error>)
    ensures
        r is Ok <==> mapping_valid(channel_count, opt_deref(stream_mapping)),
        r is Err ==> r->Err_0 matches Error::InvalidArgument(_),
{
    let stream_mapping = match stream_mapping {
        Some(m) => m,
        None => {
            if channel_count > 2 {
                return Err(
                    Error::InvalidArgument(
                        "multichannel ogg opus tracks must provide opus_stream_mapping metadata",
                    ),
                );
            }
            return Ok(());
        },
    };
    if stream_mapping.family == 0 {
        if channel_count > 2 {
            return Err(Error::InvalidArgument("opus mapping family 0 supports only mono or stereo"));
        }
        if stream_mapping.mapping.len() != 0 {
            return Err(
                Error::InvalidArgument(
                    "opus mapping family 0 must not provide a coded channel mapping table",
                ),
            );
        }
        if stream_mapping.stream_count != 1 {
            return Err(Error::InvalidArgument("opus mapping family 0 must use exactly one stream"));
        }
        let expected_coupled: u8 = if channel_count == 2 {
            1
        } else {
            0
        };
        if stream_mapping.coupled_stream_count != expected_coupled {
            return Err(
                Error::InvalidArgument("opus mapping family 0 has an invalid coupled stream count"),
            );
        }
        return Ok(());
    }
    if stream_mapping.stream_count == 0 {
        return Err(Error::InvalidArgument("opus stream_count must be greater than zero"));
    }
    if stream_mapping.coupled_stream_count > stream_mapping.stream_count {
        return Err(Error::InvalidArgument("opus coupled_stream_count must not exceed stream_count"));
    }
    if stream_mapping.mapping.len() != channel_count as usize {
        return Err(
            Error::InvalidArgument("opus channel mapping table length must equal channel count"),
        );
    }
    Ok(())
}

/// The Opus mapping of the parameters: `Some` for Opus metadata, `None` for
/// none, and `InvalidArgument` for metadata of another codec.
pub fn extract_opus_stream_mapping(params: &CodecParameters) -> (r: Result<
    Option<&OpusStreamMapping>,
    Error,
>)
    ensures
        match params.codec_specific {
            Some(CodecSpecific::Opus(m)) => r == Ok::<Option<&OpusStreamMapping>, Error>(Some(&m)),
            Some(_) => r is Err && r->Err_0 matches Error::InvalidArgument(_),
            None => r == Ok::<Option<&OpusStreamMapping>, Error>(None),
        },
{
    match &params.codec_specific {
        Some(CodecSpecific::Opus(mapping)) => Ok(Some(mapping)),
        Some(_) => Err(
            Error::InvalidArgument("ogg opus muxer received non-opus codec-specific parameters"),
        ),
        None => Ok(None),
    }
}

/// `value` ticks of `time_base` counted in 48 kHz samples, when that is a
/// whole number that fits in 64 bits.
pub open spec fn opus_samples(value: u64, numer: u32, denom: u32) -> int {
    (value * numer * 48000) / (denom as int)
}

pub open spec fn opus_samples_exact(value: u64, numer: u32, denom: u32) -> bool {
    (value * numer * 48000) % (denom as int) == 0
}

/// Converts `value` ticks of `time_base` to 48 kHz samples. Fails with
/// `InvalidArgument` when the result is not whole and with `Unsupported` when
/// it exceeds 64 bits.
pub fn scale_to_opus_samples(value: u64, time_base: TimeBase) -> (r: Result<u64, Error>)
    ensures
        ({
            let n = time_base.spec_numer();
            let d = time_base.spec_denom();
            &&& r is Ok <==> opus_samples_exact(value, n, d) && opus_samples(value, n, d) <= u64::MAX
            &&& r is Ok ==> r->Ok_0 == opus_samples(value, n, d)
            &&& !opus_samples_exact(value, n, d) ==> (r is Err && r->Err_0 matches Error::InvalidArgument(_))
            &&& opus_samples_exact(value, n, d) && opus_samples(value, n, d) > u64::MAX ==> (r is Err
                && r->Err_0 matches Error::Unsupported(_))
        }),
{
    let numer = time_base.numer();
    let denom = time_base.denom();
    proof {
        assert(value * numer <= 0xffff_ffff_ffff_ffff * 0xffff_ffffu64) by (nonlinear_arith)
            requires
                value <= 0xffff_ffff_ffff_ffffu64,
                numer <= 0xffff_ffffu32,
        ;
        assert(value * numer * 48000 <= 0xffff_ffff_ffff_ffff * 0xffff_ffffu64 * 48000)
            by (nonlinear_arith)
            requires
                value * numer <= 0xffff_ffff_ffff_ffff * 0xffff_ffffu64,
        ;
        assert(value * numer >= 0) by (nonlinear_arith)
            requires
                value >= 0,
                numer >= 0,
        ;
    }
    let numerator: u128 = (value as u128) * (numer as u128) * 48000;
    let denominator: u128 = denom as u128;
    if numerator % denominator != 0 {
        return Err(
            Error::InvalidArgument("track time base does not convert cleanly to 48 kHz opus samples"),
        );
    }
    let q = numerator / denominator;
    if q > u64::MAX as u128 {
        return Err(Error::Unsupported("ogg opus sample count exceeds u64"));
    }
    Ok(q as u64)
}

/// The pre-skip implied by the encoder delay, in 48 kHz samples.
pub open spec fn default_pre_skip(delay: u32, rate: u32) -> int {
    (delay * 48000) / (rate as int)
}

/// The pre-skip implied by the encoder delay of `params`: `InvalidArgument`
/// for a zero sample rate or a delay that is not a whole number of 48 kHz
/// samples, `Unsupported` when it exceeds 16 bits.
pub fn default_pre_skip_from_codec_params(params: &CodecParameters) -> (r: Result<u16, Error>)
    ensures
        ({
            let delay = params.encoder_delay;
            let rate = params.sample_rate;
            &&& r is Ok <==> rate != 0 && (delay * 48000) % (rate as int) == 0 && default_pre_skip(
                delay,
                rate,
            ) <= u16::MAX
            &&& r is Ok ==> r->Ok_0 == default_pre_skip(delay, rate)
            &&& rate == 0 ==> (r is Err && r->Err_0 matches Error::InvalidArgument(_))
        }),
{
    if params.sample_rate == 0 {
        return Err(Error::InvalidArgument("ogg opus input sample rate must be non-zero"));
    }
    let numerator: u128 = (params.encoder_delay as u128) * 48000;
    let denominator: u128 = params.sample_rate as u128;
    if numerator % denominator != 0 {
        return Err(
            Error::InvalidArgument(
                "opus encoder delay does not convert cleanly to 48 kHz pre_skip units",
            ),
        );
    }
    let pre_skip = numerator / denominator;
    if pre_skip > u16::MAX as u128 {
        return Err(Error::Unsupported("opus pre_skip exceeds 16-bit header field"));
    }
    Ok(pre_skip as u16)
}

} // verus!
