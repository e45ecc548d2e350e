use dissonia::audio::{AudioBufferRef, AudioSpec, ChannelLayout, SampleFormat};
use dissonia::codecs::{AudioEncoder, CodecId, CodecSpecific, VecPacketSink};
use dissonia::flac::encoder::FlacEncoder;
use dissonia::mp3::{advance_mp3_pts, mp3_frame_len, mp3_setup, Mp3EncoderBuilder, Mp3EncoderOptions, Mp3Frames};
use dissonia::opus::OpusEncoder;
use dissonia::packet::PacketFlags;
use dissonia::pcm::PcmEncoder;
use dissonia::units::Timestamp;
use dissonia::Error;

#[test]
fn encodes_one_block_of_silence() -> Result<(), Error> {
    let spec = AudioSpec::new(44_100, ChannelLayout::stereo(), SampleFormat::I16);
    let mut encoder = FlacEncoder::builder(spec).block_size(256).build()?;
    let mut sink = VecPacketSink::new();

    let samples = vec![0_i16; 256 * 2];
    encoder.encode(AudioBufferRef::I16(&samples), &mut sink)?;

    let packets = sink.into_inner();
    assert_eq!(packets.len(), 1);
    assert_eq!(packets[0].pts, Some(Timestamp::new(0)));
    assert_eq!(packets[0].duration, Some(256));
    assert!(packets[0].flags.contains(PacketFlags::keyframe()));
    assert_eq!(packets[0].data[0], 0xFF);
    assert_eq!(packets[0].data[1] & 0xFC, 0xF8);

    Ok(())
}

#[test]
fn packetizes_multiple_blocks() -> Result<(), Error> {
    let spec = AudioSpec::new(48_000, ChannelLayout::mono(), SampleFormat::I16);
    let mut encoder = FlacEncoder::builder(spec).block_size(128).build()?;
    let mut sink = VecPacketSink::new();

    let samples = vec![0_i16; 384];
    encoder.encode(AudioBufferRef::I16(&samples), &mut sink)?;

    let packets = sink.into_inner();
    assert_eq!(packets.len(), 3);
    assert_eq!(packets[0].pts, Some(Timestamp::new(0)));
    assert_eq!(packets[1].pts, Some(Timestamp::new(128)));
    assert_eq!(packets[2].pts, Some(Timestamp::new(256)));

    Ok(())
}

#[test]
fn flush_emits_partial_block() -> Result<(), Error> {
    let spec = AudioSpec::new(44_100, ChannelLayout::mono(), SampleFormat::I16);
    let mut encoder = FlacEncoder::builder(spec).block_size(256).build()?;
    let mut sink = VecPacketSink::new();

    let samples = vec![0_i16; 100];
    encoder.encode(AudioBufferRef::I16(&samples), &mut sink)?;
    encoder.flush(&mut sink)?;

    let packets = sink.into_inner();
    assert_eq!(packets.len(), 1);
    assert_eq!(packets[0].duration, Some(100));

    Ok(())
}

#[test]
fn fills_flac_stream_info() -> Result<(), Error> {
    let spec = AudioSpec::new(48_000, ChannelLayout::stereo(), SampleFormat::I16);
    let encoder = FlacEncoder::builder(spec).block_size(4096).build()?;

    let info = encoder.codec_parameters().flac_stream_info().unwrap();
    assert_eq!(info.min_block_size, 4096);
    assert_eq!(info.max_block_size, 4096);
    assert_eq!(info.bits_per_sample, 16);

    Ok(())
}

#[test]
fn rejects_f32_input() {
    let spec = AudioSpec::new(44_100, ChannelLayout::mono(), SampleFormat::F32);
    let result = FlacEncoder::new(spec);
    assert!(result.is_err());
}

#[test]
fn flac_rejects_block_size_below_sixteen() {
    let spec = AudioSpec::new(44_100, ChannelLayout::mono(), SampleFormat::I16);
    let result = FlacEncoder::builder(spec).block_size(8).build();
    assert!(matches!(result, Err(Error::InvalidArgument(_))));
}

#[test]
fn flac_rejects_mismatched_buffer_format() -> Result<(), Error> {
    let spec = AudioSpec::new(44_100, ChannelLayout::mono(), SampleFormat::I16);
    let mut encoder = FlacEncoder::builder(spec).block_size(256).build()?;
    let mut sink = VecPacketSink::new();
    let samples = vec![0_i32; 16];
    let r = encoder.encode(AudioBufferRef::I24(&samples), &mut sink);
    assert!(r.is_err());
    assert!(sink.into_inner().is_empty());
    Ok(())
}

#[test]
fn flac_reset_restarts_timestamps() -> Result<(), Error> {
    let spec = AudioSpec::new(44_100, ChannelLayout::mono(), SampleFormat::I16);
    let mut encoder = FlacEncoder::builder(spec).block_size(128).build()?;
    let mut sink = VecPacketSink::new();
    let samples = vec![0_i16; 128];
    encoder.encode(AudioBufferRef::I16(&samples), &mut sink)?;
    encoder.reset()?;
    encoder.encode(AudioBufferRef::I16(&samples), &mut sink)?;
    let packets = sink.into_inner();
    assert_eq!(packets.len(), 2);
    assert_eq!(packets[1].pts, Some(Timestamp::new(0)));
    Ok(())
}

#[test]
fn encodes_i16_packets_without_packetization() -> Result<(), Error> {
    let spec = AudioSpec::new(48_000, ChannelLayout::stereo(), SampleFormat::I16);
    let mut encoder = PcmEncoder::new(spec)?;
    let mut sink = VecPacketSink::new();

    let samples = [1_i16, -1, 2, -2];
    encoder.encode(AudioBufferRef::I16(&samples), &mut sink)?;

    let packets = sink.into_inner();
    assert_eq!(packets.len(), 1);
    assert_eq!(packets[0].pts, Some(Timestamp::new(0)));
    assert_eq!(packets[0].duration, Some(2));
    assert_eq!(packets[0].data.as_slice(), &[1, 0, 255, 255, 2, 0, 254, 255]);

    Ok(())
}

#[test]
fn packetizes_into_fixed_frame_chunks() -> Result<(), Error> {
    let spec = AudioSpec::new(48_000, ChannelLayout::stereo(), SampleFormat::I16);
    let mut encoder = PcmEncoder::builder(spec).frames_per_packet(2).build()?;
    let mut sink = VecPacketSink::new();

    let samples = [1_i16, -1, 2, -2, 3, -3, 4, -4];
    encoder.encode(AudioBufferRef::I16(&samples), &mut sink)?;

    let packets = sink.into_inner();
    assert_eq!(packets.len(), 2);
    assert_eq!(packets[0].duration, Some(2));
    assert_eq!(packets[1].duration, Some(2));

    Ok(())
}

#[test]
fn flush_emit_residual_frames() -> Result<(), Error> {
    let spec = AudioSpec::new(48_000, ChannelLayout::stereo(), SampleFormat::I16);
    let mut encoder = PcmEncoder::builder(spec).frames_per_packet(4).build()?;
    let mut sink = VecPacketSink::new();

    let samples = [1_i16, -1, 2, -2, 3, -3];
    encoder.encode(AudioBufferRef::I16(&samples), &mut sink)?;
    encoder.flush(&mut sink)?;

    let packets = sink.into_inner();
    assert_eq!(packets.len(), 1);
    assert_eq!(packets[0].duration, Some(3));

    Ok(())
}

#[test]
fn pcm_encodes_i24_as_three_little_endian_bytes() -> Result<(), Error> {
    let spec = AudioSpec::new(48_000, ChannelLayout::mono(), SampleFormat::I24);
    let mut encoder = PcmEncoder::new(spec)?;
    let mut sink = VecPacketSink::new();
    let samples = [0x012345_i32, -2];
    encoder.encode(AudioBufferRef::I24(&samples), &mut sink)?;
    let packets = sink.into_inner();
    assert_eq!(packets[0].data.as_slice(), &[0x45, 0x23, 0x01, 0xFE, 0xFF, 0xFF]);
    assert_eq!(packets[0].duration, Some(2));
    Ok(())
}

#[test]
fn pcm_rejects_partial_frame_input() -> Result<(), Error> {
    let spec = AudioSpec::new(48_000, ChannelLayout::stereo(), SampleFormat::I16);
    let mut encoder = PcmEncoder::new(spec)?;
    let mut sink = VecPacketSink::new();
    let samples = [1_i16, 2, 3];
    let r = encoder.encode(AudioBufferRef::I16(&samples), &mut sink);
    assert!(matches!(r, Err(Error::InvalidArgument(_))));
    Ok(())
}

#[test]
fn pcm_rejects_zero_frames_per_packet() {
    let spec = AudioSpec::new(48_000, ChannelLayout::stereo(), SampleFormat::I16);
    let r = PcmEncoder::builder(spec).frames_per_packet(0).build();
    assert!(r.is_err());
}

#[test]
fn encodes_one_stereo_i16_packet() -> Result<(), Error> {
    let spec = AudioSpec::new(48_000, ChannelLayout::stereo(), SampleFormat::I16);
    let mut encoder = OpusEncoder::new(spec)?;
    let mut sink = VecPacketSink::new();

    let samples = vec![0_i16; 960 * 2];
    encoder.encode(AudioBufferRef::I16(&samples), &mut sink)?;

    let packets = sink.into_inner();
    assert_eq!(packets.len(), 1);
    assert_eq!(packets[0].pts, Some(Timestamp::new(0)));
    assert_eq!(packets[0].duration, Some(960));
    assert_eq!(packets[0].trim_end, 0);
    assert!(!packets[0].data.is_empty());

    Ok(())
}

#[test]
fn packetizes_multiple_frames_from_one_input_buffer() -> Result<(), Error> {
    let spec = AudioSpec::new(48_000, ChannelLayout::stereo(), SampleFormat::I16);
    let mut encoder = OpusEncoder::new(spec)?;
    let mut sink = VecPacketSink::new();

    let samples = vec![0_i16; 1_920 * 2];
    encoder.encode(AudioBufferRef::I16(&samples), &mut sink)?;

    let packets = sink.into_inner();
    assert_eq!(packets.len(), 2);
    assert_eq!(packets[0].pts, Some(Timestamp::new(0)));
    assert_eq!(packets[1].pts, Some(Timestamp::new(960)));
    assert_eq!(packets[0].duration, Some(960));
    assert_eq!(packets[1].duration, Some(960));

    Ok(())
}

#[test]
fn flush_pads_partial_packet_and_sets_trim_end() -> Result<(), Error> {
    let spec = AudioSpec::new(48_000, ChannelLayout::stereo(), SampleFormat::I16);
    let mut encoder = OpusEncoder::new(spec)?;
    let mut sink = VecPacketSink::new();

    let samples = vec![0_i16; 480 * 2];
    encoder.encode(AudioBufferRef::I16(&samples), &mut sink)?;
    encoder.flush(&mut sink)?;

    let packets = sink.into_inner();
    assert_eq!(packets.len(), 1);
    assert_eq!(packets[0].pts, Some(Timestamp::new(0)));
    assert_eq!(packets[0].duration, Some(960));
    assert_eq!(packets[0].trim_end, 480);

    Ok(())
}

#[test]
fn rejects_surround_layout() {
    let spec = AudioSpec::new(48_000, ChannelLayout::surround_5_1(), SampleFormat::I16);
    let error = match OpusEncoder::new(spec) {
        Ok(_) => panic!("expected an error"),
        Err(e) => e,
    };

    match error {
        Error::Unsupported(_) => {}
        other => panic!("unexpected error: {:?}", other),
    }
}

#[test]
fn fills_encoder_delay_from_lookahead() -> Result<(), Error> {
    let spec = AudioSpec::new(48_000, ChannelLayout::stereo(), SampleFormat::I16);
    let encoder = OpusEncoder::new(spec)?;

    assert!(encoder.codec_parameters().encoder_delay > 0);

    Ok(())
}

#[test]
fn fills_family0_stream_mapping_metadata() -> Result<(), Error> {
    let spec = AudioSpec::new(48_000, ChannelLayout::stereo(), SampleFormat::I16);
    let encoder = OpusEncoder::new(spec)?;

    let mapping = encoder.codec_parameters().opus_stream_mapping().unwrap();

    assert_eq!(mapping.family, 0);
    assert_eq!(mapping.stream_count, 1);
    assert_eq!(mapping.coupled_stream_count, 1);
    assert!(mapping.mapping.is_empty());

    Ok(())
}

#[test]
fn opus_mono_mapping_has_one_uncoupled_stream() -> Result<(), Error> {
    let spec = AudioSpec::new(48_000, ChannelLayout::mono(), SampleFormat::I16);
    let encoder = OpusEncoder::new(spec)?;
    let mapping = encoder.codec_parameters().opus_stream_mapping().unwrap();
    assert_eq!(mapping.stream_count, 1);
    assert_eq!(mapping.coupled_stream_count, 0);
    Ok(())
}

#[test]
fn opus_rejects_unsupported_rate() {
    let spec = AudioSpec::new(44_100, ChannelLayout::stereo(), SampleFormat::I16);
    assert!(matches!(OpusEncoder::new(spec), Err(Error::Unsupported(_))));
}

#[test]
fn opus_f32_input_is_refused() {
    let spec = AudioSpec::new(48_000, ChannelLayout::stereo(), SampleFormat::F32);
    assert!(matches!(OpusEncoder::new(spec), Err(Error::Unsupported(_))));
}

#[test]
fn opus_flush_without_pending_samples_emits_nothing() -> Result<(), Error> {
    let spec = AudioSpec::new(48_000, ChannelLayout::stereo(), SampleFormat::I16);
    let mut encoder = OpusEncoder::new(spec)?;
    let mut sink = VecPacketSink::new();
    encoder.flush(&mut sink)?;
    assert!(sink.into_inner().is_empty());
    Ok(())
}

#[test]
fn opus_24_bit_input_is_coded() -> Result<(), Error> {
    let spec = AudioSpec::new(48_000, ChannelLayout::mono(), SampleFormat::I24);
    let mut encoder = OpusEncoder::new(spec)?;
    let mut sink = VecPacketSink::new();
    let samples = vec![0_i32; 960];
    encoder.encode(AudioBufferRef::I24(&samples), &mut sink)?;
    let packets = sink.into_inner();
    assert_eq!(packets.len(), 1);
    assert!(!packets[0].data.is_empty());
    Ok(())
}

#[test]
fn sets_codec_parameters_correctly() -> Result<(), Error> {
    let spec = AudioSpec::new(48000, ChannelLayout::stereo(), SampleFormat::F32);
    let builder = Mp3EncoderBuilder::new(spec).bitrate_bps(320_000);
    let setup = mp3_setup(builder.spec(), builder.current_options())?;

    assert_eq!(setup.params.codec, CodecId::Mp3);
    assert_eq!(setup.sample_rate, 48000);
    assert_eq!(setup.params.sample_rate, 48000);
    assert_eq!(setup.bitrate_kbps, 320);
    assert_eq!(setup.channels, 2);
    match setup.params.codec_specific {
        Some(CodecSpecific::Mp3(info)) => assert_eq!(info.bitrate_bps, 320_000),
        other => panic!("unexpected codec-specific data: {:?}", other),
    }

    Ok(())
}

#[test]
fn rejects_unsupported_sample_rate() {
    let spec = AudioSpec::new(96000, ChannelLayout::mono(), SampleFormat::F32);
    let result = mp3_setup(spec, Mp3EncoderOptions::default());
    assert!(result.is_err());
}

#[test]
fn mp3_rejects_surround() {
    let spec = AudioSpec::new(44100, ChannelLayout::surround_5_1(), SampleFormat::F32);
    assert!(matches!(mp3_setup(spec, Mp3EncoderOptions::default()), Err(Error::Unsupported(_))));
}

#[test]
fn mp3_default_bitrate_and_frame_size() {
    let spec = AudioSpec::new(44100, ChannelLayout::mono(), SampleFormat::F32);
    assert_eq!(Mp3EncoderBuilder::new(spec).current_options().bitrate_bps, 192_000);
    assert_eq!(mp3_frame_len(2), 2304);
    assert_eq!(advance_mp3_pts(0).unwrap(), 1152);
    assert!(matches!(advance_mp3_pts(u64::MAX - 100), Err(Error::InvalidState(_))));
}

#[test]
fn pcm_packets_concatenate_to_the_input_bytes() -> Result<(), Error> {
    let spec = AudioSpec::new(48_000, ChannelLayout::mono(), SampleFormat::I16);
    let mut encoder = PcmEncoder::builder(spec).frames_per_packet(3).build()?;
    let mut sink = VecPacketSink::new();
    let first = [1_i16, 2, 3, 4];
    let second = [5_i16, 6, 7, 8, 9];
    encoder.encode(AudioBufferRef::I16(&first), &mut sink)?;
    encoder.encode(AudioBufferRef::I16(&second), &mut sink)?;
    encoder.flush(&mut sink)?;
    let packets = sink.into_inner();
    assert_eq!(packets.len(), 3);
    let bytes: Vec<u8> = packets.iter().flat_map(|p| p.data.iter().copied()).collect();
    let expected: Vec<u8> = (1_i16..=9).flat_map(|s| s.to_le_bytes()).collect();
    assert_eq!(bytes, expected);
    assert_eq!(packets[2].duration, Some(3));
    assert_eq!(packets[2].pts, Some(Timestamp::new(6)));
    Ok(())
}

#[test]
fn lookahead_becomes_encoder_delay() {
    assert_eq!(dissonia::opus::delay_from_lookahead(312).unwrap(), 312);
    assert!(matches!(dissonia::opus::delay_from_lookahead(-1), Err(Error::InvalidState(_))));
}

#[test]
fn encoder_delay_is_the_backend_lookahead() -> Result<(), Error> {
    let spec = AudioSpec::new(48_000, ChannelLayout::stereo(), SampleFormat::I16);
    assert_eq!(OpusEncoder::new(spec)?.codec_parameters().encoder_delay, 312);
    let spec = AudioSpec::new(24_000, ChannelLayout::mono(), SampleFormat::I16);
    assert_eq!(OpusEncoder::new(spec)?.codec_parameters().encoder_delay, 156);
    let spec = AudioSpec::new(48_000, ChannelLayout::stereo(), SampleFormat::I16);
    let low = OpusEncoder::builder(spec).application(dissonia::opus_backend::OpusApplication::LowDelay).build()?;
    assert_eq!(low.codec_parameters().encoder_delay, 120);
    Ok(())
}

#[test]
fn opus_build_follows_backend_ranges() {
    let spec = AudioSpec::new(48_000, ChannelLayout::stereo(), SampleFormat::I16);
    assert!(OpusEncoder::builder(spec).lsb_depth(4).build().is_err());
    assert!(OpusEncoder::builder(spec).lsb_depth(16).build().is_ok());
    assert!(OpusEncoder::builder(spec).complexity(10).build().is_ok());
    assert!(matches!(OpusEncoder::builder(spec).complexity(11).build(), Err(Error::InvalidArgument(_))));
}

#[test]
fn payload_is_the_written_prefix() {
    let packet = vec![1_u8, 2, 3, 4, 5];
    assert_eq!(dissonia::opus::payload_of(&packet, 3, 10), vec![1, 2, 3]);
    assert_eq!(dissonia::opus::payload_of(&packet, 4, 2), vec![1, 2]);
    assert_eq!(dissonia::opus::payload_of(&packet, 9, 9), vec![1, 2, 3, 4, 5]);
}

#[test]
fn opus_flush_drains_whole_frames_then_pads() -> Result<(), Error> {
    let spec = AudioSpec::new(48_000, ChannelLayout::mono(), SampleFormat::I16);
    let mut encoder = OpusEncoder::new(spec)?;
    let mut sink = VecPacketSink::new();
    let samples = vec![0_i16; 960 + 100];
    encoder.encode(AudioBufferRef::I16(&samples), &mut sink)?;
    encoder.flush(&mut sink)?;
    let packets = sink.into_inner();
    assert_eq!(packets.len(), 2);
    assert_eq!(packets[1].pts, Some(Timestamp::new(960)));
    assert_eq!(packets[1].trim_end, 860);
    Ok(())
}

#[test]
fn opus_flush_refuses_partial_frame_without_padding_after_draining() -> Result<(), Error> {
    let spec = AudioSpec::new(48_000, ChannelLayout::mono(), SampleFormat::I16);
    let mut encoder = OpusEncoder::builder(spec).pad_flush(false).build()?;
    let mut sink = VecPacketSink::new();
    let samples = vec![0_i16; 960 + 100];
    encoder.encode(AudioBufferRef::I16(&samples), &mut sink)?;
    assert!(matches!(encoder.flush(&mut sink), Err(Error::InvalidState(_))));
    assert_eq!(sink.into_inner().len(), 1);
    Ok(())
}


fn opus_test_tone(len: usize, step: i32) -> Vec<i16> {
    let mut out = Vec::with_capacity(len);
    let mut v: i32 = 0;
    let mut up = true;
    for _ in 0..len {
        out.push(v as i16);
        if up {
            v += step;
            if v > 12_000 {
                up = false;
            }
        } else {
            v -= step;
            if v < -12_000 {
                up = true;
            }
        }
    }
    out
}

#[test]
fn opus_reset_restarts_timestamps_and_drops_pending() -> Result<(), Error> {
    let spec = AudioSpec::new(48_000, ChannelLayout::mono(), SampleFormat::I16);
    let mut encoder = OpusEncoder::new(spec)?;
    let mut sink = VecPacketSink::new();
    let samples = opus_test_tone(960 + 100, 300);
    encoder.encode(AudioBufferRef::I16(&samples), &mut sink)?;
    assert!(encoder.reset().is_ok());
    let mut drained = VecPacketSink::new();
    encoder.flush(&mut drained)?;
    assert!(drained.into_inner().is_empty());
    let mut after = VecPacketSink::new();
    let frame = opus_test_tone(960, 500);
    encoder.encode(AudioBufferRef::I16(&frame), &mut after)?;
    let packets = after.into_inner();
    assert_eq!(packets.len(), 1);
    assert_eq!(packets[0].pts, Some(Timestamp::new(0)));
    Ok(())
}

#[test]
fn mp3_frames_cut_whole_frames_in_order() {
    let mut frames = Mp3Frames::new(2);
    let samples: Vec<u32> = (0..(2304 * 2 + 10) as u32).collect();
    frames.push(&samples[..1000]);
    assert!(frames.next_frame().is_none());
    frames.push(&samples[1000..]);
    let first = frames.next_frame().unwrap();
    assert_eq!(first, samples[..2304].to_vec());
    let second = frames.next_frame().unwrap();
    assert_eq!(second, samples[2304..4608].to_vec());
    assert!(frames.next_frame().is_none());
    assert_eq!(frames.take_rest(), samples[4608..].to_vec());
    assert!(frames.take_rest().is_empty());
}

#[test]
fn mp3_frames_stamp_packets_one_frame_apart() -> Result<(), Error> {
    let mut frames = Mp3Frames::new(1);
    let a = frames.frame_packet(vec![1, 2, 3])?;
    let b = frames.frame_packet(vec![4])?;
    assert_eq!(a.data, vec![1, 2, 3]);
    assert_eq!(a.pts, Some(Timestamp::new(0)));
    assert_eq!(a.dts, Some(Timestamp::new(0)));
    assert!(a.flags.contains(PacketFlags::keyframe()));
    assert_eq!(b.pts, Some(Timestamp::new(1152)));
    frames.push(&[7, 8, 9]);
    frames.reset();
    assert!(frames.take_rest().is_empty());
    let c = frames.frame_packet(vec![5])?;
    assert_eq!(c.pts, Some(Timestamp::new(0)));
    Ok(())
}
