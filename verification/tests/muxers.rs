use dissonia::audio::{AudioBufferRef, AudioSpec, ChannelLayout, SampleFormat};
use dissonia::codecs::{
    AudioEncoder, CodecId, CodecParameters, CodecSpecific, FlacStreamInfo, OpusStreamMapping, PacketSink,
};
use dissonia::flac_mux::FlacMuxer;
use dissonia::formats::{Muxer, MuxerExt, TrackId, TrackSpec};
use dissonia::io::ByteCursor;
use dissonia::ogg_mux::OggOpusMuxer;
use dissonia::opus::OpusEncoder;
use dissonia::packet::EncodedPacket;
use dissonia::pcm::PcmEncoder;
use dissonia::units::TimeBase;
use dissonia::wav::WavMuxer;
use dissonia::Error;

fn test_codec_params() -> CodecParameters {
    let spec = AudioSpec::new(44_100, ChannelLayout::stereo(), SampleFormat::I16);
    let mut params = CodecParameters::new(CodecId::Flac, spec);
    params.codec_specific = Some(CodecSpecific::Flac(FlacStreamInfo {
        min_block_size: 4096,
        max_block_size: 4096,
        min_frame_size: 0,
        max_frame_size: 0,
        bits_per_sample: 16,
        total_samples: 0,
        md5: [0; 16],
    }));
    params
}

fn fake_frame(duration: u64) -> EncodedPacket {
    let mut data = vec![0xFF, 0xF8];
    data.extend_from_slice(&[0_u8; 50]);
    let mut packet = EncodedPacket::new(data);
    packet.duration = Some(duration);
    packet
}

fn split_pages(bytes: &[u8]) -> Vec<&[u8]> {
    let mut pages = Vec::new();
    let mut offset = 0_usize;

    while offset < bytes.len() {
        assert_eq!(&bytes[offset..offset + 4], b"OggS");

        let page_segments = usize::from(bytes[offset + 26]);
        let segment_table_start = offset + 27;
        let segment_table_end = segment_table_start + page_segments;
        let body_len = bytes[segment_table_start..segment_table_end]
            .iter()
            .map(|&value| usize::from(value))
            .sum::<usize>();

        let page_end = segment_table_end + body_len;
        pages.push(&bytes[offset..page_end]);
        offset = page_end;
    }

    pages
}

fn page_payload(page: &[u8]) -> &[u8] {
    let page_segments = usize::from(page[26]);
    &page[27 + page_segments..]
}

fn page_granule_position(page: &[u8]) -> u64 {
    u64::from_le_bytes(page[6..14].try_into().unwrap())
}

fn scale_encoder_delay_to_preskip(encoder_delay: u32, sample_rate: u32) -> u32 {
    assert!(sample_rate != 0);
    let numerator = u128::from(encoder_delay) * 48_000;
    let denominator = u128::from(sample_rate);
    assert_eq!(numerator % denominator, 0);

    u32::try_from(numerator / denominator).unwrap()
}

fn surround_layout() -> ChannelLayout {
    ChannelLayout::front_left()
        | ChannelLayout::front_right()
        | ChannelLayout::front_center()
        | ChannelLayout::low_frequency()
        | ChannelLayout::back_left()
        | ChannelLayout::back_right()
}

#[test]
fn writes_flac_marker() -> Result<(), Error> {
    let cursor = ByteCursor::new(Vec::<u8>::new());
    let mut muxer = FlacMuxer::builder(cursor).padding(0).max_seek_points(0).build();

    muxer.add_track(TrackSpec::new(test_codec_params(), TimeBase::audio_sample_rate(44_100)))?;

    let bytes = muxer.into_inner().into_inner();
    assert_eq!(&bytes[0..4], b"fLaC");

    Ok(())
}

#[test]
fn writes_seektable_block() -> Result<(), Error> {
    let cursor = ByteCursor::new(Vec::<u8>::new());
    let mut muxer = FlacMuxer::builder(cursor).padding(0).max_seek_points(5).build();

    let params = test_codec_params();
    let track = muxer.add_track(TrackSpec::new(params, TimeBase::audio_sample_rate(44_100)))?;

    for _ in 0..10 {
        muxer.write_packet(track, fake_frame(4096))?;
    }

    let summary = muxer.finalize()?;
    assert_eq!(summary.total_samples, Some(40960));
    assert_eq!(summary.packet_count, 10);

    let bytes = muxer.into_inner().into_inner();

    let st_offset = 4 + 38;
    assert_eq!(bytes[st_offset] & 0x7F, 3);

    let st_len = u32::from(bytes[st_offset + 1]) << 16
        | u32::from(bytes[st_offset + 2]) << 8
        | u32::from(bytes[st_offset + 3]);
    assert_eq!(st_len, 5 * 18);

    let first_sample = u64::from_be_bytes(bytes[st_offset + 4..st_offset + 12].try_into().unwrap());
    assert_eq!(first_sample, 0);

    Ok(())
}

#[test]
fn seektable_has_valid_offsets() -> Result<(), Error> {
    let cursor = ByteCursor::new(Vec::<u8>::new());
    let mut muxer = FlacMuxer::builder(cursor).padding(0).max_seek_points(3).build();

    let params = test_codec_params();
    let track = muxer.add_track(TrackSpec::new(params, TimeBase::audio_sample_rate(44_100)))?;

    for _ in 0..6 {
        muxer.write_packet(track, fake_frame(4096))?;
    }

    muxer.finalize()?;

    let bytes = muxer.into_inner().into_inner();
    let st_offset = 4 + 38;
    let sp_base = st_offset + 4;

    let sp0_sample = u64::from_be_bytes(bytes[sp_base..sp_base + 8].try_into().unwrap());
    let sp0_offset = u64::from_be_bytes(bytes[sp_base + 8..sp_base + 16].try_into().unwrap());
    assert_eq!(sp0_sample, 0);
    assert_eq!(sp0_offset, 0);

    let sp1_sample = u64::from_be_bytes(bytes[sp_base + 18..sp_base + 26].try_into().unwrap());
    assert!(sp1_sample > 0);

    Ok(())
}

#[test]
fn patches_stream_info_on_finalize() -> Result<(), Error> {
    let cursor = ByteCursor::new(Vec::<u8>::new());
    let mut muxer = FlacMuxer::builder(cursor).padding(0).max_seek_points(0).build();

    let params = test_codec_params();
    let track = muxer.add_track(TrackSpec::new(params, TimeBase::audio_sample_rate(44_100)))?;

    muxer.write_packet(track, fake_frame(4096))?;

    let summary = muxer.finalize()?;
    assert_eq!(summary.total_samples, Some(4096));

    let bytes = muxer.into_inner().into_inner();
    let si = &bytes[8..42];
    let ts_hi = u64::from(si[13] & 0x0F) << 32;
    let ts_lo = u64::from(u32::from_be_bytes(si[14..18].try_into().unwrap()));
    assert_eq!(ts_hi | ts_lo, 4096);

    Ok(())
}

#[test]
fn no_seektable_when_zero_points() -> Result<(), Error> {
    let cursor = ByteCursor::new(Vec::<u8>::new());
    let mut muxer = FlacMuxer::builder(cursor).padding(0).max_seek_points(0).build();

    let params = test_codec_params();
    muxer.add_track(TrackSpec::new(params, TimeBase::audio_sample_rate(44_100)))?;

    let bytes = muxer.into_inner().into_inner();

    assert_eq!(bytes[42] & 0x7F, 4);

    Ok(())
}

#[test]
fn flac_frame_sizes_are_patched() -> Result<(), Error> {
    let mut muxer = FlacMuxer::builder(ByteCursor::new(Vec::new())).padding(0).max_seek_points(0).build();
    let track = muxer.add_track(TrackSpec::new(test_codec_params(), TimeBase::audio_sample_rate(44_100)))?;
    muxer.write_packet(track, fake_frame(4096))?;
    let mut short = EncodedPacket::new(vec![0xFF, 0xF8, 1, 2]);
    short.duration = Some(100);
    muxer.write_packet(track, short)?;
    let summary = muxer.finalize()?;
    assert_eq!(summary.total_samples, Some(4196));
    let bytes = muxer.into_inner().into_inner();
    let si = &bytes[8..42];
    // min and max frame size, 24-bit big-endian.
    assert_eq!(&si[4..10], &[0, 0, 4, 0, 0, 52]);
    Ok(())
}

#[test]
fn flac_rejects_packet_without_sync_code() -> Result<(), Error> {
    let mut muxer = FlacMuxer::builder(ByteCursor::new(Vec::new())).padding(0).max_seek_points(0).build();
    let track = muxer.add_track(TrackSpec::new(test_codec_params(), TimeBase::audio_sample_rate(44_100)))?;
    let mut bad = EncodedPacket::new(vec![0x00, 0x00, 0x00]);
    bad.duration = Some(10);
    assert!(muxer.write_packet(track, bad).is_err());
    Ok(())
}

#[test]
fn flac_rejects_second_track_and_unknown_track() -> Result<(), Error> {
    let mut muxer = FlacMuxer::builder(ByteCursor::new(Vec::new())).padding(0).max_seek_points(0).build();
    let track = muxer.add_track(TrackSpec::new(test_codec_params(), TimeBase::audio_sample_rate(44_100)))?;
    assert_eq!(track, TrackId(0));
    assert!(muxer.add_track(TrackSpec::new(test_codec_params(), TimeBase::audio_sample_rate(44_100))).is_err());
    assert!(muxer.write_packet(TrackId(1), fake_frame(16)).is_err());
    Ok(())
}

#[test]
fn writes_opus_head_and_tags_pages() -> Result<(), Error> {
    let spec = AudioSpec::new(48_000, ChannelLayout::stereo(), SampleFormat::I16);
    let mut params = CodecParameters::new(CodecId::Opus, spec);
    params.encoder_delay = 312;
    params.codec_specific = Some(CodecSpecific::Opus(OpusStreamMapping::new(0, 1, 1, Vec::new())));

    let mut muxer = OggOpusMuxer::builder(ByteCursor::new(Vec::<u8>::new()))
        .vendor_string("dissonia-test")
        .comment("ENCODER", "dissonia")
        .serial_number(0x1234_5678)
        .build();

    let track = muxer.add_track(TrackSpec::new(params, TimeBase::audio_sample_rate(48_000)))?;

    let mut packet = EncodedPacket::new(vec![0_u8; 100]);
    packet.duration = Some(960);

    muxer.write_packet(track, packet)?;

    let summary = muxer.finalize()?;
    assert_eq!(summary.packet_count, 1);
    assert!(summary.bytes_written.is_some());

    let ogg = muxer.into_inner().into_inner();
    let pages = split_pages(&ogg);

    assert_eq!(pages.len(), 3);

    let id_header = page_payload(pages[0]);
    assert!(id_header.starts_with(b"OpusHead"));

    let tags = page_payload(pages[1]);
    assert!(tags.starts_with(b"OpusTags"));

    Ok(())
}

#[test]
fn writes_multistream_opus_head_for_surround() -> Result<(), Error> {
    let spec = AudioSpec::new(48_000, ChannelLayout::surround_5_1(), SampleFormat::I16);
    let mut params = CodecParameters::new(CodecId::Opus, spec);
    params.codec_specific = Some(CodecSpecific::Opus(OpusStreamMapping::new(1, 4, 2, vec![0_u8, 4, 1, 2, 3, 5])));

    let mut muxer = OggOpusMuxer::new(ByteCursor::new(Vec::<u8>::new()));
    let track = muxer.add_track(TrackSpec::new(params, TimeBase::audio_sample_rate(48_000)))?;

    let mut packet = EncodedPacket::new(vec![0_u8; 200]);
    packet.duration = Some(960);

    muxer.write_packet(track, packet)?;
    let summary = muxer.finalize()?;
    assert_eq!(summary.packet_count, 1);

    let ogg = muxer.into_inner().into_inner();
    let pages = split_pages(&ogg);

    let id_header = page_payload(pages[0]);
    assert!(id_header.starts_with(b"OpusHead"));
    assert_eq!(id_header[8], 1);
    assert_eq!(id_header[9], 6);
    assert_eq!(id_header[18], 1);
    assert_eq!(id_header[19], 4);
    assert_eq!(id_header[20], 2);
    assert_eq!(&id_header[21..27], &[0, 4, 1, 2, 3, 5]);

    Ok(())
}

#[test]
fn ogg_pages_carry_serial_sequence_and_eos() -> Result<(), Error> {
    let spec = AudioSpec::new(48_000, ChannelLayout::stereo(), SampleFormat::I16);
    let mut params = CodecParameters::new(CodecId::Opus, spec);
    params.codec_specific = Some(CodecSpecific::Opus(OpusStreamMapping::new(0, 1, 1, Vec::new())));
    let mut muxer = OggOpusMuxer::builder(ByteCursor::new(Vec::new())).serial_number(7).build();
    let track = muxer.add_track(TrackSpec::new(params, TimeBase::audio_sample_rate(48_000)))?;
    for _ in 0..2 {
        let mut packet = EncodedPacket::new(vec![1_u8; 10]);
        packet.duration = Some(960);
        muxer.write_packet(track, packet)?;
    }
    muxer.finalize()?;
    let ogg = muxer.into_inner().into_inner();
    let pages = split_pages(&ogg);
    assert_eq!(pages.len(), 4);
    for (i, page) in pages.iter().enumerate() {
        assert_eq!(u32::from_le_bytes(page[14..18].try_into().unwrap()), 7);
        assert_eq!(u32::from_le_bytes(page[18..22].try_into().unwrap()), i as u32);
    }
    assert_eq!(pages[0][5], 0x02);
    assert_eq!(pages[3][5], 0x04);
    assert_eq!(page_granule_position(pages[2]), 960);
    assert_eq!(page_granule_position(pages[3]), 1920);
    Ok(())
}

#[test]
fn writes_classic_wave_header_for_stereo_pcm() -> Result<(), Error> {
    let spec = AudioSpec::new(48_000, ChannelLayout::stereo(), SampleFormat::I16);
    let params = CodecParameters::new(CodecId::PcmS16Le, spec);

    let mut muxer = WavMuxer::new(ByteCursor::new(Vec::<u8>::new()));
    let track = muxer.add_track(TrackSpec::new(params, TimeBase::audio_sample_rate(48_000)))?;

    muxer.write_packet(track, EncodedPacket::new(vec![0_u8; 8]))?;
    let summary = muxer.finalize()?;

    assert_eq!(summary.packet_count, 1);
    assert_eq!(summary.bytes_written, Some(52));

    let bytes = muxer.into_inner().into_inner();
    assert_eq!(&bytes[0..4], b"RIFF");
    assert_eq!(&bytes[8..12], b"WAVE");
    assert_eq!(u32::from_le_bytes(bytes[16..20].try_into().unwrap()), 16);
    assert_eq!(u16::from_le_bytes(bytes[20..22].try_into().unwrap()), 1);
    assert_eq!(u16::from_le_bytes(bytes[22..24].try_into().unwrap()), 2);
    assert_eq!(u32::from_le_bytes(bytes[40..44].try_into().unwrap()), 8);

    Ok(())
}

#[test]
fn writes_extensible_wave_header_for_surround_pcm() -> Result<(), Error> {
    let spec = AudioSpec::new(48_000, surround_layout(), SampleFormat::I16);
    let params = CodecParameters::new(CodecId::PcmS16Le, spec);

    let mut muxer = WavMuxer::new(ByteCursor::new(Vec::<u8>::new()));
    let track = muxer.add_track(TrackSpec::new(params, TimeBase::audio_sample_rate(48_000)))?;

    muxer.write_packet(track, EncodedPacket::new(vec![0_u8; 12]))?;
    let summary = muxer.finalize()?;

    assert_eq!(summary.packet_count, 1);
    assert_eq!(summary.bytes_written, Some(80));

    let bytes = muxer.into_inner().into_inner();
    assert_eq!(&bytes[0..4], b"RIFF");
    assert_eq!(&bytes[8..12], b"WAVE");
    assert_eq!(u32::from_le_bytes(bytes[16..20].try_into().unwrap()), 40);
    assert_eq!(u16::from_le_bytes(bytes[20..22].try_into().unwrap()), 0xfffe);
    assert_eq!(u16::from_le_bytes(bytes[22..24].try_into().unwrap()), 6);
    assert_eq!(u16::from_le_bytes(bytes[32..34].try_into().unwrap()), 12);
    assert_eq!(u16::from_le_bytes(bytes[34..36].try_into().unwrap()), 16);
    assert_eq!(u32::from_le_bytes(bytes[40..44].try_into().unwrap()), 0x3f);
    assert_eq!(
        &bytes[44..60],
        &[
            0x01, 0x00, 0x00, 0x00, //
            0x00, 0x00, //
            0x10, 0x00, //
            0x80, 0x00, 0x00, 0xaa, 0x00, 0x38, 0x9b, 0x71,
        ]
    );
    assert_eq!(&bytes[60..64], b"data");
    assert_eq!(u32::from_le_bytes(bytes[64..68].try_into().unwrap()), 12);

    Ok(())
}

#[test]
fn can_force_extensible_for_stereo() -> Result<(), Error> {
    let spec = AudioSpec::new(44_100, ChannelLayout::stereo(), SampleFormat::F32);
    let params = CodecParameters::new(CodecId::PcmF32Le, spec);

    let mut muxer = WavMuxer::builder(ByteCursor::new(Vec::<u8>::new())).force_extensible(true).build();

    let track = muxer.add_track(TrackSpec::new(params, TimeBase::audio_sample_rate(44_100)))?;

    muxer.write_packet(track, EncodedPacket::new(vec![0_u8; 16]))?;
    muxer.finalize()?;

    let bytes = muxer.into_inner().into_inner();
    assert_eq!(u32::from_le_bytes(bytes[16..20].try_into().unwrap()), 40);
    assert_eq!(u16::from_le_bytes(bytes[20..22].try_into().unwrap()), 0xfffe);
    assert_eq!(
        &bytes[44..60],
        &[
            0x03, 0x00, 0x00, 0x00, //
            0x00, 0x00, //
            0x10, 0x00, //
            0x80, 0x00, 0x00, 0xaa, 0x00, 0x38, 0x9b, 0x71,
        ]
    );

    Ok(())
}

#[test]
fn wav_pads_odd_data_chunk() -> Result<(), Error> {
    let spec = AudioSpec::new(8_000, ChannelLayout::mono(), SampleFormat::U8);
    let params = CodecParameters::new(CodecId::PcmU8, spec);
    let mut muxer = WavMuxer::new(ByteCursor::new(Vec::new()));
    let track = muxer.add_track(TrackSpec::new(params, TimeBase::audio_sample_rate(8_000)))?;
    muxer.write_packet(track, EncodedPacket::new(vec![0x80_u8; 3]))?;
    let summary = muxer.finalize()?;
    assert_eq!(summary.bytes_written, Some(48));
    let bytes = muxer.into_inner().into_inner();
    assert_eq!(u32::from_le_bytes(bytes[4..8].try_into().unwrap()), 40);
    assert_eq!(u32::from_le_bytes(bytes[40..44].try_into().unwrap()), 3);
    assert_eq!(bytes[47], 0);
    Ok(())
}

#[test]
fn wav_rejects_packet_of_partial_frame() -> Result<(), Error> {
    let spec = AudioSpec::new(48_000, ChannelLayout::stereo(), SampleFormat::I16);
    let params = CodecParameters::new(CodecId::PcmS16Le, spec);
    let mut muxer = WavMuxer::new(ByteCursor::new(Vec::new()));
    let track = muxer.add_track(TrackSpec::new(params, TimeBase::audio_sample_rate(48_000)))?;
    assert!(muxer.write_packet(track, EncodedPacket::new(vec![0_u8; 3])).is_err());
    Ok(())
}

#[test]
fn writes_basic_wav_header() -> Result<(), Error> {
    let spec = AudioSpec::new(48_000, ChannelLayout::stereo(), SampleFormat::I16);
    let mut encoder = PcmEncoder::new(spec)?;
    let cursor = ByteCursor::new(Vec::<u8>::new());
    let mut muxer = WavMuxer::new(cursor);

    let track = muxer.add_track(TrackSpec::new(
        encoder.codec_parameters().clone(),
        TimeBase::audio_sample_rate(48_000),
    ))?;

    {
        let samples = [0_i16, 0, 1000, -1000];
        let mut sink = muxer.track_writer(track);
        encoder.encode(AudioBufferRef::I16(&samples), &mut sink)?;
        encoder.flush(&mut sink)?;
    }

    let summary = muxer.finalize()?;
    assert_eq!(summary.packet_count, 1);
    assert_eq!(summary.bytes_written, Some(52));

    let bytes = muxer.into_inner().into_inner();
    assert_eq!(&bytes[0..4], b"RIFF");
    assert_eq!(&bytes[8..12], b"WAVE");
    assert_eq!(&bytes[36..40], b"data");
    assert_eq!(u32::from_le_bytes(bytes[40..44].try_into().unwrap()), 8);

    Ok(())
}

#[test]
fn writes_ogg_opus_with_preskip_from_encoder_delay() -> Result<(), Error> {
    let spec = AudioSpec::new(48_000, ChannelLayout::stereo(), SampleFormat::I16);
    let mut encoder = OpusEncoder::new(spec)?;
    assert!(encoder.codec_parameters().encoder_delay > 0);

    let cursor = ByteCursor::new(Vec::<u8>::new());
    let mut muxer = OggOpusMuxer::new(cursor);

    let track = muxer.add_track(TrackSpec::new(
        encoder.codec_parameters().clone(),
        TimeBase::audio_sample_rate(spec.sample_rate),
    ))?;

    let samples = vec![0_i16; 960 * 2];

    {
        let mut sink = muxer.track_writer(track);
        encoder.encode(AudioBufferRef::I16(&samples), &mut sink)?;
        encoder.flush(&mut sink)?;
    }

    let summary = muxer.finalize()?;
    assert_eq!(summary.packet_count, 1);
    assert!(summary.bytes_written.is_some());

    let ogg = muxer.into_inner().into_inner();
    let pages = split_pages(&ogg);

    assert_eq!(pages.len(), 3);

    let id_header = page_payload(pages[0]);
    assert!(id_header.starts_with(b"OpusHead"));
    assert_eq!(id_header[8], 1);
    assert_eq!(id_header[9], 2);

    let pre_skip = u16::from_le_bytes(id_header[10..12].try_into().unwrap());
    assert_eq!(u32::from(pre_skip), encoder.codec_parameters().encoder_delay);

    let input_sample_rate = u32::from_le_bytes(id_header[12..16].try_into().unwrap());
    assert_eq!(input_sample_rate, 48_000);

    assert!(page_payload(pages[1]).starts_with(b"OpusTags"));
    assert_eq!(page_granule_position(pages[2]), 960);

    Ok(())
}

#[test]
fn writes_ogg_opus_with_scaled_preskip_for_24khz_input() -> Result<(), Error> {
    let spec = AudioSpec::new(24_000, ChannelLayout::mono(), SampleFormat::I16);
    let mut encoder = OpusEncoder::new(spec)?;
    assert!(encoder.codec_parameters().encoder_delay > 0);

    let expected_pre_skip =
        scale_encoder_delay_to_preskip(encoder.codec_parameters().encoder_delay, spec.sample_rate);

    let cursor = ByteCursor::new(Vec::<u8>::new());
    let mut muxer = OggOpusMuxer::new(cursor);

    let track = muxer.add_track(TrackSpec::new(
        encoder.codec_parameters().clone(),
        TimeBase::audio_sample_rate(spec.sample_rate),
    ))?;

    let samples = vec![0_i16; 480];

    {
        let mut sink = muxer.track_writer(track);
        encoder.encode(AudioBufferRef::I16(&samples), &mut sink)?;
        encoder.flush(&mut sink)?;
    }

    let summary = muxer.finalize()?;
    assert_eq!(summary.packet_count, 1);
    assert!(summary.bytes_written.is_some());

    let ogg = muxer.into_inner().into_inner();
    let pages = split_pages(&ogg);

    assert_eq!(pages.len(), 3);

    let id_header = page_payload(pages[0]);
    assert!(id_header.starts_with(b"OpusHead"));
    assert_eq!(id_header[8], 1);
    assert_eq!(id_header[9], 1);

    let pre_skip = u16::from_le_bytes(id_header[10..12].try_into().unwrap());
    assert_eq!(u32::from(pre_skip), expected_pre_skip);

    let input_sample_rate = u32::from_le_bytes(id_header[12..16].try_into().unwrap());
    assert_eq!(input_sample_rate, 24_000);

    assert_eq!(page_granule_position(pages[2]), 960);

    Ok(())
}

#[test]
fn writes_an_extensible_wav_for_surround_pcm() -> Result<(), Error> {
    let spec = AudioSpec::new(48_000, surround_layout(), SampleFormat::I16);
    let mut encoder = PcmEncoder::new(spec)?;

    let cursor = ByteCursor::new(Vec::<u8>::new());
    let mut muxer = WavMuxer::new(cursor);

    let track = muxer.add_track(TrackSpec::new(
        encoder.codec_parameters().clone(),
        TimeBase::audio_sample_rate(spec.sample_rate),
    ))?;

    let samples: [i16; 12] = [
        0, 0, 0, 0, 0, 0, //
        1000, -1000, 500, 0, 250, -250,
    ];

    {
        let mut sink = muxer.track_writer(track);
        encoder.encode(AudioBufferRef::I16(&samples), &mut sink)?;
        encoder.flush(&mut sink)?;
    }

    let summary = muxer.finalize()?;
    assert_eq!(summary.packet_count, 1);
    assert_eq!(summary.bytes_written, Some(92));

    let wav = muxer.into_inner().into_inner();

    assert_eq!(&wav[0..4], b"RIFF");
    assert_eq!(&wav[8..12], b"WAVE");
    assert_eq!(&wav[12..16], b"fmt ");
    assert_eq!(u32::from_le_bytes(wav[16..20].try_into().unwrap()), 40);
    assert_eq!(u16::from_le_bytes(wav[20..22].try_into().unwrap()), 0xfffe);
    assert_eq!(u16::from_le_bytes(wav[22..24].try_into().unwrap()), 6);
    assert_eq!(u32::from_le_bytes(wav[24..28].try_into().unwrap()), 48_000);
    assert_eq!(u32::from_le_bytes(wav[28..32].try_into().unwrap()), 576_000);
    assert_eq!(u16::from_le_bytes(wav[32..34].try_into().unwrap()), 12);
    assert_eq!(u16::from_le_bytes(wav[34..36].try_into().unwrap()), 16);
    assert_eq!(u16::from_le_bytes(wav[36..38].try_into().unwrap()), 22);
    assert_eq!(u16::from_le_bytes(wav[38..40].try_into().unwrap()), 16);
    assert_eq!(u32::from_le_bytes(wav[40..44].try_into().unwrap()), 0x3f);
    assert_eq!(&wav[60..64], b"data");
    assert_eq!(u32::from_le_bytes(wav[64..68].try_into().unwrap()), 24);
    assert_eq!(wav.len(), 92);

    Ok(())
}

#[test]
fn writes_wav_with_packetized_pcm() -> Result<(), Error> {
    let spec = AudioSpec::new(48_000, ChannelLayout::stereo(), SampleFormat::I16);
    let mut encoder = PcmEncoder::builder(spec).frames_per_packet(2).build()?;

    let cursor = ByteCursor::new(Vec::<u8>::new());
    let mut muxer = WavMuxer::new(cursor);

    let track = muxer.add_track(TrackSpec::new(
        encoder.codec_parameters().clone(),
        TimeBase::audio_sample_rate(spec.sample_rate),
    ))?;

    let samples: [i16; 12] = [0, 0, 1000, -1000, 2000, -2000, 3000, -3000, 4000, -4000, 5000, -5000];

    {
        let mut sink = muxer.track_writer(track);
        encoder.encode(AudioBufferRef::I16(&samples), &mut sink)?;
        encoder.flush(&mut sink)?;
    }

    let summary = muxer.finalize()?;
    assert_eq!(summary.packet_count, 3);

    let cursor = muxer.into_inner();
    let wav = cursor.into_inner();

    assert_eq!(&wav[0..4], b"RIFF");
    assert_eq!(&wav[8..12], b"WAVE");
    assert_eq!(&wav[36..40], b"data");
    assert_eq!(u32::from_le_bytes(wav[40..44].try_into().unwrap()), 24);
    assert_eq!(wav.len(), 68);

    Ok(())
}

#[test]
fn ogg_page_checksums_verify() -> Result<(), Error> {
    let spec = AudioSpec::new(48_000, ChannelLayout::stereo(), SampleFormat::I16);
    let mut params = CodecParameters::new(CodecId::Opus, spec);
    params.codec_specific = Some(CodecSpecific::Opus(OpusStreamMapping::new(0, 1, 1, Vec::new())));
    let mut muxer = OggOpusMuxer::new(ByteCursor::new(Vec::new()));
    let track = muxer.add_track(TrackSpec::new(params, TimeBase::audio_sample_rate(48_000)))?;
    let mut packet = EncodedPacket::new(vec![3_u8; 600]);
    packet.duration = Some(960);
    muxer.write_packet(track, packet)?;
    muxer.finalize()?;
    let ogg = muxer.into_inner().into_inner();
    for page in split_pages(&ogg) {
        let stored = u32::from_le_bytes(page[22..26].try_into().unwrap());
        let mut zeroed = page.to_vec();
        zeroed[22..26].copy_from_slice(&[0, 0, 0, 0]);
        assert_eq!(dissonia::crc::ogg_crc(&zeroed), stored);
    }
    // A 600-byte packet is laced as 255, 255, 90.
    let pages = split_pages(&ogg);
    assert_eq!(pages[2][26], 3);
    assert_eq!(&pages[2][27..30], &[255, 255, 90]);
    Ok(())
}

#[test]
fn lacing_values_end_with_short_segment() {
    let lacing = dissonia::ogg_page::build_lacing_values(510).unwrap();
    assert_eq!(lacing, vec![255, 255, 0]);
    assert_eq!(lacing.iter().map(|&v| usize::from(v)).sum::<usize>(), 510);
}

#[test]
fn track_writer_reports_the_muxers_refusal() -> Result<(), Error> {
    let mut muxer = FlacMuxer::builder(ByteCursor::new(Vec::new())).padding(0).max_seek_points(0).build();
    let track = muxer.add_track(TrackSpec::new(test_codec_params(), TimeBase::audio_sample_rate(44_100)))?;
    {
        let mut writer = muxer.track_writer(track);
        assert!(writer.write_packet(fake_frame(16)).is_ok());
        assert!(writer.write_packet(EncodedPacket::new(vec![1, 2, 3])).is_err());
    }
    let summary = muxer.finalize()?;
    assert_eq!(summary.packet_count, 1);
    Ok(())
}
