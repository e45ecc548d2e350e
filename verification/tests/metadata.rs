use dissonia::flac_meta::{
    build_padding_block, build_seektable_block, build_stream_info_block, build_vorbis_comment_block,
    metadata_block_header, SeekPoint, BLOCK_TYPE_SEEKTABLE,
};
use dissonia::io::ByteCursor;
use dissonia::riff::RiffWriter;
use dissonia::vorbis::VorbisComments;

#[test]
fn round_trips_basic_comments() {
    let mut comments = VorbisComments::new("test-vendor");
    comments.add("ARTIST", "Someone");
    comments.add("TITLE", "Something");
    comments.add("artist", "Another");

    assert_eq!(comments.vendor(), "test-vendor");
    assert_eq!(comments.len(), 3);
    assert_eq!(comments.get("ARTIST"), Some("Someone"));
    assert_eq!(comments.get("artist"), Some("Someone"));
    assert_eq!(comments.get_all("artist"), vec!["Someone", "Another"]);
    assert_eq!(comments.get("TITLE"), Some("Something"));
    assert_eq!(comments.get("ALBUM"), None);
}

#[test]
fn encodes_to_expected_binary_layout() {
    let mut comments = VorbisComments::new("v");
    comments.add("A", "1");

    let encoded = comments.encode().unwrap();

    // vendor_len(4) + "v"(1) + count(4) + len(4) + "A=1"(3) = 16
    assert_eq!(encoded.len(), 16);
    assert_eq!(u32::from_le_bytes(encoded[0..4].try_into().unwrap()), 1);
    assert_eq!(&encoded[4..5], b"v");
    assert_eq!(u32::from_le_bytes(encoded[5..9].try_into().unwrap()), 1);
    assert_eq!(u32::from_le_bytes(encoded[9..13].try_into().unwrap()), 3);
    assert_eq!(&encoded[13..16], b"A=1");
}

#[test]
fn empty_comments_encode() {
    let comments = VorbisComments::new("x");
    let encoded = comments.encode().unwrap();

    assert_eq!(u32::from_le_bytes(encoded[0..4].try_into().unwrap()), 1);
    assert_eq!(&encoded[4..5], b"x");
    assert_eq!(u32::from_le_bytes(encoded[5..9].try_into().unwrap()), 0);
    assert_eq!(encoded.len(), 9);
}

#[test]
fn iter_preserves_insertion_order() {
    let mut comments = VorbisComments::new("");
    comments.add("B", "2");
    comments.add("A", "1");

    let pairs: Vec<_> = comments.iter();
    assert_eq!(pairs, vec![("B", "2"), ("A", "1")]);
}

#[test]
fn raw_strings_join_field_and_value() {
    let mut comments = VorbisComments::new("v");
    comments.add("TITLE", "Hello");
    comments.add("Artist", "X=Y");
    assert_eq!(comments.to_raw_strings(), vec!["TITLE=Hello".to_string(), "Artist=X=Y".to_string()]);
}

#[test]
fn set_vendor_replaces_vendor_only() {
    let mut comments = VorbisComments::new("old");
    comments.add("A", "1");
    comments.set_vendor("new");
    assert_eq!(comments.vendor(), "new");
    assert_eq!(comments.len(), 1);
    assert!(!comments.is_empty());
}

#[test]
fn stream_info_block_is_correct_size() {
    let block = build_stream_info_block(false, 4096, 4096, 0, 0, 44_100, 2, 16, 0, &[0; 16]);
    assert_eq!(block.len(), 38);
    assert_eq!(block[0], 0x00);
    assert_eq!(block[3], 34);
}

#[test]
fn stream_info_packs_rate_channels_and_depth() {
    let block = build_stream_info_block(true, 4096, 4096, 14, 20, 44_100, 2, 16, 100, &[0; 16]);
    assert_eq!(block[0], 0x80);
    // min/max block size
    assert_eq!(&block[4..8], &[0x10, 0x00, 0x10, 0x00]);
    // min/max frame size (24-bit)
    assert_eq!(&block[8..14], &[0, 0, 14, 0, 0, 20]);
    // 20-bit rate 44100 = 0x0AC44, then channels-1 (3 bits) and bps-1 (5 bits), then 36-bit total.
    assert_eq!(&block[14..22], &[0x0A, 0xC4, 0x42, 0xF0, 0x00, 0x00, 0x00, 0x64]);
}

#[test]
fn seektable_block_has_correct_size() {
    let block = build_seektable_block(false, 10);
    assert_eq!(block.len(), 184);
    assert_eq!(block[0] & 0x7F, BLOCK_TYPE_SEEKTABLE);
    assert_eq!(block[4], 0xFF);
}

#[test]
fn seek_point_round_trips() {
    let sp = SeekPoint { sample_number: 48000, stream_offset: 1234, frame_samples: 4096 };
    let encoded = sp.encode();
    assert_eq!(u64::from_be_bytes(encoded[0..8].try_into().unwrap()), 48000);
    assert_eq!(u64::from_be_bytes(encoded[8..16].try_into().unwrap()), 1234);
    assert_eq!(u16::from_be_bytes(encoded[16..18].try_into().unwrap()), 4096);
}

#[test]
fn placeholder_seek_point_is_all_ones_then_zero() {
    let encoded = SeekPoint::placeholder().encode();
    assert_eq!(&encoded[0..8], &[0xFF; 8]);
    assert_eq!(&encoded[8..18], &[0; 10]);
}

#[test]
fn vorbis_comment_block_round_trips() {
    let mut vc = VorbisComments::new("test");
    vc.add("TITLE", "Hello");
    let block = build_vorbis_comment_block(true, &vc).unwrap();
    assert_eq!(block[0] & 0x80, 0x80);
    assert_eq!(block[0] & 0x7F, 4);
}

#[test]
fn padding_and_block_header_layout() {
    assert_eq!(metadata_block_header(true, 1, 0x010203), [0x81, 0x01, 0x02, 0x03]);
    let pad = build_padding_block(false, 5);
    assert_eq!(pad, vec![0x01, 0, 0, 5, 0, 0, 0, 0, 0]);
}

#[test]
fn patches_regular_chunk_size_and_padding() {
    let cursor = ByteCursor::new(Vec::<u8>::new());
    let mut writer = RiffWriter::new(cursor);

    let chunk = writer.start_chunk(*b"test").unwrap();
    writer.write_all(&[1, 2, 3]).unwrap();
    let size = writer.finish_chunk(chunk).unwrap();

    assert_eq!(size, 3);

    let bytes = writer.into_inner().into_inner();
    assert_eq!(&bytes[0..4], b"test");
    assert_eq!(u32::from_le_bytes(bytes[4..8].try_into().unwrap()), 3);
    assert_eq!(&bytes[8..11], &[1, 2, 3]);
    assert_eq!(bytes[11], 0);
}

#[test]
fn patches_riff_container_size() {
    let cursor = ByteCursor::new(Vec::<u8>::new());
    let mut writer = RiffWriter::new(cursor);

    let riff = writer.start_riff(*b"WAVE").unwrap();
    let fmt = writer.start_chunk(*b"fmt ").unwrap();
    writer.write_all(&[1, 2, 3, 4]).unwrap();
    writer.finish_chunk(fmt).unwrap();
    let riff_size = writer.finish_chunk(riff).unwrap();

    assert_eq!(riff_size, 16);

    let bytes = writer.into_inner().into_inner();
    assert_eq!(&bytes[0..4], b"RIFF");
    assert_eq!(u32::from_le_bytes(bytes[4..8].try_into().unwrap()), 16);
    assert_eq!(&bytes[8..12], b"WAVE");
    assert_eq!(&bytes[12..16], b"fmt ");
    assert_eq!(u32::from_le_bytes(bytes[16..20].try_into().unwrap()), 4);
    assert_eq!(&bytes[20..24], &[1, 2, 3, 4]);
}

#[test]
fn list_chunk_holds_its_type() {
    let mut writer = RiffWriter::new(ByteCursor::new(Vec::new()));
    let list = writer.start_list(*b"INFO").unwrap();
    let size = writer.finish_chunk(list).unwrap();
    assert_eq!(size, 4);
    let bytes = writer.into_inner().into_inner();
    assert_eq!(bytes, b"LIST\x04\x00\x00\x00INFO".to_vec());
}

#[test]
fn cursor_overwrites_and_zero_fills() {
    let mut c = ByteCursor::new(vec![1, 2, 3]);
    c.seek_to(1);
    c.write_all(&[9]).unwrap();
    c.seek_to(5);
    c.write_all(&[7]).unwrap();
    assert_eq!(c.position(), 6);
    assert_eq!(c.into_inner(), vec![1, 9, 3, 0, 0, 7]);
}

#[test]
fn lookup_ignores_ascii_case_and_add_appends() {
    let mut comments = VorbisComments::new("v");
    comments.add("Title", "One");
    assert_eq!(comments.get("TITLE"), comments.get("title"));
    assert_eq!(comments.get_all("tItLe"), vec!["One"]);
    comments.add("TITLE", "Two");
    assert_eq!(comments.get("title"), Some("One"));
    assert_eq!(comments.get_all("title"), vec!["One", "Two"]);
    assert_eq!(comments.get_all("other"), Vec::<&str>::new());
}
