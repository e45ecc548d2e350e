use dissonia::crc::{crc16, crc8};
use dissonia::flac::bitwriter::BitWriter;
use dissonia::flac::frame::encode_frame;
use dissonia::flac::rice::{encode_partitioned_rice, estimate_rice_bits, find_best_rice_param, fold};
use dissonia::flac::subframe::{encode_subframe, fixed_residuals};

#[test]
fn writes_single_bits() {
    let mut w = BitWriter::new();
    w.write_bit(true);
    w.write_bit(false);
    w.write_bit(true);
    w.write_bit(true);
    w.write_bit(false);
    w.write_bit(false);
    w.write_bit(true);
    w.write_bit(false);
    let bytes = w.into_bytes();
    assert_eq!(bytes, &[0b1011_0010]);
}

#[test]
fn writes_multi_bit_values() {
    let mut w = BitWriter::new();
    w.write_bits(0x3FFE, 14);
    w.write_bits(0, 1);
    w.write_bits(0, 1);
    let bytes = w.into_bytes();
    assert_eq!(bytes, &[0xFF, 0xF8]);
}

#[test]
fn pads_partial_byte() {
    let mut w = BitWriter::new();
    w.write_bits(0b110, 3);
    let bytes = w.into_bytes();
    assert_eq!(bytes, &[0b1100_0000]);
}

#[test]
fn utf8_encodes_small_value() {
    let mut w = BitWriter::new();
    w.write_utf8_u32(0);
    assert_eq!(w.into_bytes(), &[0x00]);
}

#[test]
fn utf8_encodes_two_byte_value() {
    let mut w = BitWriter::new();
    w.write_utf8_u32(0x80);
    let bytes = w.into_bytes();
    assert_eq!(bytes, &[0xC2, 0x80]);
}

#[test]
fn utf8_encodes_three_byte_value() {
    let mut w = BitWriter::new();
    w.write_utf8_u32(0x800);
    assert_eq!(w.into_bytes(), &[0xE0, 0xA0, 0x80]);
}

#[test]
fn crc8_empty() {
    assert_eq!(crc8(&[]), 0);
}

#[test]
fn crc16_empty() {
    assert_eq!(crc16(&[]), 0);
}

#[test]
fn crc8_deterministic() {
    let data = [0xFF, 0xF8, 0x19, 0x12, 0x00];
    let a = crc8(&data);
    let b = crc8(&data);
    assert_eq!(a, b);
}

#[test]
fn crc_check_values() {
    // The standard check input "123456789".
    let data = b"123456789";
    assert_eq!(crc8(data), 0xF4);
    assert_eq!(crc16(data), 0xFEE8);
}

#[test]
fn fold_maps_correctly() {
    assert_eq!(fold(0), 0);
    assert_eq!(fold(1), 2);
    assert_eq!(fold(-1), 1);
    assert_eq!(fold(2), 4);
    assert_eq!(fold(-2), 3);
}

#[test]
fn best_param_for_zeros_is_zero() {
    let residuals = vec![0_i64; 64];
    assert_eq!(find_best_rice_param(&residuals), 0);
}

#[test]
fn best_param_grows_with_magnitude() {
    let residuals = vec![1000_i64; 64];
    // Folded value 2000: parameter 10 costs 64 * 12 bits, less than any other.
    assert_eq!(find_best_rice_param(&residuals), 10);
}

#[test]
fn fixed_order0_residuals_are_identity() {
    let samples = vec![10, 20, 30];
    let r = fixed_residuals(&samples, 0);
    assert_eq!(r, vec![10, 20, 30]);
}

#[test]
fn fixed_order1_residuals_are_deltas() {
    let samples = vec![0, 5, 10, 15];
    let r = fixed_residuals(&samples, 1);
    assert_eq!(r, vec![5, 5, 5]);
}

#[test]
fn fixed_order2_residuals_of_linear_are_zero() {
    let samples = vec![0, 10, 20, 30, 40];
    let r = fixed_residuals(&samples, 2);
    assert_eq!(r, vec![0, 0, 0]);
}

#[test]
fn fixed_order3_residuals_of_quadratic_are_zero() {
    let samples: Vec<i64> = (0..8).map(|i: i64| i * i).collect();
    let r = fixed_residuals(&samples, 3);
    assert_eq!(r, vec![0, 0, 0, 0, 0]);
}

#[test]
fn constant_block_selects_constant() {
    let mut w = BitWriter::new();
    let samples = vec![42_i64; 256];
    encode_subframe(&mut w, &samples, 16, 256, 4, 6);
    let bytes = w.into_bytes();
    assert_eq!(bytes.len(), 3);
    assert_eq!(bytes[0], 0x00);
}

#[test]
fn frame_starts_with_sync_code() {
    let samples = vec![0_i64; 256];
    let frame = encode_frame(&[samples], 0, 48_000, 16, 256, 4, 6, false);
    assert_eq!(frame[0], 0xFF);
    assert_eq!(frame[1] & 0xFC, 0xF8);
}

#[test]
fn frame_ends_with_crc16() {
    let samples = vec![0_i64; 256];
    let frame = encode_frame(&[samples], 0, 44_100, 16, 256, 4, 6, false);
    let data_len = frame.len() - 2;
    let expected = crc16(&frame[..data_len]);
    let actual = u16::from_be_bytes([frame[data_len], frame[data_len + 1]]);
    assert_eq!(actual, expected);
}

#[test]
fn header_crc8_is_correct() {
    let samples = vec![0_i64; 256];
    let frame = encode_frame(&[samples], 0, 48_000, 16, 256, 4, 6, false);
    let header_len = 5;
    let crc_byte = frame[header_len];
    let computed = crc8(&frame[..header_len]);
    assert_eq!(crc_byte, computed);
}

#[test]
fn stereo_decorrelation_produces_valid_frame() {
    let left: Vec<i64> = (0..256).map(|i| i as i64 * 100).collect();
    let right: Vec<i64> = (0..256).map(|i| i as i64 * 99).collect();
    let frame = encode_frame(&[left, right], 0, 44_100, 16, 256, 4, 6, true);
    assert_eq!(frame[0], 0xFF);
    assert_eq!(frame[1] & 0xFC, 0xF8);
    let data_len = frame.len() - 2;
    let expected = crc16(&frame[..data_len]);
    let actual = u16::from_be_bytes([frame[data_len], frame[data_len + 1]]);
    assert_eq!(actual, expected);
}

#[test]
fn stereo_decorrelation_smaller_than_independent_for_correlated() {
    let left: Vec<i64> = (0..256).map(|i| i as i64 * 100).collect();
    let right: Vec<i64> = (0..256).map(|i| i as i64 * 100 + 1).collect();

    let decorrelated = encode_frame(&[left.clone(), right.clone()], 0, 44_100, 16, 256, 4, 6, true);
    let independent = encode_frame(&[left, right], 0, 44_100, 16, 256, 4, 6, false);

    assert!(decorrelated.len() <= independent.len());
}

#[test]
fn channel_assignment_code_in_header() {
    let samples = vec![0_i64; 256];
    let frame = encode_frame(&[samples], 0, 48_000, 16, 256, 4, 6, false);
    let ch_assign = (frame[3] >> 4) & 0x0F;
    assert_eq!(ch_assign, 0);
}

#[test]
fn stereo_frame_header_declares_side_channel_coding() {
    let left: Vec<i64> = (0..256).map(|i| i as i64 * 100).collect();
    let right: Vec<i64> = (0..256).map(|i| i as i64 * 100 + 1).collect();
    let frame = encode_frame(&[left, right], 0, 44_100, 16, 256, 4, 6, true);
    let ch_assign = (frame[3] >> 4) & 0x0F;
    // 8, 9 and 10 are left/side, right/side and mid/side.
    assert!((8..=10).contains(&ch_assign));
}

fn bit_at(bytes: &[u8], i: usize) -> bool {
    (bytes[i / 8] >> (7 - (i % 8))) & 1 == 1
}

fn read_bits(bytes: &[u8], pos: &mut usize, n: usize) -> u64 {
    let mut v = 0_u64;
    for _ in 0..n {
        v = (v << 1) | u64::from(bit_at(bytes, *pos));
        *pos += 1;
    }
    v
}

#[test]
fn partitioned_rice_reads_back() {
    // Block of 8 samples, predictor order 2, partition order 1: partitions of 2 and 4 residuals.
    let residuals: Vec<i64> = vec![3, -2, 0, 7, -9, 1];
    let mut w = BitWriter::new();
    encode_partitioned_rice(&mut w, &residuals, 2, 1);
    let bytes = w.into_bytes();
    let mut pos = 0;
    assert_eq!(read_bits(&bytes, &mut pos, 2), 0);
    let order = read_bits(&bytes, &mut pos, 4);
    assert_eq!(order, 1);
    let mut decoded = Vec::new();
    for count in [2, 4] {
        let param = read_bits(&bytes, &mut pos, 4) as usize;
        for _ in 0..count {
            let mut q = 0_u64;
            while bit_at(&bytes, pos) {
                q += 1;
                pos += 1;
            }
            pos += 1;
            let low = read_bits(&bytes, &mut pos, param);
            let z = (q << param) | low;
            let r = if z % 2 == 0 { (z / 2) as i64 } else { -(((z + 1) / 2) as i64) };
            decoded.push(r);
        }
    }
    assert_eq!(decoded, residuals);
}

#[test]
fn rice_cost_of_large_residuals() {
    let big: i64 = 1 << 30;
    // zig-zag of 2^30 is 2^31; with parameter 14 the quotient is 2^17
    assert_eq!(estimate_rice_bits(&[big], 14), 1 + 14 + (1 << 17));
    assert_eq!(estimate_rice_bits(&[-big], 0), 1 + (1u64 << 31) - 1);
    assert_eq!(find_best_rice_param(&[big, -big, big]), 14);
}
