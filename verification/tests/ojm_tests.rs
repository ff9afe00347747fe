use open2jam::ojm::{
    ojm_reads_in_bounds, parse_bytes, rearrange, xor_with_mask, xor_with_state, OjmError,
};

fn put_u32(buf: &mut Vec<u8>, at: usize, v: u32) {
    buf[at..at + 4].copy_from_slice(&v.to_le_bytes());
}

fn put_u16(buf: &mut Vec<u8>, at: usize, v: u16) {
    buf[at..at + 2].copy_from_slice(&v.to_le_bytes());
}

fn put_name(buf: &mut Vec<u8>, at: usize, name: &str) {
    buf[at..at + name.len()].copy_from_slice(name.as_bytes());
}

/// An M30 container with one entry of `data` and the given flag and codec.
fn m30(flag: u32, codec: u16, ref_id: u16, data: &[u8]) -> Vec<u8> {
    let mut buf = vec![0u8; 28 + 52];
    buf[0..4].copy_from_slice(b"M30\0");
    put_u32(&mut buf, 8, flag);
    put_name(&mut buf, 28, "kick");
    put_u32(&mut buf, 28 + 32, data.len() as u32);
    put_u16(&mut buf, 28 + 36, codec);
    put_u16(&mut buf, 28 + 44, ref_id);
    buf.extend_from_slice(data);
    buf
}

#[test]
fn test_parse_unknown_signature() {
    let result = parse_bytes(&[0xEF, 0xBE, 0xAD, 0xDE]);
    assert!(matches!(result, Err(OjmError::UnknownSignature(0xDEADBEEF))));
}

#[test]
fn test_xor_mask_skips_trailing_bytes() {
    let mask = [0x6E, 0x61, 0x6D, 0x69];

    let mut data = [0u8; 8];
    xor_with_mask(&mut data, &mask);
    assert_eq!(data, [0x6E, 0x61, 0x6D, 0x69, 0x6E, 0x61, 0x6D, 0x69]);

    let mut data = [0u8; 5];
    xor_with_mask(&mut data, &mask);
    assert_eq!(data, [0x6E, 0x61, 0x6D, 0x69, 0x00]);

    let mut data = [0u8; 7];
    xor_with_mask(&mut data, &mask);
    assert_eq!(data, [0x6E, 0x61, 0x6D, 0x69, 0x00, 0x00, 0x00]);
}

#[test]
fn test_rearrange_preserves_length() {
    let original: Vec<u8> = (0..=255).collect();
    let len = original.len();
    let mut data = original.clone();
    rearrange(&mut data);
    assert_eq!(data.len(), len, "Rearrange should preserve data length");
}

#[test]
fn test_rearrange_empty_and_small() {
    let mut empty: Vec<u8> = vec![];
    rearrange(&mut empty);
    assert!(empty.is_empty());

    let mut small = vec![1u8, 2, 3];
    rearrange(&mut small);
    assert_eq!(small, vec![1u8, 2, 3]);
}

#[test]
fn rearrange_moves_blocks_by_table_row_zero() {
    // 17 one-byte blocks, length % 17 == 0: row 0 of the table.
    let mut data: Vec<u8> = (0..17).collect();
    rearrange(&mut data);
    // Block b goes to position T[b]; T row 0 starts 16, 14, 2, 9, ...
    assert_eq!(data[16], 0);
    assert_eq!(data[14], 1);
    assert_eq!(data[2], 2);
    assert_eq!(data[9], 3);
    let mut sorted = data.clone();
    sorted.sort();
    assert_eq!(sorted, (0..17).collect::<Vec<u8>>());
}

#[test]
fn rearrange_zeroes_bytes_past_the_blocks() {
    // Length 18: one-byte blocks, row 1, and the last byte is not in a block.
    let mut data = vec![0xAAu8; 18];
    rearrange(&mut data);
    assert_eq!(data[17], 0);
    assert_eq!(data.iter().filter(|&&b| b == 0xAA).count(), 17);
}

#[test]
fn xor_with_state_flips_by_key_bits() {
    let mut buf = [0u8; 3];
    let state = xor_with_state(&mut buf, 0xFF, 0);
    assert_eq!(buf, [0xFF, 0xFF, 0xFF]);
    assert_eq!(state, (0xFF, 3));

    let mut buf = [0x11u8; 9];
    let state = xor_with_state(&mut buf, 0x01, 0);
    assert_eq!(buf, [0x11, 0x11, 0x11, 0x11, 0x11, 0x11, 0x11, 0xEE, 0x11]);
    assert_eq!(state, (0x11, 1));
}

#[test]
fn parse_m30_with_nami_mask() {
    let data = m30(16, 0, 7, &[0u8; 8]);
    let samples = parse_bytes(&data).expect("valid M30");
    assert_eq!(samples.len(), 1);
    let s = &samples[&1007];
    assert_eq!(s.id, 1007);
    assert_eq!(s.name, "kick");
    assert_eq!(s.extension, "ogg");
    assert_eq!(s.data, vec![0x6E, 0x61, 0x6D, 0x69, 0x6E, 0x61, 0x6D, 0x69]);
}

#[test]
fn parse_m30_codec_5_keeps_reference_id() {
    let data = m30(0, 5, 42, &[1, 2, 3]);
    let samples = parse_bytes(&data).expect("valid M30");
    assert_eq!(samples[&42].data, vec![1, 2, 3]);
}

#[test]
fn parse_m30_unknown_flag_only_with_a_sample() {
    let data = m30(3, 5, 1, &[9, 9]);
    assert!(matches!(parse_bytes(&data), Err(OjmError::UnknownEncryptionFlag(3))));
    let empty = m30(3, 5, 1, &[]);
    assert!(parse_bytes(&empty).expect("no complete entry").is_empty());
}

#[test]
fn parse_m30_truncated_header() {
    let mut data = vec![0u8; 10];
    data[0..4].copy_from_slice(b"M30\0");
    assert!(matches!(
        parse_bytes(&data),
        Err(OjmError::Truncated { expected: 28, actual: 10 })
    ));
}

#[test]
fn parse_too_short_for_signature() {
    assert!(matches!(
        parse_bytes(&[1, 2]),
        Err(OjmError::Truncated { expected: 4, actual: 2 })
    ));
}

/// An OJM (or OMC) container with one WAV chunk and one OGG sample.
fn omc(signature: &[u8; 4], wav: &[u8], ogg: &[u8]) -> Vec<u8> {
    let mut buf = vec![0u8; 20 + 60];
    buf[0..4].copy_from_slice(signature);
    put_name(&mut buf, 20, "snare");
    put_u32(&mut buf, 20 + 56, wav.len() as u32);
    buf.extend_from_slice(wav);
    let ogg_start = buf.len();
    let mut entry = vec![0u8; 36];
    put_name(&mut entry, 0, "pad");
    put_u32(&mut entry, 32, ogg.len() as u32);
    buf.extend_from_slice(&entry);
    buf.extend_from_slice(ogg);
    let filesize = buf.len() as u32;
    put_u32(&mut buf, 12, ogg_start as u32);
    put_u32(&mut buf, 16, filesize);
    buf
}

#[test]
fn parse_ojm_plain_wav_and_ogg() {
    let data = omc(b"OJM\0", &[1, 2, 3, 4], &[7, 8, 9]);
    assert!(ojm_reads_in_bounds(&data));
    let samples = parse_bytes(&data).expect("valid OJM");
    assert_eq!(samples.len(), 2);
    assert_eq!(samples[&0].name, "snare");
    assert_eq!(samples[&0].extension, "wav");
    assert_eq!(samples[&0].data, vec![1, 2, 3, 4]);
    assert_eq!(samples[&1000].name, "pad");
    assert_eq!(samples[&1000].extension, "ogg");
    assert_eq!(samples[&1000].data, vec![7, 8, 9]);
}

#[test]
fn parse_omc_decrypts_wav_chunks() {
    let wav: Vec<u8> = (0..40).collect();
    let data = omc(b"OMC\0", &wav, &[5]);
    let samples = parse_bytes(&data).expect("valid OMC");
    let mut expected = wav.clone();
    rearrange(&mut expected);
    xor_with_state(&mut expected, 0xFF, 0);
    assert_eq!(samples[&0].data, expected);
    assert_ne!(samples[&0].data, wav);
    assert_eq!(samples[&1000].data, vec![5]);
}

#[test]
fn omc_header_running_past_the_end_is_detected() {
    // A WAV header that ends 2 bytes before the data does: its size field
    // would be read past the end.
    let mut data = vec![0u8; 78];
    data[0..4].copy_from_slice(b"OJM\0");
    put_u32(&mut data, 12, 78);
    put_u32(&mut data, 16, 78);
    assert!(!ojm_reads_in_bounds(&data));
    let m30_data = m30(0, 0, 1, &[1]);
    assert!(ojm_reads_in_bounds(&m30_data));
}

#[test]
fn xor_over_a_split_buffer_matches_one_run() {
    let data: Vec<u8> = (0u8..40).map(|b| b.wrapping_mul(37).wrapping_add(11)).collect();
    let mut whole = data.clone();
    let end_whole = open2jam::ojm::xor_with_state(&mut whole, 0x5A, 3);
    let (mut a, mut b) = (data[..13].to_vec(), data[13..].to_vec());
    let (kb, c) = open2jam::ojm::xor_with_state(&mut a, 0x5A, 3);
    let end_split = open2jam::ojm::xor_with_state(&mut b, kb, c);
    a.extend_from_slice(&b);
    assert_eq!(a, whole);
    assert_eq!(end_split, end_whole);
    assert_eq!(end_whole.1 as usize, (3 + data.len()) % 8);
    for (out, inp) in whole.iter().zip(data.iter()) {
        assert!(*out == *inp || *out == !*inp);
    }
}
