//! Stream-head parsing: success, every error variant, and the sample
//! count formula.

use ape_rs::error::ApeError;
use ape_rs::ApeReader;

fn push_u16(v: &mut Vec<u8>, x: u16) {
    v.push((x & 0xFF) as u8);
    v.push((x >> 8) as u8);
}

fn push_u32(v: &mut Vec<u8>, x: u32) {
    v.push((x & 0xFF) as u8);
    v.push(((x >> 8) & 0xFF) as u8);
    v.push(((x >> 16) & 0xFF) as u8);
    v.push(((x >> 24) & 0xFF) as u8);
}

/// A stream head: magic, descriptor, header, a seek table of the given
/// entries, and trailing frame bytes.
fn build_head(
    version: u16,
    level: u16,
    channels: u16,
    bps: u16,
    blocks_per_frame: u32,
    final_frame_blocks: u32,
    total_frames: u32,
    seek_entries: &[u32],
    frame_bytes: usize,
) -> Vec<u8> {
    let mut v: Vec<u8> = Vec::new();
    v.extend_from_slice(&[0x4D, 0x41, 0x43, 0x20]);
    push_u16(&mut v, version);
    push_u16(&mut v, 0);
    push_u32(&mut v, 52);
    push_u32(&mut v, 24);
    push_u32(&mut v, 4 * seek_entries.len() as u32);
    push_u32(&mut v, 0);
    push_u32(&mut v, frame_bytes as u32);
    push_u32(&mut v, 0);
    push_u32(&mut v, 0);
    for _ in 0..16 {
        v.push(0);
    }
    push_u16(&mut v, level);
    push_u16(&mut v, 0);
    push_u32(&mut v, blocks_per_frame);
    push_u32(&mut v, final_frame_blocks);
    push_u32(&mut v, total_frames);
    push_u16(&mut v, bps);
    push_u16(&mut v, channels);
    push_u32(&mut v, 44100);
    for &e in seek_entries {
        push_u32(&mut v, e);
    }
    for i in 0..frame_bytes {
        v.push((i % 251) as u8);
    }
    v
}

#[test]
fn parse_minimal_head() {
    let data = build_head(3990, 1000, 2, 16, 100, 42, 5, &[84, 104], 40);
    let reader = ApeReader::new(data).expect("head should parse");
    let info = reader.info();
    assert_eq!(info.format_version, 3990);
    assert_eq!(info.channels, 2);
    assert_eq!(info.bits_per_sample, 16);
    assert_eq!(info.sample_rate, 44100);
    assert_eq!(info.compression_level, 1000);
}

#[test]
fn total_samples_formula() {
    // (total_frames - 1) * blocks_per_frame + final_frame_blocks,
    // times channels.
    let data = build_head(3990, 1000, 2, 16, 100, 42, 5, &[84, 104], 40);
    let reader = ApeReader::new(data).expect("head should parse");
    assert_eq!(reader.info().total_samples, (4 * 100 + 42) * 2);
}

#[test]
fn zero_frames_mean_zero_samples() {
    let data = build_head(3990, 1000, 1, 16, 100, 42, 0, &[], 0);
    let reader = ApeReader::new(data).expect("head should parse");
    assert_eq!(reader.info().total_samples, 0);
    let mut samples = reader.samples();
    assert!(samples.next().is_none());
}

#[test]
fn invalid_magic_is_rejected() {
    let data: Vec<u8> = vec![0x52, 0x49, 0x46, 0x46, 0, 0, 0, 0, 0, 0, 0, 0];
    match ApeReader::new(data) {
        Err(ApeError::InvalidMagic) => {},
        other => panic!("expected InvalidMagic, got {:?}", other.map(|_| ())),
    }
}

#[test]
fn tiny_input_is_eof() {
    match ApeReader::new(vec![0x4D, 0x41]) {
        Err(ApeError::UnexpectedEof) => {},
        other => panic!("expected UnexpectedEof, got {:?}", other.map(|_| ())),
    }
}

#[test]
fn truncated_descriptor_is_eof() {
    let mut data = build_head(3990, 1000, 1, 16, 1, 1, 1, &[80], 8);
    data.truncate(20);
    match ApeReader::new(data) {
        Err(ApeError::UnexpectedEof) => {},
        other => panic!("expected UnexpectedEof, got {:?}", other.map(|_| ())),
    }
}

#[test]
fn old_version_is_rejected() {
    let data = build_head(3980, 1000, 1, 16, 1, 1, 1, &[80], 8);
    match ApeReader::new(data) {
        Err(ApeError::UnsupportedVersion(v)) => assert_eq!(v, 3980),
        other => panic!("expected UnsupportedVersion, got {:?}", other.map(|_| ())),
    }
}

#[test]
fn odd_level_is_rejected() {
    let data = build_head(3990, 1500, 1, 16, 1, 1, 1, &[80], 8);
    match ApeReader::new(data) {
        Err(ApeError::UnsupportedCompressionLevel(l)) => assert_eq!(l, 1500),
        other => panic!("expected UnsupportedCompressionLevel, got {:?}", other.map(|_| ())),
    }
}

#[test]
fn bad_channel_count_is_rejected() {
    let data = build_head(3990, 1000, 3, 16, 1, 1, 1, &[80], 8);
    match ApeReader::new(data) {
        Err(ApeError::InvalidHeader(_)) => {},
        other => panic!("expected InvalidHeader, got {:?}", other.map(|_| ())),
    }
}

#[test]
fn bad_sample_depth_is_rejected() {
    let data = build_head(3990, 1000, 1, 12, 1, 1, 1, &[80], 8);
    match ApeReader::new(data) {
        Err(ApeError::InvalidHeader(_)) => {},
        other => panic!("expected InvalidHeader, got {:?}", other.map(|_| ())),
    }
}

#[test]
fn missing_seek_entry_is_reported() {
    // One frame announced, but the seek table holds no entry for it.
    let data = build_head(3990, 1000, 1, 16, 1, 1, 1, &[], 8);
    let reader = ApeReader::new(data).expect("head should parse");
    let mut samples = reader.samples();
    match samples.next() {
        Some(Err(ApeError::InvalidSeekTable)) => {},
        other => panic!("expected InvalidSeekTable, got {:?}", other.map(|r| r.map(|_| ()))),
    }
}

#[test]
fn frame_window_past_end_is_eof() {
    // The seek entry points far past the end of the stream.
    let data = build_head(3990, 1000, 1, 16, 1, 1, 1, &[4000], 8);
    let reader = ApeReader::new(data).expect("head should parse");
    let mut samples = reader.samples();
    match samples.next() {
        Some(Err(ApeError::UnexpectedEof)) => {},
        other => panic!("expected UnexpectedEof, got {:?}", other.map(|r| r.map(|_| ()))),
    }
}

#[test]
fn error_messages_name_each_failure() {
    let msgs: Vec<String> = vec![
        ApeError::InvalidMagic.message(),
        ApeError::UnsupportedVersion(3000).message(),
        ApeError::UnsupportedCompressionLevel(1500).message(),
        ApeError::InvalidSeekTable.message(),
        ApeError::UnexpectedEof.message(),
        ApeError::Io.message(),
    ];
    for i in 0..msgs.len() {
        assert!(!msgs[i].is_empty());
        for j in 0..i {
            assert_ne!(msgs[i], msgs[j]);
        }
    }
}
