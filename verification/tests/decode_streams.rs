//! Whole-stream decoding over hand-assembled streams.
//!
//! Every expected sample was computed independently, step by step, from
//! the documented algorithm; the decoder must reproduce each bit-exactly.

use ape_rs::ApeReader;

fn decode_all(data: Vec<u8>) -> Vec<i32> {
    let reader = ApeReader::new(data).expect("stream head should parse");
    let mut samples = reader.samples();
    let mut out: Vec<i32> = Vec::new();
    loop {
        match samples.next() {
            Some(Ok(s)) => out.push(s),
            Some(Err(e)) => panic!("decode error: {:?}", e),
            None => break,
        }
    }
    out
}

fn mono_level1000_bytes() -> Vec<u8> {
    vec![77, 65, 67, 32, 150, 15, 0, 0, 52, 0, 0, 0, 24, 0, 0, 0, 8, 0, 0, 0, 0, 0, 0, 0, 96, 0, 0, 0, 0, 0, 0, 0, 0, 0, 0, 0, 0, 0, 0, 0, 0, 0, 0, 0, 0, 0, 0, 0, 0, 0, 0, 0, 232, 3, 0, 0, 5, 0, 0, 0, 3, 0, 0, 0, 2, 0, 0, 0, 16, 0, 1, 0, 68, 172, 0, 0, 84, 0, 0, 0, 132, 0, 0, 0, 120, 86, 52, 18, 24, 202, 77, 165, 29, 187, 48, 37, 222, 44, 19, 109, 46, 123, 35, 214, 114, 63, 30, 217, 113, 25, 203, 31, 214, 148, 68, 23, 92, 157, 60, 73, 49, 190, 96, 52, 254, 105, 30, 32, 232, 238, 160, 218, 120, 86, 52, 18, 92, 127, 153, 185, 253, 153, 41, 124, 37, 147, 229, 175, 175, 84, 214, 60, 20, 215, 250, 77, 179, 174, 160, 39, 47, 35, 233, 254, 31, 33, 242, 138, 197, 145, 228, 158, 181, 236, 11, 177, 30, 252, 59, 86]
}

fn mono_level5000_bytes() -> Vec<u8> {
    vec![77, 65, 67, 32, 150, 15, 0, 0, 52, 0, 0, 0, 24, 0, 0, 0, 8, 0, 0, 0, 0, 0, 0, 0, 112, 0, 0, 0, 0, 0, 0, 0, 0, 0, 0, 0, 0, 0, 0, 0, 0, 0, 0, 0, 0, 0, 0, 0, 0, 0, 0, 0, 136, 19, 0, 0, 4, 0, 0, 0, 2, 0, 0, 0, 2, 0, 0, 0, 16, 0, 1, 0, 68, 172, 0, 0, 84, 0, 0, 0, 140, 0, 0, 0, 120, 86, 52, 18, 97, 231, 238, 231, 48, 95, 243, 94, 46, 72, 155, 228, 80, 231, 202, 21, 18, 30, 32, 7, 237, 15, 123, 97, 119, 100, 225, 167, 43, 2, 255, 150, 42, 208, 142, 234, 147, 117, 161, 130, 205, 55, 35, 15, 34, 197, 148, 55, 107, 109, 0, 8, 120, 86, 52, 18, 203, 192, 240, 26, 138, 101, 37, 214, 170, 159, 44, 172, 68, 60, 209, 7, 30, 5, 51, 126, 96, 90, 249, 238, 214, 67, 97, 229, 215, 202, 59, 196, 155, 138, 0, 108, 201, 95, 107, 10, 109, 74, 21, 51, 168, 4, 132, 226, 38, 37, 197, 151]
}

fn stereo_level1000_bytes() -> Vec<u8> {
    vec![77, 65, 67, 32, 150, 15, 0, 0, 52, 0, 0, 0, 24, 0, 0, 0, 8, 0, 0, 0, 0, 0, 0, 0, 128, 0, 0, 0, 0, 0, 0, 0, 0, 0, 0, 0, 0, 0, 0, 0, 0, 0, 0, 0, 0, 0, 0, 0, 0, 0, 0, 0, 232, 3, 0, 0, 4, 0, 0, 0, 2, 0, 0, 0, 2, 0, 0, 0, 16, 0, 2, 0, 68, 172, 0, 0, 84, 0, 0, 0, 148, 0, 0, 0, 120, 86, 52, 18, 118, 95, 148, 132, 66, 95, 115, 75, 15, 150, 109, 36, 141, 7, 64, 220, 230, 134, 43, 75, 182, 131, 71, 223, 186, 219, 249, 119, 177, 60, 160, 220, 225, 69, 229, 134, 103, 150, 90, 227, 190, 129, 182, 91, 202, 143, 134, 235, 120, 120, 251, 66, 37, 67, 187, 99, 1, 199, 237, 220, 120, 86, 52, 18, 72, 115, 22, 217, 81, 129, 227, 254, 103, 179, 128, 211, 254, 121, 70, 191, 183, 19, 21, 108, 98, 151, 93, 174, 85, 115, 57, 84, 225, 19, 219, 35, 64, 1, 47, 175, 154, 208, 62, 159, 187, 240, 39, 137, 171, 163, 2, 18, 114, 242, 254, 79, 192, 16, 151, 106, 217, 132, 74, 80]
}

fn stereo_level4000_bytes() -> Vec<u8> {
    vec![77, 65, 67, 32, 150, 15, 0, 0, 52, 0, 0, 0, 24, 0, 0, 0, 8, 0, 0, 0, 0, 0, 0, 0, 144, 0, 0, 0, 0, 0, 0, 0, 0, 0, 0, 0, 0, 0, 0, 0, 0, 0, 0, 0, 0, 0, 0, 0, 0, 0, 0, 0, 160, 15, 0, 0, 3, 0, 0, 0, 2, 0, 0, 0, 2, 0, 0, 0, 24, 0, 2, 0, 68, 172, 0, 0, 84, 0, 0, 0, 156, 0, 0, 0, 120, 86, 52, 18, 148, 187, 155, 212, 13, 56, 142, 89, 129, 214, 196, 127, 31, 70, 205, 162, 107, 77, 100, 71, 158, 35, 63, 169, 72, 242, 41, 209, 221, 9, 172, 209, 25, 181, 26, 190, 207, 2, 191, 244, 127, 109, 59, 122, 32, 136, 29, 184, 128, 66, 98, 141, 87, 163, 178, 157, 171, 139, 48, 170, 9, 178, 25, 4, 27, 242, 139, 239, 120, 86, 52, 18, 38, 132, 158, 101, 206, 70, 10, 248, 100, 93, 200, 248, 108, 56, 77, 128, 161, 161, 156, 25, 47, 214, 82, 25, 245, 206, 128, 159, 115, 123, 43, 38, 25, 151, 83, 135, 113, 249, 201, 249, 235, 39, 227, 208, 162, 247, 117, 111, 216, 14, 186, 96, 118, 86, 168, 27, 108, 88, 188, 160, 229, 182, 222, 155, 98, 5, 54, 47]
}

fn stereo_level5000_bytes() -> Vec<u8> {
    vec![77, 65, 67, 32, 150, 15, 0, 0, 52, 0, 0, 0, 24, 0, 0, 0, 8, 0, 0, 0, 0, 0, 0, 0, 144, 0, 0, 0, 0, 0, 0, 0, 0, 0, 0, 0, 0, 0, 0, 0, 0, 0, 0, 0, 0, 0, 0, 0, 0, 0, 0, 0, 136, 19, 0, 0, 3, 0, 0, 0, 2, 0, 0, 0, 2, 0, 0, 0, 16, 0, 2, 0, 68, 172, 0, 0, 84, 0, 0, 0, 156, 0, 0, 0, 120, 86, 52, 18, 201, 102, 61, 22, 133, 75, 148, 177, 167, 210, 133, 55, 159, 166, 55, 137, 103, 36, 103, 11, 37, 198, 233, 58, 50, 8, 212, 50, 153, 225, 202, 216, 55, 119, 208, 81, 70, 98, 199, 106, 234, 53, 252, 68, 61, 245, 232, 3, 219, 188, 252, 245, 46, 125, 1, 93, 231, 192, 238, 13, 243, 65, 134, 58, 150, 206, 230, 145, 120, 86, 52, 18, 154, 224, 236, 87, 107, 39, 23, 157, 237, 51, 215, 159, 8, 231, 239, 34, 38, 140, 223, 89, 220, 87, 64, 43, 103, 57, 239, 146, 78, 219, 34, 240, 20, 148, 196, 4, 135, 107, 129, 182, 143, 12, 31, 162, 150, 100, 32, 107, 133, 165, 69, 238, 244, 219, 146, 156, 20, 79, 114, 31, 133, 51, 59, 234, 168, 166, 194, 239]
}

fn id3_mono_level1000_bytes() -> Vec<u8> {
    vec![73, 68, 51, 4, 0, 0, 0, 0, 0, 38, 16, 89, 159, 90, 115, 29, 100, 27, 228, 145, 16, 17, 223, 96, 123, 36, 61, 29, 141, 218, 150, 148, 116, 13, 170, 165, 46, 124, 5, 25, 227, 62, 233, 201, 145, 216, 136, 16, 77, 65, 67, 32, 150, 15, 0, 0, 52, 0, 0, 0, 24, 0, 0, 0, 8, 0, 0, 0, 0, 0, 0, 0, 96, 0, 0, 0, 0, 0, 0, 0, 0, 0, 0, 0, 0, 0, 0, 0, 0, 0, 0, 0, 0, 0, 0, 0, 0, 0, 0, 0, 232, 3, 0, 0, 5, 0, 0, 0, 3, 0, 0, 0, 2, 0, 0, 0, 16, 0, 1, 0, 68, 172, 0, 0, 132, 0, 0, 0, 180, 0, 0, 0, 120, 86, 52, 18, 24, 202, 77, 165, 29, 187, 48, 37, 222, 44, 19, 109, 46, 123, 35, 214, 114, 63, 30, 217, 113, 25, 203, 31, 214, 148, 68, 23, 92, 157, 60, 73, 49, 190, 96, 52, 254, 105, 30, 32, 232, 238, 160, 218, 120, 86, 52, 18, 92, 127, 153, 185, 253, 153, 41, 124, 37, 147, 229, 175, 175, 84, 214, 60, 20, 215, 250, 77, 179, 174, 160, 39, 47, 35, 233, 254, 31, 33, 242, 138, 197, 145, 228, 158, 181, 236, 11, 177, 30, 252, 59, 86]
}

#[test]
fn decode_mono_level1000() {
    let data = mono_level1000_bytes();
    let reader = ApeReader::new(data).expect("stream head should parse");
    let info = *reader.info();
    assert_eq!(info.channels, 1);
    assert_eq!(info.compression_level, 1000);
    assert_eq!(info.bits_per_sample, 16);
    assert_eq!(info.total_samples, 8);
    let mut samples = reader.samples();
    let mut out: Vec<i32> = Vec::new();
    loop {
        match samples.next() {
            Some(Ok(s)) => out.push(s),
            Some(Err(e)) => panic!("decode error: {:?}", e),
            None => break,
        }
    }
    assert_eq!(out, vec![-261, -95, 75, 491, 483, -577, 676, 2294]);
    assert_eq!(out.len() as u64, info.total_samples);
}

#[test]
fn decode_mono_level5000() {
    let data = mono_level5000_bytes();
    let reader = ApeReader::new(data).expect("stream head should parse");
    let info = *reader.info();
    assert_eq!(info.channels, 1);
    assert_eq!(info.compression_level, 5000);
    assert_eq!(info.bits_per_sample, 16);
    assert_eq!(info.total_samples, 6);
    let mut samples = reader.samples();
    let mut out: Vec<i32> = Vec::new();
    loop {
        match samples.next() {
            Some(Ok(s)) => out.push(s),
            Some(Err(e)) => panic!("decode error: {:?}", e),
            None => break,
        }
    }
    assert_eq!(out, vec![-1308, -2451, -1599, -740, -1359, -1287]);
    assert_eq!(out.len() as u64, info.total_samples);
}

#[test]
fn decode_stereo_level1000() {
    let data = stereo_level1000_bytes();
    let reader = ApeReader::new(data).expect("stream head should parse");
    let info = *reader.info();
    assert_eq!(info.channels, 2);
    assert_eq!(info.compression_level, 1000);
    assert_eq!(info.bits_per_sample, 16);
    assert_eq!(info.total_samples, 12);
    let mut samples = reader.samples();
    let mut out: Vec<i32> = Vec::new();
    loop {
        match samples.next() {
            Some(Ok(s)) => out.push(s),
            Some(Err(e)) => panic!("decode error: {:?}", e),
            None => break,
        }
    }
    assert_eq!(out, vec![130, -420, 2177, -165, 1568, -1407, 519, -1025, -222, -297, -26, 201]);
    assert_eq!(out.len() as u64, info.total_samples);
}

#[test]
fn decode_stereo_level4000() {
    let data = stereo_level4000_bytes();
    let reader = ApeReader::new(data).expect("stream head should parse");
    let info = *reader.info();
    assert_eq!(info.channels, 2);
    assert_eq!(info.compression_level, 4000);
    assert_eq!(info.bits_per_sample, 24);
    assert_eq!(info.total_samples, 10);
    let mut samples = reader.samples();
    let mut out: Vec<i32> = Vec::new();
    loop {
        match samples.next() {
            Some(Ok(s)) => out.push(s),
            Some(Err(e)) => panic!("decode error: {:?}", e),
            None => break,
        }
    }
    assert_eq!(out, vec![1369, 780, 2297, 879, 1110, -531, -329, -933, -1880, -3293]);
    assert_eq!(out.len() as u64, info.total_samples);
}

#[test]
fn decode_stereo_level5000() {
    let data = stereo_level5000_bytes();
    let reader = ApeReader::new(data).expect("stream head should parse");
    let info = *reader.info();
    assert_eq!(info.channels, 2);
    assert_eq!(info.compression_level, 5000);
    assert_eq!(info.bits_per_sample, 16);
    assert_eq!(info.total_samples, 10);
    let mut samples = reader.samples();
    let mut out: Vec<i32> = Vec::new();
    loop {
        match samples.next() {
            Some(Ok(s)) => out.push(s),
            Some(Err(e)) => panic!("decode error: {:?}", e),
            None => break,
        }
    }
    assert_eq!(out, vec![-39, 167, -844, 856, -893, 2120, -557, 709, -1430, 1524]);
    assert_eq!(out.len() as u64, info.total_samples);
}

#[test]
fn decode_id3_mono_level1000() {
    let data = id3_mono_level1000_bytes();
    let reader = ApeReader::new(data).expect("stream head should parse");
    let info = *reader.info();
    assert_eq!(info.channels, 1);
    assert_eq!(info.compression_level, 1000);
    assert_eq!(info.bits_per_sample, 16);
    assert_eq!(info.total_samples, 8);
    let mut samples = reader.samples();
    let mut out: Vec<i32> = Vec::new();
    loop {
        match samples.next() {
            Some(Ok(s)) => out.push(s),
            Some(Err(e)) => panic!("decode error: {:?}", e),
            None => break,
        }
    }
    assert_eq!(out, vec![-261, -95, 75, 491, 483, -577, 676, 2294]);
    assert_eq!(out.len() as u64, info.total_samples);
}

#[test]
fn id3_prefix_leaves_samples_unchanged() {
    let plain = decode_all(mono_level1000_bytes());
    let tagged = decode_all(id3_mono_level1000_bytes());
    assert_eq!(plain, tagged);
}

#[test]
fn decoding_twice_is_deterministic() {
    let first = decode_all(stereo_level5000_bytes());
    let second = decode_all(stereo_level5000_bytes());
    assert_eq!(first, second);
}
