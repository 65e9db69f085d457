//! More whole-stream scenarios: the one- and two-stage filter
//! levels, a frame carrying the optional flag word, and a seek entry
//! with a nonzero intra-word skip.
//!
//! Every expected sample was computed independently, step by step, from
//! the documented algorithm.

use ape_rs::ApeReader;

fn mono_level2000_flags_bytes() -> Vec<u8> {
    vec![77, 65, 67, 32, 150, 15, 0, 0, 52, 0, 0, 0, 24, 0, 0, 0, 4, 0, 0, 0, 0, 0, 0, 0, 56, 0, 0, 0, 0, 0, 0, 0, 0, 0, 0, 0, 0, 0, 0, 0, 0, 0, 0, 0, 0, 0, 0, 0, 0, 0, 0, 0, 208, 7, 0, 0, 4, 0, 0, 0, 3, 0, 0, 0, 1, 0, 0, 0, 16, 0, 1, 0, 68, 172, 0, 0, 80, 0, 0, 0, 120, 86, 52, 146, 157, 8, 42, 148, 66, 183, 194, 216, 7, 227, 136, 98, 54, 12, 232, 113, 10, 215, 255, 43, 105, 29, 183, 220, 110, 88, 188, 18, 160, 144, 188, 185, 247, 90, 242, 43, 91, 93, 83, 229, 42, 58, 100, 165, 141, 19, 218, 50, 189, 55, 169, 143]
}

fn mono_level3000_skewed_bytes() -> Vec<u8> {
    vec![77, 65, 67, 32, 150, 15, 0, 0, 52, 0, 0, 0, 24, 0, 0, 0, 4, 0, 0, 0, 0, 0, 0, 0, 52, 0, 0, 0, 0, 0, 0, 0, 0, 0, 0, 0, 0, 0, 0, 0, 0, 0, 0, 0, 0, 0, 0, 0, 0, 0, 0, 0, 184, 11, 0, 0, 4, 0, 0, 0, 3, 0, 0, 0, 1, 0, 0, 0, 16, 0, 1, 0, 68, 172, 0, 0, 82, 0, 0, 0, 52, 18, 177, 38, 44, 147, 120, 86, 9, 212, 201, 176, 115, 227, 53, 16, 168, 254, 43, 178, 87, 228, 102, 214, 100, 208, 222, 112, 112, 142, 152, 216, 157, 73, 241, 210, 50, 203, 241, 153, 76, 135, 71, 188, 83, 203, 35, 174, 144, 238, 218, 212]
}

fn stereo_level2000_bytes() -> Vec<u8> {
    vec![77, 65, 67, 32, 150, 15, 0, 0, 52, 0, 0, 0, 24, 0, 0, 0, 8, 0, 0, 0, 0, 0, 0, 0, 112, 0, 0, 0, 0, 0, 0, 0, 0, 0, 0, 0, 0, 0, 0, 0, 0, 0, 0, 0, 0, 0, 0, 0, 0, 0, 0, 0, 208, 7, 0, 0, 3, 0, 0, 0, 2, 0, 0, 0, 2, 0, 0, 0, 16, 0, 2, 0, 68, 172, 0, 0, 84, 0, 0, 0, 140, 0, 0, 0, 120, 86, 52, 18, 201, 57, 240, 6, 57, 71, 22, 72, 16, 75, 71, 118, 229, 118, 69, 31, 60, 47, 104, 211, 101, 174, 206, 10, 186, 200, 169, 105, 213, 111, 107, 126, 182, 92, 26, 30, 192, 75, 104, 68, 111, 224, 44, 15, 99, 188, 221, 106, 21, 246, 112, 169, 120, 86, 52, 18, 171, 150, 172, 134, 109, 161, 246, 202, 151, 90, 156, 48, 14, 98, 88, 47, 145, 204, 48, 191, 232, 58, 100, 156, 206, 227, 170, 103, 50, 137, 60, 24, 171, 102, 99, 61, 29, 243, 77, 83, 251, 190, 142, 255, 70, 248, 57, 19, 250, 130, 12, 254]
}

fn stereo_level3000_bytes() -> Vec<u8> {
    vec![77, 65, 67, 32, 150, 15, 0, 0, 52, 0, 0, 0, 24, 0, 0, 0, 8, 0, 0, 0, 0, 0, 0, 0, 112, 0, 0, 0, 0, 0, 0, 0, 0, 0, 0, 0, 0, 0, 0, 0, 0, 0, 0, 0, 0, 0, 0, 0, 0, 0, 0, 0, 184, 11, 0, 0, 3, 0, 0, 0, 2, 0, 0, 0, 2, 0, 0, 0, 16, 0, 2, 0, 68, 172, 0, 0, 84, 0, 0, 0, 140, 0, 0, 0, 120, 86, 52, 18, 224, 189, 18, 46, 193, 144, 233, 55, 25, 73, 227, 216, 147, 38, 211, 46, 17, 187, 221, 184, 4, 32, 213, 109, 115, 35, 184, 3, 81, 180, 165, 12, 159, 111, 6, 11, 144, 21, 154, 116, 73, 246, 104, 139, 224, 24, 136, 109, 136, 1, 53, 229, 120, 86, 52, 18, 66, 226, 45, 122, 50, 15, 179, 174, 125, 80, 32, 76, 92, 13, 242, 147, 57, 108, 69, 150, 182, 4, 219, 84, 114, 27, 34, 141, 161, 228, 205, 87, 158, 46, 99, 34, 224, 120, 111, 23, 20, 143, 177, 254, 136, 2, 153, 100, 112, 227, 133, 14]
}

#[test]
fn decode_mono_level2000_flags() {
    let data = mono_level2000_flags_bytes();
    let reader = ApeReader::new(data).expect("stream head should parse");
    let info = *reader.info();
    assert_eq!(info.channels, 1);
    assert_eq!(info.compression_level, 2000);
    assert_eq!(info.total_samples, 3);
    let mut samples = reader.samples();
    let mut out: Vec<i32> = Vec::new();
    loop {
        match samples.next() {
            Some(Ok(s)) => out.push(s),
            Some(Err(e)) => panic!("decode error: {:?}", e),
            None => break,
        }
    }
    assert_eq!(out, vec![-814, -1951, -2057]);
}

#[test]
fn decode_mono_level3000_skewed() {
    let data = mono_level3000_skewed_bytes();
    let reader = ApeReader::new(data).expect("stream head should parse");
    let info = *reader.info();
    assert_eq!(info.channels, 1);
    assert_eq!(info.compression_level, 3000);
    assert_eq!(info.total_samples, 3);
    let mut samples = reader.samples();
    let mut out: Vec<i32> = Vec::new();
    loop {
        match samples.next() {
            Some(Ok(s)) => out.push(s),
            Some(Err(e)) => panic!("decode error: {:?}", e),
            None => break,
        }
    }
    assert_eq!(out, vec![150, 79, -166]);
}

#[test]
fn decode_stereo_level2000() {
    let data = stereo_level2000_bytes();
    let reader = ApeReader::new(data).expect("stream head should parse");
    let info = *reader.info();
    assert_eq!(info.channels, 2);
    assert_eq!(info.compression_level, 2000);
    assert_eq!(info.total_samples, 10);
    let mut samples = reader.samples();
    let mut out: Vec<i32> = Vec::new();
    loop {
        match samples.next() {
            Some(Ok(s)) => out.push(s),
            Some(Err(e)) => panic!("decode error: {:?}", e),
            None => break,
        }
    }
    assert_eq!(out, vec![-125, 1220, 198, 1606, 1321, -178, -234, 446, 160, 781]);
}

#[test]
fn decode_stereo_level3000() {
    let data = stereo_level3000_bytes();
    let reader = ApeReader::new(data).expect("stream head should parse");
    let info = *reader.info();
    assert_eq!(info.channels, 2);
    assert_eq!(info.compression_level, 3000);
    assert_eq!(info.total_samples, 10);
    let mut samples = reader.samples();
    let mut out: Vec<i32> = Vec::new();
    loop {
        match samples.next() {
            Some(Ok(s)) => out.push(s),
            Some(Err(e)) => panic!("decode error: {:?}", e),
            None => break,
        }
    }
    assert_eq!(out, vec![-463, -400, -2148, -726, -4332, -1775, -236, -82, -608, 244]);
}
