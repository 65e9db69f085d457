//! Component-level behavior: sample buffer, Rice state, range coder,
//! filter stages, predictor.
//!
//! Expected values were computed independently, step by step, from the
//! documented algorithm.

use ape_rs::buffer::SampleBuffer;
use ape_rs::nnfilter::{NNFilter, NNFilterStage};
use ape_rs::predictor::Predictor;
use ape_rs::range_coder::{RangeCoder, RiceState};

#[test]
fn sample_buffer_fifo_order() {
    let mut b = SampleBuffer::new();
    assert!(b.is_empty());
    assert_eq!(b.remaining(), 0);
    b.push(1);
    b.push_stereo(2, 3);
    assert_eq!(b.remaining(), 3);
    assert!(!b.is_empty());
    assert_eq!(b.next_sample(), Some(1));
    assert_eq!(b.next_sample(), Some(2));
    assert_eq!(b.remaining(), 1);
    assert_eq!(b.next_sample(), Some(3));
    assert_eq!(b.next_sample(), None);
    assert!(b.is_empty());
}

#[test]
fn sample_buffer_clear_drops_everything() {
    let mut b = SampleBuffer::new();
    b.push(7);
    b.push(8);
    assert_eq!(b.next_sample(), Some(7));
    b.clear();
    assert!(b.is_empty());
    assert_eq!(b.next_sample(), None);
    b.push(9);
    assert_eq!(b.next_sample(), Some(9));
}

#[test]
fn rice_initial_state() {
    let r = RiceState::new();
    assert_eq!(r.k, 10);
    assert_eq!(r.ksum, 16384);
    assert_eq!(r.pivot(), 512);
}

#[test]
fn rice_update_trace() {
    let mut r = RiceState::new();
    let inputs: [u32; 10] = [0, 1, 5, 1000, 3, 70000, 2147483648, 0, 0, 0];
    let expected: [(u32, u32); 10] = [
        (9, 15872),
        (9, 15377),
        (9, 14899),
        (9, 14933),
        (9, 14468),
        (10, 49016),
        (11, 1073789308),
        (12, 1040233392),
        (13, 1007726098),
        (14, 976234657),
    ];
    for i in 0..10 {
        r.update(inputs[i]);
        assert_eq!((r.k, r.ksum), expected[i]);
    }
}

#[test]
fn rice_k_saturates_high() {
    let mut r = RiceState { k: 24, ksum: 0xF000_0000 };
    r.update(0xFFFF_FFFE);
    assert!(r.k <= 24);
    assert_eq!(r.k, 24);
}

#[test]
fn rice_k_saturates_low() {
    let mut r = RiceState { k: 0, ksum: 3 };
    r.update(0);
    assert_eq!(r.k, 0);
}

#[test]
fn rice_pivot_floors_at_one() {
    let r = RiceState { k: 0, ksum: 7 };
    assert_eq!(r.pivot(), 1);
}

#[test]
fn range_coder_decodes_known_values() {
    let payload: Vec<u8> = vec![
        57, 12, 140, 125, 114, 71, 52, 44, 216, 16, 15, 47, 111, 119, 13, 101, 214, 112, 229,
        142, 3, 81, 216, 174,
    ];
    let mut rc = RangeCoder::new(payload);
    assert_eq!(rc.position(), 1);
    let mut rice = RiceState::new();
    let expected: [i32; 6] = [191, -1295, -109, 762, -624, 901];
    for i in 0..6 {
        assert_eq!(rc.decode_value(&mut rice), expected[i]);
    }
    assert_eq!(rice.k, 10);
    assert_eq!(rice.ksum, 17165);
    assert_eq!(rc.position(), 11);
}

#[test]
fn range_coder_soft_eof_reads_zero_bytes() {
    let mut rc = RangeCoder::new(Vec::new());
    let mut rice = RiceState::new();
    // Every byte past the end reads as zero, so decoding keeps going
    // deterministically instead of failing.
    let a = rc.decode_value(&mut rice);
    let b = rc.decode_value(&mut rice);
    let mut rc2 = RangeCoder::new(Vec::new());
    let mut rice2 = RiceState::new();
    assert_eq!(rc2.decode_value(&mut rice2), a);
    assert_eq!(rc2.decode_value(&mut rice2), b);
}

#[test]
fn stage_order4_known_outputs() {
    let mut st = NNFilterStage::new(4, 3);
    let inputs: [i32; 12] = [100, -50, 3, 0, -20000, 40000, 7, -7, 1, 2, 3, 4];
    let expected: [i32; 12] = [
        100, -50, 9, -9, -19997, 42507, -5690, -9986, 10326, -2526, -8948, 4924,
    ];
    for i in 0..12 {
        assert_eq!(st.decompress(inputs[i]), expected[i]);
    }
}

#[test]
fn stage_order16_known_outputs() {
    let mut st = NNFilterStage::new(16, 11);
    let inputs: [i32; 10] = [
        1000, -2000, 1500, -100, 0, 37, 1073741824, -1073741824, 5, 5,
    ];
    let expected: [i32; 10] = [
        1000, -2000, 1500, -103, 2, 36, 1073741822, -1073741841, 55, -46,
    ];
    for i in 0..10 {
        assert_eq!(st.decompress(inputs[i]), expected[i]);
    }
}

#[test]
fn stage_reset_restores_initial_behavior() {
    let inputs: [i32; 12] = [100, -50, 3, 0, -20000, 40000, 7, -7, 1, 2, 3, 4];
    let mut used = NNFilterStage::new(4, 3);
    for i in 0..12 {
        used.decompress(inputs[i]);
    }
    used.reset();
    let mut fresh = NNFilterStage::new(4, 3);
    for i in 0..12 {
        assert_eq!(used.decompress(inputs[i]), fresh.decompress(inputs[i]));
    }
}

#[test]
fn stage_double_reset_equals_single_reset() {
    let inputs: [i32; 12] = [100, -50, 3, 0, -20000, 40000, 7, -7, 1, 2, 3, 4];
    let mut once = NNFilterStage::new(4, 3);
    let mut twice = NNFilterStage::new(4, 3);
    for i in 0..12 {
        once.decompress(inputs[i]);
        twice.decompress(inputs[i]);
    }
    once.reset();
    twice.reset();
    twice.reset();
    for i in 0..12 {
        assert_eq!(once.decompress(inputs[i]), twice.decompress(inputs[i]));
    }
}

#[test]
fn filter_stage_counts_per_level() {
    assert_eq!(NNFilter::new(0).num_stages(), 0);
    assert_eq!(NNFilter::new(1).num_stages(), 1);
    assert_eq!(NNFilter::new(2).num_stages(), 1);
    assert_eq!(NNFilter::new(3).num_stages(), 2);
    assert_eq!(NNFilter::new(4).num_stages(), 3);
}

#[test]
fn filter_level1000_is_passthrough() {
    let mut f = NNFilter::new(0);
    assert_eq!(f.decompress(12345), 12345);
    assert_eq!(f.decompress(-777), -777);
}

#[test]
fn predictor_mono_known_outputs() {
    let mut p = Predictor::new();
    let inputs: [i32; 10] = [10, -20, 30, -40, 0, 5, 100000, -100000, 7, 8];
    let expected: [i32; 10] = [
        10, -5, 11, -12, -37, -34, 99972, 62373, -3401, -10374,
    ];
    for i in 0..10 {
        assert_eq!(p.decode_mono(inputs[i]), expected[i]);
    }
}

#[test]
fn predictor_stereo_known_outputs() {
    let mut p = Predictor::new();
    let inputs: [(i32, i32); 6] = [
        (10, 20),
        (-5, 3),
        (1000, -1000),
        (0, 0),
        (123456, -654321),
        (7, 7),
    ];
    let expected: [(i32, i32); 6] = [
        (15, 25),
        (30, 40),
        (-1466, -461),
        (-2413, -781),
        (-718420, -593362),
        (-1170538, -967422),
    ];
    for i in 0..6 {
        assert_eq!(p.decode_stereo(inputs[i].0, inputs[i].1), expected[i]);
    }
}

#[test]
fn predictor_reset_restores_initial_behavior() {
    let inputs: [i32; 10] = [10, -20, 30, -40, 0, 5, 100000, -100000, 7, 8];
    let mut used = Predictor::new();
    for i in 0..10 {
        used.decode_mono(inputs[i]);
    }
    used.reset();
    used.reset();
    let mut fresh = Predictor::new();
    for i in 0..10 {
        assert_eq!(used.decode_mono(inputs[i]), fresh.decode_mono(inputs[i]));
    }
}

#[test]
fn predictor_mono_ring_wrap() {
    // Runs past the 512-block window so the delay ring slides its tail
    // to the front; the last outputs must still match.
    let mut p = Predictor::new();
    let mut tail: Vec<i32> = Vec::new();
    for i in 0..520i32 {
        let x = ((i * 37) % 201) - 100;
        let s = p.decode_mono(x);
        if i >= 510 {
            tail.push(s);
        }
    }
    assert_eq!(tail, vec![565, 726, -10, -780, -666, 219, 912, 561, -394, -814]);
}

#[test]
fn predictor_stereo_ring_wrap() {
    let mut p = Predictor::new();
    let mut tail: Vec<(i32, i32)> = Vec::new();
    for i in 0..520i32 {
        let y = ((i * 29) % 181) - 90;
        let x = ((i * 53) % 211) - 105;
        let s = p.decode_stereo(y, x);
        if i >= 510 {
            tail.push(s);
        }
    }
    assert_eq!(
        tail,
        vec![
            (-444, -457),
            (-875, -572),
            (-589, -272),
            (-131, -114),
            (-260, -580),
            (-506, -893),
            (-329, -470),
            (-181, 18),
            (-585, -187),
            (-803, -550),
        ]
    );
}
