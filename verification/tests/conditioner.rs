use xiao_esp32s3_mic::conditioner::{attenuate, condition_frame, saturating_multiply, FilterState};

fn frame_of(samples: &[i16]) -> Vec<u8> {
    let mut bytes = Vec::new();
    for s in samples {
        bytes.extend_from_slice(&s.to_le_bytes());
    }
    bytes
}

fn samples_in(bytes: &[u8]) -> Vec<i16> {
    let mut samples = Vec::new();
    let mut i = 0;
    while i + 1 < bytes.len() {
        samples.push(i16::from_le_bytes([bytes[i], bytes[i + 1]]));
        i += 2;
    }
    samples
}

#[test]
fn saturating_multiply_clamps_at_both_ends() {
    assert_eq!(saturating_multiply(-32768, -1), 32767);
    assert_eq!(saturating_multiply(32767, 2), 32767);
    assert_eq!(saturating_multiply(-32768, 2), -32768);
    assert_eq!(saturating_multiply(32767, -2), -32768);
    assert_eq!(saturating_multiply(-32768, -32768), 32767);
    assert_eq!(saturating_multiply(819, 40), 32760);
    assert_eq!(saturating_multiply(820, 40), 32767);
    assert_eq!(saturating_multiply(-819, 40), -32760);
    assert_eq!(saturating_multiply(-820, 40), -32768);
}

#[test]
fn saturating_multiply_is_exact_in_range() {
    assert_eq!(saturating_multiply(100, 40), 4000);
    assert_eq!(saturating_multiply(-100, 40), -4000);
    assert_eq!(saturating_multiply(123, 0), 0);
    assert_eq!(saturating_multiply(0, -7), 0);
    assert_eq!(saturating_multiply(-3, -5), 15);
}

#[test]
fn saturating_multiply_agrees_with_the_standard_library() {
    let values = [i16::MIN, -32767, -1000, -181, -2, -1, 0, 1, 2, 40, 181, 182, 1000, i16::MAX];
    for a in values {
        for b in values {
            assert_eq!(saturating_multiply(a, b), a.saturating_mul(b));
        }
    }
}

#[test]
fn attenuate_is_an_arithmetic_shift() {
    assert_eq!(attenuate(1000, 0), 1000);
    assert_eq!(attenuate(1000, 1), 500);
    assert_eq!(attenuate(-5, 1), -3);
    assert_eq!(attenuate(-1, 3), -1);
    assert_eq!(attenuate(5, 1), 2);
    assert_eq!(attenuate(-32768, 14), -2);
    assert_eq!(attenuate(32767, 14), 1);
}

#[test]
fn attenuate_leaves_only_the_sign_from_15_bits_on() {
    for shift in [15u8, 16, 17, 100, 255] {
        assert_eq!(attenuate(-32768, shift), -1);
        assert_eq!(attenuate(-1, shift), -1);
        assert_eq!(attenuate(0, shift), 0);
        assert_eq!(attenuate(1, shift), 0);
        assert_eq!(attenuate(32767, shift), 0);
    }
}

#[test]
fn attenuate_agrees_with_the_shift_operator() {
    for s in [i16::MIN, -12345, -256, -255, -2, -1, 0, 1, 2, 255, 256, 12345, i16::MAX] {
        for shift in 0u8..16 {
            assert_eq!(attenuate(s, shift), s >> shift);
        }
    }
}

#[test]
fn new_filter_starts_at_zero() {
    assert_eq!(FilterState::new().estimate(), 0);
}

#[test]
fn condition_one_sample_moves_estimate_by_a_256th() {
    let mut filter = FilterState::new();
    assert_eq!(filter.condition(1000, 0, 1), 997);
    assert_eq!(filter.estimate(), 3);
    assert_eq!(filter.condition(1000, 0, 1), 994);
    assert_eq!(filter.estimate(), 6);
}

#[test]
fn dc_update_truncates_toward_zero() {
    let mut up = FilterState::new();
    assert_eq!(up.condition(255, 0, 1), 255);
    assert_eq!(up.estimate(), 0);
    assert_eq!(up.condition(256, 0, 1), 255);
    assert_eq!(up.estimate(), 1);
    let mut down = FilterState::new();
    assert_eq!(down.condition(-255, 0, 1), -255);
    assert_eq!(down.estimate(), 0);
    assert_eq!(down.condition(-256, 0, 1), -255);
    assert_eq!(down.estimate(), -1);
}

#[test]
fn condition_frame_with_gain_of_one() {
    let mut buf = frame_of(&[1000; 6]);
    let mut filter = FilterState::new();
    condition_frame(&mut buf, &mut filter, 0, 1);
    assert_eq!(samples_in(&buf), vec![997, 994, 991, 988, 985, 982]);
    assert_eq!(filter.estimate(), 18);
}

#[test]
fn condition_frame_with_the_standard_gain() {
    let mut buf = frame_of(&[1000, -1000, 500, 0, 32767, -32768]);
    let mut filter = FilterState::new();
    condition_frame(&mut buf, &mut filter, 0, 40);
    assert_eq!(samples_in(&buf), vec![32767, -32768, 19960, -40, 32767, -32768]);
    assert_eq!(filter.estimate(), 0);
}

#[test]
fn condition_frame_with_attenuation() {
    let mut buf = frame_of(&[1000, -1000, 500, 0, 32767, -32768]);
    let mut filter = FilterState::new();
    condition_frame(&mut buf, &mut filter, 1, 2);
    assert_eq!(samples_in(&buf), vec![998, -1000, 500, 0, 32640, -32766]);
    assert_eq!(filter.estimate(), -1);
}

#[test]
fn condition_frame_at_the_lowest_sample() {
    let mut buf = frame_of(&[-32768; 3]);
    let mut filter = FilterState::new();
    condition_frame(&mut buf, &mut filter, 0, 1);
    assert_eq!(samples_in(&buf), vec![-32640, -32513, -32386]);
    assert_eq!(filter.estimate(), -382);
}

#[test]
fn condition_frame_leaves_an_odd_last_byte_alone() {
    let mut buf = frame_of(&[1000, 1000]);
    buf.push(0xab);
    let mut filter = FilterState::new();
    condition_frame(&mut buf, &mut filter, 0, 1);
    assert_eq!(buf.len(), 5);
    assert_eq!(samples_in(&buf[..4]), vec![997, 994]);
    assert_eq!(buf[4], 0xab);
}

#[test]
fn condition_frame_of_no_bytes_or_one_byte_changes_nothing() {
    let mut filter = FilterState::new();
    let mut none: Vec<u8> = Vec::new();
    condition_frame(&mut none, &mut filter, 0, 40);
    assert_eq!(none.len(), 0);
    let mut one = vec![0x55u8];
    condition_frame(&mut one, &mut filter, 0, 40);
    assert_eq!(one, vec![0x55u8]);
    assert_eq!(filter.estimate(), 0);
}

#[test]
fn constant_input_converges_monotonically() {
    for v in [1000i16, -1000, 32767, -32768, 300, -300, 0] {
        let mut filter = FilterState::new();
        let mut distance = (v as i32 - filter.estimate()).abs();
        for _ in 0..70_000 {
            filter.condition(v, 0, 1);
            let acc = filter.estimate();
            if v >= 0 {
                assert!(0 <= acc && acc <= v as i32);
            } else {
                assert!(v as i32 <= acc && acc <= 0);
            }
            let next = (v as i32 - acc).abs();
            assert!(next <= distance);
            distance = next;
        }
        assert!(distance <= 255);
    }
}

#[test]
fn constant_input_settles_with_the_rounding_residue() {
    let mut filter = FilterState::new();
    let mut last = 0i16;
    let mut settled_after = 0;
    for n in 1..=2000 {
        last = filter.condition(1000, 0, 1);
        if settled_after == 0 && (1000 - filter.estimate()).abs() < 256 {
            settled_after = n;
        }
    }
    assert_eq!(settled_after, 461);
    assert_eq!(filter.estimate(), 745);
    assert_eq!(last, 255);
    let mut negative = FilterState::new();
    for _ in 0..2000 {
        last = negative.condition(-1000, 0, 1);
    }
    assert_eq!(negative.estimate(), -745);
    assert_eq!(last, -255);
}

#[test]
fn constant_output_is_bounded_by_gain_times_residue() {
    let mut filter = FilterState::new();
    let mut out = 0i16;
    for _ in 0..40_000 {
        out = filter.condition(32767, 0, 40);
    }
    assert_eq!(filter.estimate(), 32512);
    assert_eq!(out, 255 * 40);
}

#[test]
fn conditioning_twice_with_new_filters_gives_the_same() {
    let raw = frame_of(&[12, -7000, 32767, -32768, 0, 513, -1, 9999, -4242]);
    let mut first = raw.clone();
    let mut second = raw.clone();
    let mut a = FilterState::new();
    let mut b = FilterState::new();
    condition_frame(&mut first, &mut a, 0, 40);
    condition_frame(&mut second, &mut b, 0, 40);
    assert_eq!(first, second);
    assert_eq!(a.estimate(), b.estimate());
    assert_ne!(first, raw);
}

#[test]
fn estimate_is_carried_from_frame_to_frame() {
    let samples = [1000i16, -2000, 3000, 32767, -32768, 5, 700, -700];
    let mut whole = frame_of(&samples);
    let mut one = FilterState::new();
    condition_frame(&mut whole, &mut one, 0, 3);
    let mut head = frame_of(&samples[..3]);
    let mut tail = frame_of(&samples[3..]);
    let mut two = FilterState::new();
    condition_frame(&mut head, &mut two, 0, 3);
    condition_frame(&mut tail, &mut two, 0, 3);
    head.extend_from_slice(&tail);
    assert_eq!(whole, head);
    assert_eq!(one.estimate(), two.estimate());
}
