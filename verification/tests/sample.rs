use xiao_esp32s3_mic::sample::{decode_sample, encode_sample};

#[test]
fn decode_reads_little_endian() {
    assert_eq!(decode_sample(0x34, 0x12), 0x1234);
    assert_eq!(decode_sample(0xff, 0xff), -1);
    assert_eq!(decode_sample(0x00, 0x80), -32768);
    assert_eq!(decode_sample(0xff, 0x7f), 32767);
    assert_eq!(decode_sample(0, 0), 0);
}

#[test]
fn encode_writes_low_byte_first() {
    assert_eq!(encode_sample(0x1234), (0x34, 0x12));
    assert_eq!(encode_sample(-2), (0xfe, 0xff));
    assert_eq!(encode_sample(-32768), (0x00, 0x80));
    assert_eq!(encode_sample(32767), (0xff, 0x7f));
}

#[test]
fn codec_agrees_with_the_standard_library_on_every_sample() {
    let mut s: i16 = i16::MIN;
    loop {
        let bytes = s.to_le_bytes();
        assert_eq!(encode_sample(s), (bytes[0], bytes[1]));
        assert_eq!(decode_sample(bytes[0], bytes[1]), i16::from_le_bytes(bytes));
        if s == i16::MAX {
            break;
        }
        s += 1;
    }
}

#[test]
fn encode_then_decode_is_identity() {
    for s in [0i16, 1, -1, 255, 256, -256, -257, 12345, -12345, i16::MIN, i16::MAX] {
        let (lo, hi) = encode_sample(s);
        assert_eq!(decode_sample(lo, hi), s);
    }
}

#[test]
fn decode_then_encode_is_identity() {
    for lo in [0u8, 1, 0x7f, 0x80, 0xff] {
        for hi in [0u8, 1, 0x7f, 0x80, 0xff] {
            assert_eq!(encode_sample(decode_sample(lo, hi)), (lo, hi));
        }
    }
}
