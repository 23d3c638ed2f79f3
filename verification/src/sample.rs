//! Signed 16-bit PCM samples and their little-endian byte form.
//!
//! A frame travels as bytes: sample `i` occupies bytes `2 * i` (low) and
//! `2 * i + 1` (high). A trailing odd byte belongs to no sample.

use vstd::prelude::*;

verus! {

/// The signed 16-bit value that is congruent to `x` modulo 65536.
pub open spec fn wrap_i16(x: int) -> i16 {
    let m: int = x % 65536;
    if m >= 32768 {
        (m - 65536) as i16
    } else {
        m as i16
    }
}

/// The sample whose little-endian bytes are `lo`, `hi`.
pub open spec fn sample_from_le(lo: u8, hi: u8) -> i16 {
    wrap_i16(lo as int + 256 * (hi as int))
}

/// The low byte of the two's complement form of `s`.
pub open spec fn sample_low_byte(s: i16) -> u8 {
    ((s as int) % 256) as u8
}

/// The high byte of the two's complement form of `s`.
pub open spec fn sample_high_byte(s: i16) -> u8 {
    (((s as int) / 256) % 256) as u8
}

/// The samples that a byte sequence holds, in order. An odd last byte is
/// left out.
pub open spec fn samples_of(bytes: Seq<u8>) -> Seq<i16> {
    Seq::new(bytes.len() / 2, |i: int| sample_from_le(bytes[2 * i], bytes[2 * i + 1]))
}

/// The little-endian bytes of a sample sequence, two per sample.
pub open spec fn bytes_of(samples: Seq<i16>) -> Seq<u8> {
    Seq::new(
        2 * samples.len(),
        |j: int|
            if j % 2 == 0 {
                sample_low_byte(samples[j / 2])
            } else {
                sample_high_byte(samples[j / 2])
            },
    )
}

/// The byte that belongs to no sample: the last byte of a sequence of odd
/// length, and nothing for one of even length.
pub open spec fn unpaired_tail(bytes: Seq<u8>) -> Seq<u8> {
    bytes.skip(2 * (bytes.len() / 2) as int)
}

/// Reads one sample from its two little-endian bytes.
pub fn decode_sample(lo: u8, hi: u8) -> (s: i16)
    ensures
        s == sample_from_le(lo, hi),
{
    let v: i32 = lo as i32 + 256 * (hi as i32);
    if v >= 32768 {
        (v - 65536) as i16
    } else {
        v as i16
    }
}

/// Splits one sample into its two little-endian bytes, low byte first.
pub fn encode_sample(s: i16) -> (b: (u8, u8))
    ensures
        b.0 == sample_low_byte(s),
        b.1 == sample_high_byte(s),
{
    let u: i32 = if s < 0 {
        s as i32 + 65536
    } else {
        s as i32
    };
    ((u % 256) as u8, (u / 256) as u8)
}

/// Encoding a sample and decoding the two bytes gives the sample back.
pub proof fn lemma_encode_then_decode(s: i16)
    ensures
        sample_from_le(sample_low_byte(s), sample_high_byte(s)) == s,
{
}

/// Decoding two bytes and encoding the sample gives the two bytes back.
pub proof fn lemma_decode_then_encode(lo: u8, hi: u8)
    ensures
        sample_low_byte(sample_from_le(lo, hi)) == lo,
        sample_high_byte(sample_from_le(lo, hi)) == hi,
{
}

/// A byte sequence made of encoded samples and at most one further byte
/// holds exactly those samples.
pub proof fn lemma_samples_of_encoded(samples: Seq<i16>, rest: Seq<u8>)
    requires
        rest.len() <= 1,
    ensures
        samples_of(bytes_of(samples) + rest) == samples,
{
    let bytes = bytes_of(samples) + rest;
    assert(bytes.len() / 2 == samples.len());
    assert forall|i: int| 0 <= i < samples.len() implies #[trigger] samples_of(bytes)[i]
        == samples[i] by {
        assert(bytes[2 * i] == sample_low_byte(samples[i]));
        assert(bytes[2 * i + 1] == sample_high_byte(samples[i]));
        lemma_encode_then_decode(samples[i]);
    }
    assert(samples_of(bytes) =~= samples);
}

/// Two byte sequences of one length that hold the same samples and end in
/// the same odd byte, if any, are the same bytes.
pub proof fn lemma_samples_determine_bytes(a: Seq<u8>, b: Seq<u8>)
    requires
        a.len() == b.len(),
        samples_of(a) == samples_of(b),
        a.len() % 2 == 1 ==> a.last() == b.last(),
    ensures
        a == b,
{
    assert forall|j: int| 0 <= j < a.len() implies a[j] == b[j] by {
        let i: int = j / 2;
        if 2 * i + 1 < a.len() {
            assert(i < a.len() / 2);
            assert(samples_of(a)[i] == sample_from_le(a[2 * i], a[2 * i + 1]));
            assert(samples_of(b)[i] == sample_from_le(b[2 * i], b[2 * i + 1]));
            lemma_decode_then_encode(a[2 * i], a[2 * i + 1]);
            lemma_decode_then_encode(b[2 * i], b[2 * i + 1]);
            assert(j == 2 * i || j == 2 * i + 1);
        } else {
            assert(j == a.len() - 1);
        }
    }
    assert(a =~= b);
}

} // verus!
