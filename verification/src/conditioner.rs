//! The signal conditioner: per-sample attenuation, DC removal and gain.
//!
//! Every sample passes four steps, in this order: an arithmetic right shift,
//! an update of the running DC estimate, the subtraction of that estimate
//! (truncated to 16 bits), and a saturating multiplication by the gain.
//! The DC estimate is carried from sample to sample and from frame to frame.

use crate::sample::{
    bytes_of, decode_sample, encode_sample, sample_high_byte, sample_low_byte, samples_of,
    unpaired_tail, wrap_i16,
};
use vstd::arithmetic::div_mod::lemma_fundamental_div_mod_converse;
use vstd::arithmetic::power2::{lemma2_to64, lemma_pow2_pos, lemma_pow2_strictly_increases, pow2};
use vstd::bits::lemma_u16_shr_is_div;
use vstd::prelude::*;

verus! {

/// `s` shifted right arithmetically by `shift` bits: the largest integer not
/// above `s / 2^shift`. From 15 bits on only the sign is left: -1 or 0.
pub open spec fn attenuated(s: i16, shift: u8) -> i16 {
    ((s as int) / (pow2(shift as nat) as int)) as i16
}

/// The 256th part of `delta`, rounded toward zero.
pub open spec fn dc_increment(delta: int) -> int {
    if delta >= 0 {
        delta / 256
    } else {
        -((-delta) / 256)
    }
}

/// The DC estimate after it has seen sample `s`.
pub open spec fn dc_update(acc: int, s: i16) -> int {
    acc + dc_increment(s as int - acc)
}

/// `sample * gain`, held to the signed 16-bit range.
pub open spec fn saturating_product(sample: i16, gain: i16) -> i16 {
    let p: int = (sample as int) * (gain as int);
    if p > 32767 {
        32767i16
    } else if p < -32768 {
        -32768i16
    } else {
        p as i16
    }
}

/// What the conditioner puts out for the raw sample `raw` when the DC
/// estimate before it is `acc`.
pub open spec fn conditioned_sample(acc: int, raw: i16, shift: u8, gain: i16) -> i16 {
    let s: i16 = attenuated(raw, shift);
    saturating_product(wrap_i16(s as int - dc_update(acc, s)), gain)
}

/// The DC estimate after the raw samples `raw`, taken in order, starting
/// from `acc`.
pub open spec fn filter_after(acc: int, raw: Seq<i16>, shift: u8) -> int
    decreases raw.len(),
{
    if raw.len() == 0 {
        acc
    } else {
        dc_update(filter_after(acc, raw.drop_last(), shift), attenuated(raw.last(), shift))
    }
}

/// The conditioned form of the raw samples `raw`: sample `i` is conditioned
/// with the DC estimate that the samples before it have left.
pub open spec fn conditioned(acc: int, raw: Seq<i16>, shift: u8, gain: i16) -> Seq<i16> {
    Seq::new(
        raw.len(),
        |i: int| conditioned_sample(filter_after(acc, raw.take(i), shift), raw[i], shift, gain),
    )
}

/// How far apart two values are.
pub open spec fn distance(a: int, b: int) -> nat {
    if a >= b {
        (a - b) as nat
    } else {
        (b - a) as nat
    }
}

/// The DC estimate after `n` samples that all have the value `v`.
pub open spec fn dc_settling(acc: int, v: i16, n: nat) -> int
    decreases n,
{
    if n == 0 {
        acc
    } else {
        dc_update(dc_settling(acc, v, (n - 1) as nat), v)
    }
}

proof fn lemma_shr_nonnegative(s: i16, k: u8)
    by (bit_vector)
    requires
        s >= 0,
        k < 16,
    ensures
        (s >> k) == ((s as u16) >> (k as u16)) as i16,
{
}

proof fn lemma_shr_negative(s: i16, k: u8)
    by (bit_vector)
    requires
        s < 0,
        k < 16,
    ensures
        !s >= 0,
        !s == -1 - s,
        (s >> k) == -1 - ((!s) >> k),
{
}

proof fn lemma_floor_div_of_negative(s: int, d: int)
    requires
        s < 0,
        d > 0,
    ensures
        s / d == -1 - ((-1 - s) / d),
{
    let t: int = -1 - s;
    let q: int = t / d;
    let r: int = t % d;
    vstd::arithmetic::div_mod::lemma_fundamental_div_mod(t, d);
    vstd::arithmetic::div_mod::lemma_mod_bound(t, d);
    assert(s == (-1 - q) * d + (d - 1 - r)) by (nonlinear_arith)
        requires
            t == d * q + r,
            t == -1 - s,
    ;
    lemma_fundamental_div_mod_converse(s, d, -1 - q, d - 1 - r);
}

/// On a 16-bit sample, `>>` by fewer than 16 bits is the floor division by
/// the matching power of two.
proof fn lemma_shr_is_floor_div(s: i16, k: u8)
    requires
        k < 16,
    ensures
        (s >> k) == attenuated(s, k),
{
    lemma_pow2_pos(k as nat);
    let d: int = pow2(k as nat) as int;
    if s >= 0 {
        lemma_shr_nonnegative(s, k);
        lemma_u16_shr_is_div(s as u16, k as u16);
        vstd::arithmetic::div_mod::lemma_div_nonincreasing(s as int, d);
        vstd::arithmetic::div_mod::lemma_div_pos_is_pos(s as int, d);
    } else {
        lemma_shr_negative(s, k);
        let t: i16 = !s;
        lemma_shr_nonnegative(t, k);
        lemma_u16_shr_is_div(t as u16, k as u16);
        vstd::arithmetic::div_mod::lemma_div_nonincreasing(t as int, d);
        vstd::arithmetic::div_mod::lemma_div_pos_is_pos(t as int, d);
        lemma_floor_div_of_negative(s as int, d);
    }
}

/// Shifts a sample right arithmetically, keeping its sign.
pub fn attenuate(sample: i16, shift: u8) -> (r: i16)
    ensures
        r == attenuated(sample, shift),
{
    if shift >= 15 {
        proof {
            lemma2_to64();
            if shift > 15 {
                lemma_pow2_strictly_increases(15, shift as nat);
            }
            let d: int = pow2(shift as nat) as int;
            if sample < 0 {
                lemma_fundamental_div_mod_converse(sample as int, d, -1, sample as int + d);
            } else {
                lemma_fundamental_div_mod_converse(sample as int, d, 0, sample as int);
            }
        }
        if sample < 0 {
            -1
        } else {
            0
        }
    } else {
        proof {
            lemma_shr_is_floor_div(sample, shift);
        }
        sample >> shift
    }
}

/// Multiplies a sample by the gain; a product outside the signed 16-bit
/// range becomes the nearest end of that range.
pub fn saturating_multiply(sample: i16, gain_boost: i16) -> (r: i16)
    ensures
        r == saturating_product(sample, gain_boost),
        -32768 <= r <= 32767,
{
    assert(-1073741824 <= (sample as int) * (gain_boost as int) <= 1073741824)
        by (nonlinear_arith)
        requires
            -32768 <= sample <= 32767,
            -32768 <= gain_boost <= 32767,
    ;
    let p: i32 = (sample as i32) * (gain_boost as i32);
    if p > 32767 {
        32767
    } else if p < -32768 {
        -32768
    } else {
        p as i16
    }
}

/// The running DC estimate of the conditioner. It starts at zero and never
/// leaves the signed 16-bit range.
pub struct FilterState {
    acc: i32,
}

impl View for FilterState {
    type V = int;

    closed spec fn view(&self) -> int {
        self.acc as int
    }
}

impl FilterState {
    #[verifier::type_invariant]
    spec fn within_sample_range(self) -> bool {
        -32768 <= self.acc <= 32767
    }

    /// A filter that has seen no sample yet.
    pub fn new() -> (state: Self)
        ensures
            state@ == 0,
    {
        FilterState { acc: 0 }
    }

    /// The current DC estimate.
    pub fn estimate(&self) -> (acc: i32)
        ensures
            acc == self@,
            -32768 <= acc <= 32767,
    {
        proof {
            use_type_invariant(self);
        }
        self.acc
    }

    /// Conditions one raw sample and moves the DC estimate on.
    pub fn condition(&mut self, raw: i16, gain_shift: u8, gain_boost: i16) -> (out: i16)
        ensures
            final(self)@ == dc_update(old(self)@, attenuated(raw, gain_shift)),
            out == conditioned_sample(old(self)@, raw, gain_shift, gain_boost),
    {
        proof {
            use_type_invariant(&*self);
        }
        let s: i16 = attenuate(raw, gain_shift);
        self.acc = self.acc + (s as i32 - self.acc) / 256;
        let centred: i16 = s.wrapping_sub(self.acc as i16);
        saturating_multiply(centred, gain_boost)
    }
}

/// Conditions a frame in place: every complete pair of bytes is replaced by
/// the bytes of its conditioned sample, in index order; an odd last byte is
/// left as it is. The DC estimate goes through all samples of the frame.
pub fn condition_frame(buf: &mut [u8], state: &mut FilterState, gain_shift: u8, gain_boost: i16)
    ensures
        final(buf)@ == bytes_of(
            conditioned(old(state)@, samples_of(old(buf)@), gain_shift, gain_boost),
        ) + unpaired_tail(old(buf)@),
        final(state)@ == filter_after(old(state)@, samples_of(old(buf)@), gain_shift),
{
    let ghost raw = samples_of(old(buf)@);
    let ghost acc0 = old(state)@;
    let ghost out = conditioned(acc0, raw, gain_shift, gain_boost);
    let len: usize = buf.len();
    let n: usize = len / 2;
    let mut i: usize = 0;
    while i < n
        invariant
            i <= n,
            n == len / 2,
            buf@.len() == len,
            old(buf)@.len() == len,
            raw == samples_of(old(buf)@),
            out == conditioned(acc0, raw, gain_shift, gain_boost),
            state@ == filter_after(acc0, raw.take(i as int), gain_shift),
            forall|j: int| 0 <= j < 2 * i ==> buf@[j] == #[trigger] bytes_of(out)[j],
            forall|j: int| 2 * i <= j < buf@.len() ==> buf@[j] == #[trigger] old(buf)@[j],
        decreases n - i,
    {
        let lo: u8 = buf[2 * i];
        let hi: u8 = buf[2 * i + 1];
        let raw_sample: i16 = decode_sample(lo, hi);
        assert(raw_sample == raw[i as int]);
        let done: i16 = state.condition(raw_sample, gain_shift, gain_boost);
        assert(done == out[i as int]);
        let pair: (u8, u8) = encode_sample(done);
        buf[2 * i] = pair.0;
        buf[2 * i + 1] = pair.1;
        proof {
            assert(raw.take(i as int + 1).drop_last() =~= raw.take(i as int));
            assert(raw.take(i as int + 1).last() == raw[i as int]);
            assert(bytes_of(out)[2 * i as int] == sample_low_byte(out[i as int]));
            assert(bytes_of(out)[2 * i as int + 1] == sample_high_byte(out[i as int]));
        }
        i = i + 1;
    }
    proof {
        assert(raw.take(n as int) =~= raw);
        assert(buf@ =~= bytes_of(out) + unpaired_tail(old(buf)@));
    }
}

/// One sample moves the DC estimate toward that sample and never past it.
/// The step is at least 1 while the two are 256 or more apart, and 0 once
/// they are closer than that: what is left is the error of the truncating
/// division.
pub proof fn lemma_dc_update_approaches_sample(acc: int, s: i16)
    ensures
        acc <= s ==> acc <= dc_update(acc, s) <= s,
        acc >= s ==> s <= dc_update(acc, s) <= acc,
        distance(s as int, acc) >= 256 ==> distance(s as int, dc_update(acc, s)) < distance(
            s as int,
            acc,
        ),
        distance(s as int, acc) < 256 ==> dc_update(acc, s) == acc,
{
}

/// Under a constant input `v` the DC estimate converges monotonically toward
/// `v`: it stays on its side of `v`, its distance from `v` never grows from
/// one sample to the next, and after `n` samples that distance is at most
/// 255 or has shrunk by at least `n`.
pub proof fn lemma_dc_converges_on_constant_input(acc: int, v: i16, n: nat)
    ensures
        acc <= v ==> acc <= dc_settling(acc, v, n) <= v,
        acc >= v ==> v <= dc_settling(acc, v, n) <= acc,
        distance(v as int, dc_settling(acc, v, n + 1)) <= distance(
            v as int,
            dc_settling(acc, v, n),
        ),
        distance(v as int, dc_settling(acc, v, n)) <= distance(v as int, acc),
        distance(v as int, dc_settling(acc, v, n)) <= 255 || distance(
            v as int,
            dc_settling(acc, v, n),
        ) + n <= distance(v as int, acc),
    decreases n,
{
    if n > 0 {
        lemma_dc_converges_on_constant_input(acc, v, (n - 1) as nat);
        lemma_dc_update_approaches_sample(dc_settling(acc, v, (n - 1) as nat), v);
    }
    lemma_dc_update_approaches_sample(dc_settling(acc, v, n), v);
}

/// A frame whose raw samples all equal `v` leaves the DC estimate where `n`
/// updates with the attenuated `v` leave it.
pub proof fn lemma_filter_after_constant_frame(acc: int, raw: Seq<i16>, v: i16, shift: u8)
    requires
        forall|i: int| 0 <= i < raw.len() ==> raw[i] == v,
    ensures
        filter_after(acc, raw, shift) == dc_settling(acc, attenuated(v, shift), raw.len()),
    decreases raw.len(),
{
    if raw.len() > 0 {
        lemma_filter_after_constant_frame(acc, raw.drop_last(), v, shift);
    }
}

/// Under a constant raw input `v`, with a DC estimate that starts inside the
/// sample range, the conditioned output converges toward zero: from sample
/// number `distance(attenuated v, acc)` on, the output is the gain times a
/// residue of magnitude 255 at most, the error of the truncating division.
pub proof fn lemma_output_settles_on_constant_input(
    acc: int,
    raw: Seq<i16>,
    v: i16,
    shift: u8,
    gain: i16,
    i: int,
)
    requires
        -32768 <= acc <= 32767,
        forall|j: int| 0 <= j < raw.len() ==> raw[j] == v,
        0 <= i < raw.len(),
        distance(attenuated(v, shift) as int, acc) <= i,
    ensures
        ({
            let residue: int = attenuated(v, shift) as int - dc_settling(
                acc,
                attenuated(v, shift),
                (i + 1) as nat,
            );
            &&& -255 <= residue <= 255
            &&& conditioned(acc, raw, shift, gain)[i] == saturating_product(residue as i16, gain)
        }),
{
    let s: i16 = attenuated(v, shift);
    lemma_filter_after_constant_frame(acc, raw.take(i), v, shift);
    lemma_dc_converges_on_constant_input(acc, s, i as nat);
    lemma_dc_converges_on_constant_input(acc, s, (i + 1) as nat);
}

/// Conditioning does not depend on which filter does it: two filters with
/// the same DC estimate, such as two new ones, turn the same raw frame into
/// the same output and end with the same estimate.
pub proof fn lemma_conditioning_is_repeatable(
    first: FilterState,
    second: FilterState,
    raw: Seq<u8>,
    shift: u8,
    gain: i16,
)
    requires
        first@ == second@,
    ensures
        conditioned(first@, samples_of(raw), shift, gain) == conditioned(
            second@,
            samples_of(raw),
            shift,
            gain,
        ),
        filter_after(first@, samples_of(raw), shift) == filter_after(
            second@,
            samples_of(raw),
            shift,
        ),
{
}

/// The DC estimate is carried across frames: conditioning two sample runs
/// one after the other gives what conditioning their concatenation gives.
pub proof fn lemma_conditioning_is_sequential(
    acc: int,
    a: Seq<i16>,
    b: Seq<i16>,
    shift: u8,
    gain: i16,
)
    ensures
        filter_after(acc, a + b, shift) == filter_after(filter_after(acc, a, shift), b, shift),
        conditioned(acc, a + b, shift, gain) == conditioned(acc, a, shift, gain) + conditioned(
            filter_after(acc, a, shift),
            b,
            shift,
            gain,
        ),
    decreases b.len(),
{
    let mid: int = filter_after(acc, a, shift);
    lemma_filter_after_concat(acc, a, b, shift);
    let whole = conditioned(acc, a + b, shift, gain);
    let parts = conditioned(acc, a, shift, gain) + conditioned(mid, b, shift, gain);
    assert forall|i: int| 0 <= i < whole.len() implies whole[i] == parts[i] by {
        if i < a.len() {
            assert((a + b).take(i) =~= a.take(i));
        } else {
            assert((a + b).take(i) =~= a + b.take(i - a.len()));
            lemma_filter_after_concat(acc, a, b.take(i - a.len()), shift);
        }
    }
    assert(whole =~= parts);
}

proof fn lemma_filter_after_concat(acc: int, a: Seq<i16>, b: Seq<i16>, shift: u8)
    ensures
        filter_after(acc, a + b, shift) == filter_after(filter_after(acc, a, shift), b, shift),
    decreases b.len(),
{
    if b.len() == 0 {
        assert(a + b =~= a);
    } else {
        assert((a + b).drop_last() =~= a + b.drop_last());
        lemma_filter_after_concat(acc, a, b.drop_last(), shift);
    }
}

} // verus!
