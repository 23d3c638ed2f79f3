//! Frame statistics and the signal-quality verdict.
//!
//! The statistics are running sums over the conditioned samples that have
//! been observed since the last reset, frame by frame. Within a frame the
//! samples are split by the parity of their index, index 0 being even: a
//! frame whose channels were interleaved wrongly shows as one quiet and one
//! loud parity. The verdict is read from the sums and is for diagnostics
//! only.

use crate::sample::{decode_sample, samples_of};
use vstd::prelude::*;

verus! {

/// The sign of a sample. Zero has none.
#[derive(Clone, Copy, Debug, PartialEq, Eq, Structural)]
pub enum Polarity {
    Neutral,
    Negative,
    Positive,
}

/// What a stretch of signal looks like.
#[derive(Clone, Copy, Debug, PartialEq, Eq, Structural)]
pub enum Verdict {
    Silence,
    ChannelMismatch,
    HighZeroCross,
    SpeechLike,
}

/// The limits that the verdict is read against.
#[derive(Clone, Copy, Debug, PartialEq, Eq, Structural)]
pub struct Thresholds {
    /// An average magnitude below this is silence.
    pub silence_average: u64,
    /// The even-indexed average must be below this for a channel mismatch.
    pub mismatch_quiet_average: u64,
    /// The odd-indexed average must be above this for a channel mismatch.
    pub mismatch_loud_average: u64,
    /// Numerator of the zero-crossing ratio above which the signal is noise.
    pub zero_cross_numerator: u32,
    /// Denominator of that ratio.
    pub zero_cross_denominator: u32,
}

/// The running sums over the samples observed since the last reset. Each sum
/// stops at the largest value of its type.
#[derive(Clone, Copy, Debug, PartialEq, Eq, Structural)]
pub struct FrameStats {
    /// Sum of the magnitudes of all samples.
    pub total_abs: u64,
    /// Sum of the magnitudes of the samples at even indices of their frame.
    pub even_abs: u64,
    /// Sum of the magnitudes of the samples at odd indices of their frame.
    pub odd_abs: u64,
    /// Number of samples at even indices.
    pub even_count: u64,
    /// Number of samples at odd indices.
    pub odd_count: u64,
    /// Number of sign changes between consecutive non-zero samples.
    pub zero_crossings: u32,
    /// Sign of the last non-zero sample.
    pub last_polarity: Polarity,
}

/// The numbers handed to the diagnostics sink with a verdict.
#[derive(Clone, Copy, Debug, PartialEq, Eq, Structural)]
pub struct Diagnostics {
    pub verdict: Verdict,
    pub average: u64,
    pub even_average: u64,
    pub odd_average: u64,
    pub zero_crossings: u32,
    pub samples: u64,
}

/// The absolute value of a sample; that of -32768 is 32768.
pub open spec fn magnitude(s: i16) -> nat {
    if s < 0 {
        (-(s as int)) as nat
    } else {
        s as nat
    }
}

/// The sign of a sample.
pub open spec fn polarity(s: i16) -> Polarity {
    if s > 0 {
        Polarity::Positive
    } else if s < 0 {
        Polarity::Negative
    } else {
        Polarity::Neutral
    }
}

/// `x`, or the largest `u64` where `x` is above it.
pub open spec fn saturated_u64(x: int) -> u64 {
    if x > u64::MAX {
        u64::MAX
    } else {
        x as u64
    }
}

/// `x`, or the largest `u32` where `x` is above it.
pub open spec fn saturated_u32(x: int) -> u32 {
    if x > u32::MAX {
        u32::MAX
    } else {
        x as u32
    }
}

/// Sum of the magnitudes of all samples of `s`.
pub open spec fn sum_magnitudes(s: Seq<i16>) -> nat
    decreases s.len(),
{
    if s.len() == 0 {
        0
    } else {
        sum_magnitudes(s.drop_last()) + magnitude(s.last())
    }
}

/// Sum of the magnitudes of the samples of `s` whose index has the given
/// parity (0 for even, 1 for odd).
pub open spec fn sum_magnitudes_at(s: Seq<i16>, parity: int) -> nat
    decreases s.len(),
{
    if s.len() == 0 {
        0
    } else if (s.len() - 1) % 2 == parity {
        sum_magnitudes_at(s.drop_last(), parity) + magnitude(s.last())
    } else {
        sum_magnitudes_at(s.drop_last(), parity)
    }
}

/// How many of the indices below `n` have the given parity.
pub open spec fn count_at(n: nat, parity: int) -> nat {
    if parity == 0 {
        (n + 1) / 2
    } else {
        n / 2
    }
}

/// The sign of the last non-zero sample of `s`, or `before` where `s` has
/// none.
pub open spec fn polarity_after(before: Polarity, s: Seq<i16>) -> Polarity
    decreases s.len(),
{
    if s.len() == 0 {
        before
    } else if s.last() != 0 {
        polarity(s.last())
    } else {
        polarity_after(before, s.drop_last())
    }
}

/// Whether a sample changes the sign that the non-zero samples before it
/// have left.
pub open spec fn crosses_zero(before: Polarity, s: i16) -> bool {
    s != 0 && before != Polarity::Neutral && polarity(s) != before
}

/// How often the sign changes between consecutive non-zero samples of `s`,
/// `before` being the sign of the last non-zero sample ahead of `s`. A zero
/// sample neither counts nor interrupts.
pub open spec fn sign_changes(before: Polarity, s: Seq<i16>) -> nat
    decreases s.len(),
{
    if s.len() == 0 {
        0
    } else if crosses_zero(polarity_after(before, s.drop_last()), s.last()) {
        sign_changes(before, s.drop_last()) + 1
    } else {
        sign_changes(before, s.drop_last())
    }
}

impl Thresholds {
    /// The limits in use: silence below 50, a channel mismatch with the even
    /// average below 50 and the odd one above 200, noise above a
    /// zero-crossing ratio of 6 in 10.
    pub open spec fn standard_limits() -> Thresholds {
        Thresholds {
            silence_average: 50,
            mismatch_quiet_average: 50,
            mismatch_loud_average: 200,
            zero_cross_numerator: 6,
            zero_cross_denominator: 10,
        }
    }

    /// The limits in use.
    pub fn standard() -> (t: Thresholds)
        ensures
            t == Thresholds::standard_limits(),
    {
        Thresholds {
            silence_average: 50,
            mismatch_quiet_average: 50,
            mismatch_loud_average: 200,
            zero_cross_numerator: 6,
            zero_cross_denominator: 10,
        }
    }
}

impl Verdict {
    /// The text of a verdict.
    pub open spec fn label_text(self) -> Seq<char> {
        match self {
            Verdict::Silence => "silence"@,
            Verdict::ChannelMismatch => "channel-mismatch (chipmunk?)"@,
            Verdict::HighZeroCross => "high zero-cross (noise?)"@,
            Verdict::SpeechLike => "speech-like"@,
        }
    }

    /// The text under which a verdict is reported.
    pub fn label(&self) -> (text: &'static str)
        ensures
            text@ == self.label_text(),
    {
        match self {
            Verdict::Silence => "silence",
            Verdict::ChannelMismatch => "channel-mismatch (chipmunk?)",
            Verdict::HighZeroCross => "high zero-cross (noise?)",
            Verdict::SpeechLike => "speech-like",
        }
    }
}

impl FrameStats {
    /// The statistics of no samples at all.
    pub open spec fn empty() -> FrameStats {
        FrameStats {
            total_abs: 0,
            even_abs: 0,
            odd_abs: 0,
            even_count: 0,
            odd_count: 0,
            zero_crossings: 0,
            last_polarity: Polarity::Neutral,
        }
    }

    /// The statistics after one more sample, at an even or an odd index.
    pub open spec fn observing(self, sample: i16, even: bool) -> FrameStats {
        FrameStats {
            total_abs: saturated_u64(self.total_abs + magnitude(sample)),
            even_abs: if even {
                saturated_u64(self.even_abs + magnitude(sample))
            } else {
                self.even_abs
            },
            odd_abs: if even {
                self.odd_abs
            } else {
                saturated_u64(self.odd_abs + magnitude(sample))
            },
            even_count: if even {
                saturated_u64(self.even_count + 1)
            } else {
                self.even_count
            },
            odd_count: if even {
                self.odd_count
            } else {
                saturated_u64(self.odd_count + 1)
            },
            zero_crossings: if crosses_zero(self.last_polarity, sample) {
                saturated_u32(self.zero_crossings + 1)
            } else {
                self.zero_crossings
            },
            last_polarity: if sample != 0 {
                polarity(sample)
            } else {
                self.last_polarity
            },
        }
    }

    /// The statistics after one more frame with the samples `s`.
    pub open spec fn absorbing(self, s: Seq<i16>) -> FrameStats {
        FrameStats {
            total_abs: saturated_u64(self.total_abs + sum_magnitudes(s)),
            even_abs: saturated_u64(self.even_abs + sum_magnitudes_at(s, 0)),
            odd_abs: saturated_u64(self.odd_abs + sum_magnitudes_at(s, 1)),
            even_count: saturated_u64(self.even_count + count_at(s.len(), 0)),
            odd_count: saturated_u64(self.odd_count + count_at(s.len(), 1)),
            zero_crossings: saturated_u32(
                self.zero_crossings + sign_changes(self.last_polarity, s),
            ),
            last_polarity: polarity_after(self.last_polarity, s),
        }
    }

    /// The number of samples behind the sums.
    pub open spec fn sample_count(self) -> nat {
        (self.even_count + self.odd_count) as nat
    }

    /// What the averages are taken over: the number of samples, and 1 where
    /// there are none.
    pub open spec fn divisor(self) -> nat {
        if self.sample_count() > 0 {
            self.sample_count()
        } else {
            1
        }
    }

    /// The average magnitude of all samples.
    pub open spec fn average(self) -> nat {
        self.total_abs as nat / self.divisor()
    }

    /// The average magnitude at even indices, 0 where there are none.
    pub open spec fn even_average(self) -> nat {
        if self.even_count > 0 {
            self.even_abs as nat / (self.even_count as nat)
        } else {
            0
        }
    }

    /// The average magnitude at odd indices, 0 where there are none.
    pub open spec fn odd_average(self) -> nat {
        if self.odd_count > 0 {
            self.odd_abs as nat / (self.odd_count as nat)
        } else {
            0
        }
    }

    /// Whether the zero crossings per sample exceed the ratio of the limits.
    pub open spec fn crosses_often(self, limits: Thresholds) -> bool {
        self.zero_crossings * limits.zero_cross_denominator > limits.zero_cross_numerator
            * self.divisor()
    }

    /// The verdict on these statistics: the first rule that applies, in the
    /// order silence, channel mismatch, noise; else speech.
    pub open spec fn verdict(self, limits: Thresholds) -> Verdict {
        if self.average() < limits.silence_average {
            Verdict::Silence
        } else if self.even_average() < limits.mismatch_quiet_average && self.odd_average()
            > limits.mismatch_loud_average {
            Verdict::ChannelMismatch
        } else if self.crosses_often(limits) {
            Verdict::HighZeroCross
        } else {
            Verdict::SpeechLike
        }
    }

    /// The verdict with the numbers behind it.
    pub open spec fn report(self, limits: Thresholds) -> Diagnostics {
        Diagnostics {
            verdict: self.verdict(limits),
            average: self.average() as u64,
            even_average: self.even_average() as u64,
            odd_average: self.odd_average() as u64,
            zero_crossings: self.zero_crossings,
            samples: saturated_u64(self.sample_count() as int),
        }
    }

    /// Statistics that have seen no sample.
    pub fn new() -> (stats: FrameStats)
        ensures
            stats == FrameStats::empty(),
    {
        FrameStats {
            total_abs: 0,
            even_abs: 0,
            odd_abs: 0,
            even_count: 0,
            odd_count: 0,
            zero_crossings: 0,
            last_polarity: Polarity::Neutral,
        }
    }

    /// Forgets all samples.
    pub fn reset(&mut self)
        ensures
            *final(self) == FrameStats::empty(),
    {
        *self = FrameStats::new();
    }

    /// Takes in one sample that stands at `index` in its frame.
    pub fn observe(&mut self, sample: i16, index: usize)
        ensures
            *final(self) == old(self).observing(sample, index % 2 == 0),
    {
        let abs: u64 = magnitude_of(sample);
        self.total_abs = self.total_abs.saturating_add(abs);
        if index % 2 == 0 {
            self.even_abs = self.even_abs.saturating_add(abs);
            self.even_count = self.even_count.saturating_add(1);
        } else {
            self.odd_abs = self.odd_abs.saturating_add(abs);
            self.odd_count = self.odd_count.saturating_add(1);
        }
        let sign: Polarity = polarity_of(sample);
        if sign != Polarity::Neutral {
            if self.last_polarity != Polarity::Neutral && sign != self.last_polarity {
                self.zero_crossings = self.zero_crossings.saturating_add(1);
            }
            self.last_polarity = sign;
        }
    }

    /// Takes in the samples of one frame, in one pass. An odd last byte is
    /// not looked at.
    pub fn observe_frame(&mut self, frame: &[u8])
        ensures
            *final(self) == old(self).absorbing(samples_of(frame@)),
    {
        let ghost samples = samples_of(frame@);
        let len: usize = frame.len();
        let n: usize = len / 2;
        let mut i: usize = 0;
        proof {
            lemma_absorbing_nothing(*self, samples.take(0));
        }
        while i < n
            invariant
                i <= n,
                n == len / 2,
                len == frame@.len(),
                samples == samples_of(frame@),
                *self == old(self).absorbing(samples.take(i as int)),
            decreases n - i,
        {
            let sample: i16 = decode_sample(frame[2 * i], frame[2 * i + 1]);
            proof {
                let next = samples.take(i as int + 1);
                assert(next.drop_last() =~= samples.take(i as int));
                assert(next.last() == sample);
                lemma_absorbing_one_more(*old(self), next);
            }
            self.observe(sample, i);
            i = i + 1;
        }
        proof {
            assert(samples.take(n as int) =~= samples);
        }
    }

    /// Reads the verdict from the sums.
    pub fn classify(&self, limits: &Thresholds) -> (v: Verdict)
        ensures
            v == self.verdict(*limits),
    {
        self.diagnostics(limits).verdict
    }

    /// Reads the verdict and the averages behind it from the sums.
    pub fn diagnostics(&self, limits: &Thresholds) -> (d: Diagnostics)
        ensures
            d == self.report(*limits),
    {
        let count: u128 = self.even_count as u128 + self.odd_count as u128;
        let divisor: u128 = if count > 0 {
            count
        } else {
            1
        };
        let average: u64 = (self.total_abs as u128 / divisor) as u64;
        let even_average: u64 = if self.even_count > 0 {
            self.even_abs / self.even_count
        } else {
            0
        };
        let odd_average: u64 = if self.odd_count > 0 {
            self.odd_abs / self.odd_count
        } else {
            0
        };
        assert(self.zero_crossings * limits.zero_cross_denominator <= 0xffff_ffff
            * 0xffff_ffff) by (nonlinear_arith);
        assert(limits.zero_cross_numerator * divisor <= 0xffff_ffff
            * 0x1_ffff_ffff_ffff_fffe) by (nonlinear_arith)
            requires
                divisor <= 0x1_ffff_ffff_ffff_fffe,
        ;
        let crossings_scaled: u128 = (self.zero_crossings as u128) * (
        limits.zero_cross_denominator as u128);
        let samples_scaled: u128 = (limits.zero_cross_numerator as u128) * divisor;
        let verdict: Verdict = if average < limits.silence_average {
            Verdict::Silence
        } else if even_average < limits.mismatch_quiet_average && odd_average
            > limits.mismatch_loud_average {
            Verdict::ChannelMismatch
        } else if crossings_scaled > samples_scaled {
            Verdict::HighZeroCross
        } else {
            Verdict::SpeechLike
        };
        proof {
            vstd::arithmetic::div_mod::lemma_div_nonincreasing(
                self.total_abs as int,
                divisor as int,
            );
            vstd::arithmetic::div_mod::lemma_div_pos_is_pos(self.total_abs as int, divisor as int);
        }
        Diagnostics {
            verdict,
            average,
            even_average,
            odd_average,
            zero_crossings: self.zero_crossings,
            samples: if count > 0xffff_ffff_ffff_ffff {
                0xffff_ffff_ffff_ffff
            } else {
                count as u64
            },
        }
    }
}

/// The absolute value of a sample as a 64-bit number; that of -32768 is
/// 32768.
pub fn magnitude_of(sample: i16) -> (m: u64)
    ensures
        m == magnitude(sample),
{
    if sample < 0 {
        (-(sample as i32)) as u64
    } else {
        sample as u64
    }
}

/// The sign of a sample.
pub fn polarity_of(sample: i16) -> (p: Polarity)
    ensures
        p == polarity(sample),
{
    if sample > 0 {
        Polarity::Positive
    } else if sample < 0 {
        Polarity::Negative
    } else {
        Polarity::Neutral
    }
}

proof fn lemma_absorbing_nothing(stats: FrameStats, s: Seq<i16>)
    requires
        s.len() == 0,
    ensures
        stats.absorbing(s) == stats,
{
}

/// Absorbing a frame is observing its samples one by one.
proof fn lemma_absorbing_one_more(stats: FrameStats, s: Seq<i16>)
    requires
        s.len() > 0,
    ensures
        stats.absorbing(s) == stats.absorbing(s.drop_last()).observing(
            s.last(),
            (s.len() - 1) % 2 == 0,
        ),
{
}

/// The sum over all samples is the sum over the even indices plus the sum
/// over the odd ones.
pub proof fn lemma_sum_splits_by_parity(s: Seq<i16>)
    ensures
        sum_magnitudes(s) == sum_magnitudes_at(s, 0) + sum_magnitudes_at(s, 1),
    decreases s.len(),
{
    if s.len() > 0 {
        lemma_sum_splits_by_parity(s.drop_last());
    }
}

/// Samples that are all zero add nothing to any sum and change no sign.
pub proof fn lemma_zero_samples_add_nothing(before: Polarity, s: Seq<i16>)
    requires
        forall|i: int| 0 <= i < s.len() ==> s[i] == 0,
    ensures
        sum_magnitudes(s) == 0,
        sum_magnitudes_at(s, 0) == 0,
        sum_magnitudes_at(s, 1) == 0,
        sign_changes(before, s) == 0,
        polarity_after(before, s) == before,
    decreases s.len(),
{
    if s.len() > 0 {
        lemma_zero_samples_add_nothing(before, s.drop_last());
    }
}

/// A stretch of frames whose samples are all zero is silence, whatever the
/// other limits are, as long as the silence limit is above zero.
pub proof fn lemma_all_zero_is_silence(s: Seq<i16>, limits: Thresholds)
    requires
        forall|i: int| 0 <= i < s.len() ==> s[i] == 0,
        limits.silence_average > 0,
    ensures
        FrameStats::empty().absorbing(s).verdict(limits) == Verdict::Silence,
{
    lemma_zero_samples_add_nothing(Polarity::Neutral, s);
    let stats = FrameStats::empty().absorbing(s);
    assert(stats.total_abs == 0);
    assert(0nat / stats.divisor() == 0) by (nonlinear_arith)
        requires
            stats.divisor() > 0,
    ;
}

/// With the standard limits, one frame whose even-indexed samples average
/// below 50 and whose odd-indexed samples average above 200 is a channel
/// mismatch: its overall average cannot be low enough for silence, and the
/// rule comes before those for noise and speech.
pub proof fn lemma_quiet_even_loud_odd_is_mismatch(s: Seq<i16>)
    requires
        FrameStats::empty().absorbing(s).even_average() < 50,
        FrameStats::empty().absorbing(s).odd_average() > 200,
    ensures
        FrameStats::empty().absorbing(s).verdict(Thresholds::standard_limits())
            == Verdict::ChannelMismatch,
{
    let stats = FrameStats::empty().absorbing(s);
    let odd_count: int = stats.odd_count as int;
    let odd_abs: int = stats.odd_abs as int;
    let total: int = stats.total_abs as int;
    let divisor: int = stats.divisor() as int;
    lemma_sum_splits_by_parity(s);
    assert(odd_count > 0);
    assert(odd_abs >= 201 * odd_count) by (nonlinear_arith)
        requires
            odd_count > 0,
            odd_abs / odd_count >= 201,
    ;
    assert(odd_count < u64::MAX);
    assert(divisor <= 2 * odd_count + 1);
    assert(total >= odd_abs);
    assert(total / divisor >= 50) by (nonlinear_arith)
        requires
            divisor > 0,
            total >= 50 * divisor,
    ;
}

} // verus!
