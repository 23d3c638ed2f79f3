//! The pipeline loop, one decision at a time.
//!
//! The loop itself runs outside, for as long as the device is powered: it
//! asks the source what is available, pulls a chunk, writes to the sink and
//! toggles the liveness indicator. What happens between those steps is
//! decided here, and all state that outlives a cycle is owned by
//! [`Pipeline`]: the DC estimate, the statistics, the warm-up gate and the
//! counters. No outcome ends the loop; failures are counted and the loop
//! goes back to polling.
//!
//! A frame is the region of the caller's buffer that the last pull has
//! filled: a byte slice of little-endian 16-bit samples. It is conditioned
//! in place and is then what goes to the sink.

use crate::conditioner::{condition_frame, conditioned, filter_after, FilterState};
use crate::delivery::{wrapping_next, Counters, SendState, WarmupGate};
use crate::sample::{bytes_of, samples_of, unpaired_tail};
use crate::stats::{Diagnostics, FrameStats, Thresholds};
use vstd::prelude::*;

verus! {

/// The liveness indicator is toggled every this many frames.
pub const LIVENESS_INTERVAL: u32 = 100;

/// The options of a pipeline. They are fixed when the pipeline is made.
#[derive(Clone, Copy, Debug, PartialEq, Eq, Structural)]
pub struct Config {
    /// Samples per second.
    pub sample_rate: u32,
    /// Samples in a full frame; a frame buffer holds twice as many bytes.
    pub samples_per_frame: usize,
    /// Bits by which every raw sample is shifted right before filtering.
    pub gain_shift: u8,
    /// Factor by which every filtered sample is multiplied, saturating.
    pub gain_boost: i16,
    /// Frames at the start that are processed but not sent.
    pub warmup_frame_count: u32,
    /// Frames between two diagnostic reports; 0 for no reports at all.
    pub diag_interval: u32,
    /// Drops since the last report from which on a warning is raised.
    pub drop_warn_threshold: u32,
    /// Refusals of one byte after which the sink is given up for a frame.
    pub spin_budget: u32,
}

/// What to do after the source has been asked what is available.
#[derive(Clone, Copy, Debug, PartialEq, Eq, Structural)]
pub enum PollStep {
    /// Ask again.
    Repoll,
    /// Pull this many bytes into the frame buffer.
    Pull { len: usize },
}

/// What to do after a pull from the source.
#[derive(Clone, Copy, Debug, PartialEq, Eq, Structural)]
pub enum PullStep {
    /// Ask the source again.
    Repoll,
    /// Process the first `len` bytes of the frame buffer as a frame.
    Process { len: usize },
}

/// What processing a frame has come to.
#[derive(Clone, Copy, Debug, PartialEq, Eq)]
pub struct FrameOutcome {
    /// The verdict on the interval that ends with this frame, if one ends.
    pub diagnostics: Option<Diagnostics>,
    /// Whether the frame goes to the sink; not so during warm-up.
    pub deliver: bool,
}

/// The periodic summary of the counters.
#[derive(Clone, Copy, Debug, PartialEq, Eq)]
pub struct Summary {
    pub frames_processed: u32,
    pub errors: u32,
    pub dropped_frames: u32,
    /// The number of drops since the last summary, where a warning is due.
    pub drop_warning: Option<u32>,
}

/// What is to be done at the end of a cycle.
#[derive(Clone, Copy, Debug, PartialEq, Eq)]
pub struct FrameEnd {
    /// Whether the liveness indicator is to be toggled.
    pub toggle_liveness: bool,
    /// The summary for the diagnostics sink, where one is due.
    pub summary: Option<Summary>,
}

/// The state of the pipeline between two cycles.
pub struct Pipeline {
    config: Config,
    limits: Thresholds,
    filter: FilterState,
    stats: FrameStats,
    counters: Counters,
    gate: WarmupGate,
    since_diagnostics: u32,
}

/// The number of bytes to pull when `available` are there and the frame
/// buffer holds `capacity`: the smaller of the two.
pub open spec fn chunk_len(available: usize, capacity: usize) -> usize {
    if available < capacity {
        available
    } else {
        capacity
    }
}

/// The number of warm-up frames that covers about two seconds of signal
/// and a margin of 32 frames: where it exists and fits.
pub open spec fn warmup_frames_for(sample_rate: u32, samples_per_frame: usize) -> Option<u32> {
    if samples_per_frame == 0 || (sample_rate as int / samples_per_frame as int) * 2 + 32
        > u32::MAX {
        None
    } else {
        Some(((sample_rate as int / samples_per_frame as int) * 2 + 32) as u32)
    }
}

impl Config {
    /// The options that the device runs with.
    pub open spec fn standard_values() -> Config {
        Config {
            sample_rate: 16_000,
            samples_per_frame: 512,
            gain_shift: 0,
            gain_boost: 40,
            warmup_frame_count: 94,
            diag_interval: 500,
            drop_warn_threshold: 1,
            spin_budget: 10_000,
        }
    }

    /// The size of the frame buffer in bytes, two per sample, where it fits.
    pub open spec fn capacity(self) -> Option<usize> {
        if 2 * self.samples_per_frame <= usize::MAX {
            Some((2 * self.samples_per_frame) as usize)
        } else {
            None
        }
    }

    /// The options that the device runs with: 16 kHz, frames of 512
    /// samples, no attenuation, a gain of 40, the warm-up that
    /// [`warmup_frames`](Config::warmup_frames) gives for these, a report
    /// every 500 frames, a warning from one drop on and 10000 spins.
    pub fn standard() -> (config: Config)
        ensures
            config == Config::standard_values(),
            Some(config.warmup_frame_count) == warmup_frames_for(
                config.sample_rate,
                config.samples_per_frame,
            ),
    {
        Config {
            sample_rate: 16_000,
            samples_per_frame: 512,
            gain_shift: 0,
            gain_boost: 40,
            warmup_frame_count: 94,
            diag_interval: 500,
            drop_warn_threshold: 1,
            spin_budget: 10_000,
        }
    }

    /// The warm-up for a given rate and frame size: twice the number of
    /// whole frames in one second, plus 32. `None` for frames of no samples
    /// and where the number does not fit.
    pub fn warmup_frames(sample_rate: u32, samples_per_frame: usize) -> (frames: Option<u32>)
        ensures
            frames == warmup_frames_for(sample_rate, samples_per_frame),
    {
        if samples_per_frame == 0 {
            return None;
        }
        let per_second: u64 = (sample_rate as u64) / (samples_per_frame as u64);
        let frames: u64 = per_second * 2 + 32;
        if frames > 0xffff_ffff {
            None
        } else {
            Some(frames as u32)
        }
    }

    /// The size of the frame buffer in bytes. `None` where it does not fit.
    pub fn frame_capacity(&self) -> (bytes: Option<usize>)
        ensures
            bytes == self.capacity(),
    {
        if self.samples_per_frame > usize::MAX / 2 {
            None
        } else {
            Some(self.samples_per_frame * 2)
        }
    }
}

impl Pipeline {
    /// The options of the pipeline.
    pub closed spec fn spec_config(&self) -> Config {
        self.config
    }

    /// The limits that verdicts are read against.
    pub closed spec fn spec_limits(&self) -> Thresholds {
        self.limits
    }

    /// The statistics of the running diagnostic interval.
    pub closed spec fn spec_stats(&self) -> FrameStats {
        self.stats
    }

    /// The counters.
    pub closed spec fn spec_counters(&self) -> Counters {
        self.counters
    }

    /// The warm-up gate.
    pub closed spec fn spec_gate(&self) -> WarmupGate {
        self.gate
    }

    /// The number of frames processed since the last diagnostic report.
    pub closed spec fn spec_since_diagnostics(&self) -> u32 {
        self.since_diagnostics
    }

    /// The DC estimate of the conditioner.
    pub closed spec fn dc_estimate(&self) -> int {
        self.filter@
    }

    /// The statistics with one more conditioned frame in them.
    pub open spec fn absorbed(&self, raw: Seq<u8>) -> FrameStats {
        self.stats().absorbing(
            conditioned(
                self.dc_estimate(),
                samples_of(raw),
                self.config().gain_shift,
                self.config().gain_boost,
            ),
        )
    }

    /// Whether the next frame ends a diagnostic interval.
    pub open spec fn diagnostics_due(&self) -> bool {
        self.config().diag_interval > 0 && wrapping_next(self.since_diagnostics())
            >= self.config().diag_interval
    }

    /// The counters after a cycle: the end of the delivery is settled, if
    /// the frame went to the sink, and the frame is counted. A frame that
    /// the warm-up held back is counted like any other.
    pub open spec fn counted(&self, delivery: Option<SendState>) -> Counters {
        let settled: Counters = match delivery {
            Some(end) => self.counters().settled(end),
            None => self.counters(),
        };
        Counters { frames_processed: wrapping_next(settled.frames_processed), ..settled }
    }

    /// Whether the cycle that ends now is one with a summary.
    pub open spec fn summary_due(&self, delivery: Option<SendState>) -> bool {
        self.config().diag_interval > 0 && self.counted(delivery).frames_processed
            % self.config().diag_interval == 0
    }

    /// A pipeline at its start: the DC estimate at 0, no statistics, all
    /// counters at 0, the whole warm-up ahead.
    pub fn new(config: Config, limits: Thresholds) -> (p: Pipeline)
        ensures
            p.config() == config,
            p.limits() == limits,
            p.dc_estimate() == 0,
            p.stats() == FrameStats::empty(),
            p.counters() == Counters::zero(),
            p.gate() == (WarmupGate { remaining: config.warmup_frame_count }),
            p.since_diagnostics() == 0,
    {
        Pipeline {
            config,
            limits,
            filter: FilterState::new(),
            stats: FrameStats::new(),
            counters: Counters::new(),
            gate: WarmupGate::new(config.warmup_frame_count),
            since_diagnostics: 0,
        }
    }

    /// The options of the pipeline.
    #[verifier::when_used_as_spec(spec_config)]
    pub fn config(&self) -> (config: Config)
        ensures
            config == self.config(),
    {
        self.config
    }

    /// The limits that verdicts are read against.
    #[verifier::when_used_as_spec(spec_limits)]
    pub fn limits(&self) -> (limits: Thresholds)
        ensures
            limits == self.limits(),
    {
        self.limits
    }

    /// The statistics of the running diagnostic interval.
    #[verifier::when_used_as_spec(spec_stats)]
    pub fn stats(&self) -> (stats: FrameStats)
        ensures
            stats == self.stats(),
    {
        self.stats
    }

    /// The counters.
    #[verifier::when_used_as_spec(spec_counters)]
    pub fn counters(&self) -> (counters: Counters)
        ensures
            counters == self.counters(),
    {
        self.counters
    }

    /// The warm-up gate.
    #[verifier::when_used_as_spec(spec_gate)]
    pub fn gate(&self) -> (gate: WarmupGate)
        ensures
            gate == self.gate(),
    {
        self.gate
    }

    /// The number of frames processed since the last diagnostic report.
    #[verifier::when_used_as_spec(spec_since_diagnostics)]
    pub fn since_diagnostics(&self) -> (frames: u32)
        ensures
            frames == self.since_diagnostics(),
    {
        self.since_diagnostics
    }

    /// The DC estimate of the conditioner.
    pub fn filter_estimate(&self) -> (acc: i32)
        ensures
            acc == self.dc_estimate(),
    {
        self.filter.estimate()
    }

    /// Takes the answer of the source to "how much is available": a failure
    /// is counted as an error and polled again; nothing available is polled
    /// again and counts as nothing; else the pull is for what is available,
    /// but never for more than the frame buffer holds.
    pub fn on_available<E>(
        &mut self,
        available: Result<usize, E>,
        frame_capacity: usize,
    ) -> (step: PollStep)
        ensures
            step == (match available {
                Ok(n) => if n == 0 {
                    PollStep::Repoll
                } else {
                    PollStep::Pull { len: chunk_len(n, frame_capacity) }
                },
                Err(_) => PollStep::Repoll,
            }),
            step matches PollStep::Pull { len } ==> len <= frame_capacity,
            final(self).counters() == (if available is Err {
                Counters { errors: wrapping_next(old(self).counters().errors), ..old(self).counters() }
            } else {
                old(self).counters()
            }),
            final(self).config() == old(self).config(),
            final(self).limits() == old(self).limits(),
            final(self).dc_estimate() == old(self).dc_estimate(),
            final(self).stats() == old(self).stats(),
            final(self).gate() == old(self).gate(),
            final(self).since_diagnostics() == old(self).since_diagnostics(),
    {
        match available {
            Ok(n) => {
                if n == 0 {
                    PollStep::Repoll
                } else if n < frame_capacity {
                    PollStep::Pull { len: n }
                } else {
                    PollStep::Pull { len: frame_capacity }
                }
            },
            Err(_) => {
                self.counters.count_error();
                PollStep::Repoll
            },
        }
    }

    /// Takes the result of a pull: a failure is counted as an error and the
    /// source is polled again; a pull of no bytes is polled again and counts
    /// as nothing; else the bytes pulled are the next frame.
    pub fn on_pulled<E>(&mut self, pulled: Result<usize, E>) -> (step: PullStep)
        ensures
            step == (match pulled {
                Ok(n) => if n == 0 {
                    PullStep::Repoll
                } else {
                    PullStep::Process { len: n }
                },
                Err(_) => PullStep::Repoll,
            }),
            final(self).counters() == (if pulled is Err {
                Counters { errors: wrapping_next(old(self).counters().errors), ..old(self).counters() }
            } else {
                old(self).counters()
            }),
            final(self).config() == old(self).config(),
            final(self).limits() == old(self).limits(),
            final(self).dc_estimate() == old(self).dc_estimate(),
            final(self).stats() == old(self).stats(),
            final(self).gate() == old(self).gate(),
            final(self).since_diagnostics() == old(self).since_diagnostics(),
    {
        match pulled {
            Ok(n) => {
                if n == 0 {
                    PullStep::Repoll
                } else {
                    PullStep::Process { len: n }
                }
            },
            Err(_) => {
                self.counters.count_error();
                PullStep::Repoll
            },
        }
    }

    /// Processes one frame: conditions it in place, takes it into the
    /// statistics, closes the diagnostic interval if this frame ends one
    /// (the verdict is read, then the statistics start anew), and takes the
    /// frame to the warm-up gate. The counters are left to
    /// [`finish_frame`](Pipeline::finish_frame).
    pub fn process_frame(&mut self, frame: &mut [u8]) -> (outcome: FrameOutcome)
        ensures
            final(frame)@ == bytes_of(
                conditioned(
                    old(self).dc_estimate(),
                    samples_of(old(frame)@),
                    old(self).config().gain_shift,
                    old(self).config().gain_boost,
                ),
            ) + unpaired_tail(old(frame)@),
            final(self).dc_estimate() == filter_after(
                old(self).dc_estimate(),
                samples_of(old(frame)@),
                old(self).config().gain_shift,
            ),
            outcome.diagnostics == (if old(self).diagnostics_due() {
                Some(old(self).absorbed(old(frame)@).report(old(self).limits()))
            } else {
                None
            }),
            final(self).stats() == (if old(self).diagnostics_due() {
                FrameStats::empty()
            } else {
                old(self).absorbed(old(frame)@)
            }),
            final(self).since_diagnostics() == (if old(self).diagnostics_due() {
                0
            } else {
                wrapping_next(old(self).since_diagnostics())
            }),
            outcome.deliver == old(self).gate().streaming(),
            final(self).gate() == old(self).gate().passed(),
            final(self).counters() == old(self).counters(),
            final(self).config() == old(self).config(),
            final(self).limits() == old(self).limits(),
    {
        let ghost raw = old(frame)@;
        let ghost done = conditioned(
            old(self).dc_estimate(),
            samples_of(raw),
            self.config.gain_shift,
            self.config.gain_boost,
        );
        condition_frame(frame, &mut self.filter, self.config.gain_shift, self.config.gain_boost);
        proof {
            crate::sample::lemma_samples_of_encoded(done, unpaired_tail(raw));
        }
        self.stats.observe_frame(frame);
        self.since_diagnostics = self.since_diagnostics.wrapping_add(1);
        let diagnostics: Option<Diagnostics> = if self.config.diag_interval > 0
            && self.since_diagnostics >= self.config.diag_interval {
            let report: Diagnostics = self.stats.diagnostics(&self.limits);
            self.stats.reset();
            self.since_diagnostics = 0;
            Some(report)
        } else {
            None
        };
        let deliver: bool = self.gate.offer();
        FrameOutcome { diagnostics, deliver }
    }

    /// Ends a cycle. `delivery` is where the delivery of the frame ended,
    /// and `None` for a frame that the warm-up held back. A frame that was not
    /// delivered in full is one drop, a failure of the sink one error as
    /// well. The frame is counted. Every 100 frames the liveness indicator
    /// is to be toggled. Whenever the number of frames is a multiple of the
    /// diagnostic interval a summary is due, with a warning if the drops
    /// since the last summary have reached the threshold; all drops then
    /// count as reported.
    pub fn finish_frame(&mut self, delivery: Option<SendState>) -> (end: FrameEnd)
        ensures
            end.toggle_liveness == (old(self).counted(delivery).frames_processed
                % LIVENESS_INTERVAL == 0),
            end.summary == (if old(self).summary_due(delivery) {
                Some(
                    Summary {
                        frames_processed: old(self).counted(delivery).frames_processed,
                        errors: old(self).counted(delivery).errors,
                        dropped_frames: old(self).counted(delivery).dropped_frames,
                        drop_warning: old(self).counted(delivery).drop_warning(
                            old(self).config().drop_warn_threshold,
                        ),
                    },
                )
            } else {
                None
            }),
            final(self).counters() == (if old(self).summary_due(delivery) {
                Counters {
                    last_reported_dropped: old(self).counted(delivery).dropped_frames,
                    ..old(self).counted(delivery)
                }
            } else {
                old(self).counted(delivery)
            }),
            old(self).counters().consistent() && old(self).counters().dropped_frames < u32::MAX
                ==> final(self).counters().consistent(),
            final(self).config() == old(self).config(),
            final(self).limits() == old(self).limits(),
            final(self).dc_estimate() == old(self).dc_estimate(),
            final(self).stats() == old(self).stats(),
            final(self).gate() == old(self).gate(),
            final(self).since_diagnostics() == old(self).since_diagnostics(),
    {
        match delivery {
            Some(end) => {
                self.counters.settle(end);
            },
            None => {},
        }
        self.counters.count_frame();
        let frames: u32 = self.counters.frames_processed;
        let toggle_liveness: bool = frames % LIVENESS_INTERVAL == 0;
        let summary: Option<Summary> = if self.config.diag_interval > 0 && frames
            % self.config.diag_interval == 0 {
            let errors: u32 = self.counters.errors;
            let dropped_frames: u32 = self.counters.dropped_frames;
            let drop_warning: Option<u32> = self.counters.report_drops(
                self.config.drop_warn_threshold,
            );
            Some(Summary { frames_processed: frames, errors, dropped_frames, drop_warning })
        } else {
            None
        };
        FrameEnd { toggle_liveness, summary }
    }
}

} // verus!
