use xiao_esp32s3_mic::delivery::{Counters, SendState, WarmupGate, WriteOutcome};
use xiao_esp32s3_mic::pipeline::{
    Config, FrameEnd, Pipeline, PollStep, PullStep, Summary, LIVENESS_INTERVAL,
};
use xiao_esp32s3_mic::stats::{FrameStats, Thresholds, Verdict};

fn small_config(warmup: u32, interval: u32) -> Config {
    Config {
        sample_rate: 16_000,
        samples_per_frame: 4,
        gain_shift: 0,
        gain_boost: 1,
        warmup_frame_count: warmup,
        diag_interval: interval,
        drop_warn_threshold: 1,
        spin_budget: 3,
    }
}

fn pcm(samples: &[i16]) -> Vec<u8> {
    let mut bytes = Vec::new();
    for s in samples {
        bytes.extend_from_slice(&s.to_le_bytes());
    }
    bytes
}

fn run_cycle(p: &mut Pipeline, frame: &mut [u8], sink: &mut dyn FnMut(u8) -> WriteOutcome) -> FrameEnd {
    let outcome = p.process_frame(frame);
    let delivery = if outcome.deliver {
        let mut state = SendState::start(frame.len());
        while let Some(i) = state.pending() {
            state = state.advance(sink(frame[i]), frame.len(), p.config().spin_budget);
        }
        Some(state)
    } else {
        None
    };
    p.finish_frame(delivery)
}

#[test]
fn standard_config_values() {
    let c = Config::standard();
    assert_eq!(c.sample_rate, 16_000);
    assert_eq!(c.samples_per_frame, 512);
    assert_eq!(c.gain_shift, 0);
    assert_eq!(c.gain_boost, 40);
    assert_eq!(c.warmup_frame_count, 94);
    assert_eq!(c.diag_interval, 500);
    assert_eq!(c.drop_warn_threshold, 1);
    assert_eq!(c.spin_budget, 10_000);
    assert_eq!(c.frame_capacity(), Some(1024));
    assert_eq!(LIVENESS_INTERVAL, 100);
}

#[test]
fn warmup_frames_formula() {
    assert_eq!(Config::warmup_frames(16_000, 512), Some(94));
    assert_eq!(Config::warmup_frames(16_000, 1024), Some(62));
    assert_eq!(Config::warmup_frames(48_000, 480), Some(232));
    assert_eq!(Config::warmup_frames(100, 512), Some(32));
    assert_eq!(Config::warmup_frames(16_000, 0), None);
    assert_eq!(Config::warmup_frames(u32::MAX, 1), None);
    assert_eq!(Config::warmup_frames(u32::MAX, 3), Some(2_863_311_562));
}

#[test]
fn frame_capacity_is_two_bytes_per_sample() {
    let mut c = small_config(0, 1);
    assert_eq!(c.frame_capacity(), Some(8));
    c.samples_per_frame = usize::MAX / 2;
    assert_eq!(c.frame_capacity(), Some(usize::MAX - 1));
    c.samples_per_frame = usize::MAX / 2 + 1;
    assert_eq!(c.frame_capacity(), None);
}

#[test]
fn new_pipeline_starts_clean() {
    let p = Pipeline::new(small_config(3, 10), Thresholds::standard());
    assert_eq!(p.config(), small_config(3, 10));
    assert_eq!(p.limits(), Thresholds::standard());
    assert_eq!(p.counters(), Counters::new());
    assert_eq!(p.stats(), FrameStats::new());
    assert_eq!(p.gate(), WarmupGate::new(3));
    assert_eq!(p.since_diagnostics(), 0);
    assert_eq!(p.filter_estimate(), 0);
}

#[test]
fn pull_is_never_larger_than_the_frame_buffer() {
    let mut p = Pipeline::new(small_config(0, 10), Thresholds::standard());
    let available: Result<usize, ()> = Ok(20);
    assert_eq!(p.on_available(available, 8), PollStep::Pull { len: 8 });
    assert_eq!(p.on_available(Ok::<usize, ()>(8), 8), PollStep::Pull { len: 8 });
    assert_eq!(p.on_available(Ok::<usize, ()>(5), 8), PollStep::Pull { len: 5 });
    assert_eq!(p.on_available(Ok::<usize, ()>(usize::MAX), 1024), PollStep::Pull { len: 1024 });
    assert_eq!(p.counters(), Counters::new());
}

#[test]
fn nothing_available_is_polled_again_and_counts_nothing() {
    let mut p = Pipeline::new(small_config(0, 10), Thresholds::standard());
    assert_eq!(p.on_available(Ok::<usize, ()>(0), 8), PollStep::Repoll);
    assert_eq!(p.counters(), Counters::new());
}

#[test]
fn source_failures_are_counted_and_polled_again() {
    let mut p = Pipeline::new(small_config(0, 10), Thresholds::standard());
    assert_eq!(p.on_available(Err::<usize, &str>("dma"), 8), PollStep::Repoll);
    assert_eq!(p.counters().errors, 1);
    assert_eq!(p.on_pulled(Err::<usize, &str>("dma")), PullStep::Repoll);
    assert_eq!(p.counters().errors, 2);
    assert_eq!(p.counters().frames_processed, 0);
    assert_eq!(p.counters().dropped_frames, 0);
}

#[test]
fn pulled_bytes_are_the_next_frame() {
    let mut p = Pipeline::new(small_config(0, 10), Thresholds::standard());
    assert_eq!(p.on_pulled(Ok::<usize, ()>(0)), PullStep::Repoll);
    assert_eq!(p.on_pulled(Ok::<usize, ()>(6)), PullStep::Process { len: 6 });
    assert_eq!(p.counters(), Counters::new());
}

#[test]
fn process_frame_conditions_in_place_and_keeps_the_estimate() {
    let mut p = Pipeline::new(small_config(0, 10), Thresholds::standard());
    let mut first = pcm(&[1000, 1000, 1000]);
    p.process_frame(&mut first);
    assert_eq!(first, pcm(&[997, 994, 991]));
    assert_eq!(p.filter_estimate(), 9);
    let mut second = pcm(&[1000, 1000, 1000]);
    p.process_frame(&mut second);
    assert_eq!(second, pcm(&[988, 985, 982]));
    assert_eq!(p.filter_estimate(), 18);
    assert_eq!(p.stats().total_abs, 997 + 994 + 991 + 988 + 985 + 982);
    assert_eq!(p.stats().even_count, 4);
    assert_eq!(p.stats().odd_count, 2);
    assert_eq!(p.since_diagnostics(), 2);
}

#[test]
fn process_frame_uses_gain_and_shift_of_the_config() {
    let mut config = small_config(0, 10);
    config.gain_shift = 1;
    config.gain_boost = 2;
    let mut p = Pipeline::new(config, Thresholds::standard());
    let mut frame = pcm(&[1000, -1000, 500, 0, 32767, -32768]);
    p.process_frame(&mut frame);
    assert_eq!(frame, pcm(&[998, -1000, 500, 0, 32640, -32766]));
    assert_eq!(p.filter_estimate(), -1);
}

#[test]
fn diagnostics_come_at_the_end_of_each_interval() {
    let mut p = Pipeline::new(small_config(0, 3), Thresholds::standard());
    let mut verdicts = Vec::new();
    for _ in 0..7 {
        let mut frame = pcm(&[0, 0, 0, 0]);
        let outcome = p.process_frame(&mut frame);
        verdicts.push(outcome.diagnostics.map(|d| (d.verdict, d.samples)));
    }
    assert_eq!(
        verdicts,
        vec![
            None,
            None,
            Some((Verdict::Silence, 12)),
            None,
            None,
            Some((Verdict::Silence, 12)),
            None,
        ]
    );
    assert_eq!(p.since_diagnostics(), 1);
    assert_eq!(p.stats().even_count, 2);
}

#[test]
fn diagnostics_carry_the_verdict_of_the_interval() {
    let mut p = Pipeline::new(small_config(0, 1), Thresholds::standard());
    let mut frame = pcm(&[10, 1000, -10, 1000]);
    let outcome = p.process_frame(&mut frame);
    let d = outcome.diagnostics.unwrap();
    assert_eq!(d.verdict, Verdict::ChannelMismatch);
    assert_eq!(d.samples, 4);
    assert_eq!(p.stats(), FrameStats::new());
}

#[test]
fn interval_of_zero_gives_no_diagnostics_and_no_summary() {
    let mut p = Pipeline::new(small_config(0, 0), Thresholds::standard());
    for _ in 0..5 {
        let mut frame = pcm(&[100, 100]);
        assert_eq!(p.process_frame(&mut frame).diagnostics, None);
        assert_eq!(p.finish_frame(Some(SendState::Abandoned)).summary, None);
    }
    assert_eq!(p.counters().frames_processed, 5);
    assert_eq!(p.counters().dropped_frames, 5);
}

#[test]
fn warmup_of_three_suppresses_three_frames_and_counts_them() {
    let mut p = Pipeline::new(small_config(3, 100), Thresholds::standard());
    let mut sink_saw = Vec::new();
    for n in 1..=5u32 {
        let mut frame = pcm(&[0, 0]);
        let mut wrote = false;
        run_cycle(&mut p, &mut frame, &mut |_| {
            wrote = true;
            WriteOutcome::Written
        });
        sink_saw.push(wrote);
        assert_eq!(p.counters().frames_processed, n);
    }
    assert_eq!(sink_saw, vec![false, false, false, true, true]);
    assert_eq!(p.counters().dropped_frames, 0);
    assert_eq!(p.counters().errors, 0);
}

#[test]
fn refusing_sink_drops_every_streaming_frame_once() {
    for budget in [0u32, 1, 5, 1000] {
        let mut config = small_config(2, 100);
        config.spin_budget = budget;
        let mut p = Pipeline::new(config, Thresholds::standard());
        for n in 1..=6u32 {
            let mut frame = pcm(&[1, 2, 3, 4]);
            run_cycle(&mut p, &mut frame, &mut |_| WriteOutcome::WouldBlock);
            assert_eq!(p.counters().frames_processed, n);
            assert_eq!(p.counters().dropped_frames, n.saturating_sub(2));
            assert_eq!(p.counters().errors, 0);
        }
    }
}

#[test]
fn failing_sink_counts_an_error_and_a_drop() {
    let mut p = Pipeline::new(small_config(0, 100), Thresholds::standard());
    let mut frame = pcm(&[1, 2, 3, 4]);
    run_cycle(&mut p, &mut frame, &mut |_| WriteOutcome::Failed);
    assert_eq!(
        p.counters(),
        Counters { frames_processed: 1, errors: 1, dropped_frames: 1, last_reported_dropped: 0 }
    );
}

#[test]
fn delivered_frame_reaches_the_sink_conditioned_and_in_order() {
    let mut p = Pipeline::new(small_config(0, 100), Thresholds::standard());
    let mut frame = pcm(&[1000, 1000]);
    let mut sent = Vec::new();
    run_cycle(&mut p, &mut frame, &mut |b| {
        sent.push(b);
        WriteOutcome::Written
    });
    assert_eq!(sent, pcm(&[997, 994]));
    assert_eq!(p.counters().dropped_frames, 0);
}

#[test]
fn liveness_is_toggled_every_hundred_frames() {
    let mut p = Pipeline::new(small_config(0, 1000), Thresholds::standard());
    let mut toggles = Vec::new();
    for n in 1..=250u32 {
        if p.finish_frame(None).toggle_liveness {
            toggles.push(n);
        }
    }
    assert_eq!(toggles, vec![100, 200]);
}

#[test]
fn summary_comes_every_interval_with_the_drop_warning() {
    let mut p = Pipeline::new(small_config(0, 4), Thresholds::standard());
    assert_eq!(p.finish_frame(Some(SendState::Delivered)).summary, None);
    assert_eq!(p.finish_frame(Some(SendState::Abandoned)).summary, None);
    assert_eq!(p.finish_frame(Some(SendState::Failed)).summary, None);
    let end = p.finish_frame(Some(SendState::Delivered));
    assert_eq!(
        end,
        FrameEnd {
            toggle_liveness: false,
            summary: Some(Summary {
                frames_processed: 4,
                errors: 1,
                dropped_frames: 2,
                drop_warning: Some(2),
            }),
        }
    );
    assert_eq!(p.counters().last_reported_dropped, 2);
    for _ in 0..3 {
        assert_eq!(p.finish_frame(Some(SendState::Delivered)).summary, None);
    }
    assert_eq!(
        p.finish_frame(Some(SendState::Delivered)).summary,
        Some(Summary { frames_processed: 8, errors: 1, dropped_frames: 2, drop_warning: None })
    );
}

#[test]
fn drops_never_fall_behind_what_was_reported() {
    let mut p = Pipeline::new(small_config(0, 2), Thresholds::standard());
    let ends = [SendState::Abandoned, SendState::Delivered, SendState::Failed, SendState::Abandoned];
    for round in 0..40 {
        p.finish_frame(Some(ends[round % 4]));
        let c = p.counters();
        assert!(c.dropped_frames >= c.last_reported_dropped);
    }
}
