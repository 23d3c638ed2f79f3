//! Real-time frame pipeline for a PDM microphone: each frame of 16-bit
//! little-endian PCM is conditioned in place, measured, gated through a
//! warm-up period and handed to a byte sink, with every failure absorbed
//! into counters.
//!
//! - [`sample`]: the samples and their byte form.
//! - [`conditioner`]: attenuation, DC removal and gain.
//! - [`stats`]: frame statistics and the signal-quality verdict.
//! - [`delivery`]: the warm-up, the bounded write of a frame, the counters.
//! - [`pipeline`]: the state and the decisions of one cycle of the loop.
//! - [`mic`]: a stand-in microphone that synthesises a ramp.

pub mod conditioner;
pub mod delivery;
pub mod mic;
pub mod pipeline;
pub mod sample;
pub mod stats;
