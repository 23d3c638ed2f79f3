//! A stand-in for the PDM microphone: it keeps the chosen slot and, until
//! the capture hardware is driven, synthesises a ramp so that whatever
//! consumes frames can be exercised.

use crate::sample::wrap_i16;
use vstd::prelude::*;

verus! {

/// The sample rate of the microphone, in Hz.
pub const SAMPLE_RATE_HZ: u32 = 16_000;

/// The number of samples in one frame of the microphone.
pub const FRAME_SAMPLES: usize = 1024;

/// By how much the synthetic ramp rises from one sample to the next.
pub const RAMP_STEP: i16 = 173;

/// The PDM slot that the microphone is read from.
#[derive(Copy, Clone, Debug, PartialEq, Eq, Structural)]
pub enum SlotSelect {
    Left,
    Right,
}

/// The microphone: its slot and the phase of the synthetic ramp.
pub struct MicPdm {
    slot: SlotSelect,
    synth_phase: i16,
}

/// The value of the ramp `steps` samples after it stood at `phase`: it
/// rises by 173 per sample and wraps within the signed 16-bit range.
pub open spec fn ramp_value(phase: i16, steps: nat) -> i16 {
    wrap_i16(phase as int + 173 * steps)
}

impl MicPdm {
    /// The slot that the microphone was made for.
    pub closed spec fn selected(&self) -> SlotSelect {
        self.slot
    }

    /// Where the synthetic ramp stands.
    pub closed spec fn phase(&self) -> i16 {
        self.synth_phase
    }

    /// A microphone on the given slot, with the ramp at 0.
    pub fn new(slot: SlotSelect) -> (mic: Self)
        ensures
            mic.selected() == slot,
            mic.phase() == 0,
    {
        MicPdm { slot, synth_phase: 0 }
    }

    /// Prepares the microphone for capture. Nothing can go wrong yet: the
    /// result is always `Ok`.
    pub fn init(&self) -> (ready: Result<(), &'static str>)
        ensures
            ready is Ok,
    {
        Ok(())
    }

    /// Fills `out` with the next samples of the ramp and returns the number
    /// of bytes that these samples take, two for each.
    pub fn read_frame(&mut self, out: &mut [i16]) -> (bytes: usize)
        requires
            2 * old(out)@.len() <= usize::MAX,
        ensures
            bytes == 2 * old(out)@.len(),
            final(out)@.len() == old(out)@.len(),
            forall|i: int|
                0 <= i < final(out)@.len() ==> final(out)@[i] == ramp_value(
                    old(self).phase(),
                    (i + 1) as nat,
                ),
            final(self).phase() == ramp_value(old(self).phase(), old(out)@.len()),
            final(self).selected() == old(self).selected(),
    {
        let len: usize = out.len();
        let mut phase: i16 = self.synth_phase;
        let mut i: usize = 0;
        while i < len
            invariant
                i <= len,
                len == out@.len(),
                len == old(out)@.len(),
                phase == ramp_value(old(self).phase(), i as nat),
                self.synth_phase == old(self).synth_phase,
                self.slot == old(self).slot,
                forall|j: int|
                    0 <= j < i ==> out@[j] == ramp_value(old(self).phase(), (j + 1) as nat),
            decreases len - i,
        {
            phase = phase.wrapping_add(RAMP_STEP);
            out[i] = phase;
            i = i + 1;
        }
        self.synth_phase = phase;
        len * 2
    }

    /// The slot that the microphone is read from.
    pub fn slot(&self) -> (slot: SlotSelect)
        ensures
            slot == self.selected(),
    {
        self.slot
    }
}

} // verus!
