//! Push-to-talk auto-stop: how long the microphone has been quiet. Whether
//! a chunk of samples is loud compares its RMS energy with a threshold,
//! which is floating-point work done by the caller; this module keeps the
//! silence clock.
use vstd::prelude::*;

verus! {

/// How long a silence stops a push-to-talk recording, in milliseconds.
pub const SILENCE_WINDOW_MS: u32 = 800;

/// What a chunk of audio means for the recording.
#[derive(Debug, Clone, Copy, PartialEq, Eq, Structural)]
pub enum VadDecision {
    Speech,
    Silence,
    AutoStop,
}

/// The milliseconds that `samples` samples last at `sample_rate` Hz,
/// rounded down and cut to 32 bits.
pub open spec fn chunk_ms(samples: nat, sample_rate: nat) -> u32 {
    ((samples * 1000) / sample_rate) as u32
}

/// Counts quiet time across chunks.
#[derive(Debug, Clone, Copy, PartialEq, Eq)]
pub struct SilenceClock {
    pub silence_window_ms: u32,
    pub accumulated_silence_ms: u32,
}

impl SilenceClock {
    /// A clock with the default window and no silence counted.
    pub fn new() -> (c: Self)
        ensures
            c.silence_window_ms == SILENCE_WINDOW_MS,
            c.accumulated_silence_ms == 0,
    {
        SilenceClock { silence_window_ms: SILENCE_WINDOW_MS, accumulated_silence_ms: 0 }
    }

    /// A clock with the window `silence_window_ms`.
    pub fn with_window(silence_window_ms: u32) -> (c: Self)
        ensures
            c.silence_window_ms == silence_window_ms,
            c.accumulated_silence_ms == 0,
    {
        SilenceClock { silence_window_ms, accumulated_silence_ms: 0 }
    }

    /// Takes in a chunk of `samples` samples at `sample_rate` Hz that was
    /// `loud` or not. An empty chunk is silence and counts nothing; a loud
    /// one is speech and restarts the count; a quiet one adds its length
    /// (saturating) and stops the recording once the window is reached.
    pub fn tick(&mut self, samples: usize, sample_rate: u32, loud: bool) -> (d: VadDecision)
        requires
            sample_rate > 0,
            samples * 1000 <= u64::MAX,
        ensures
            samples == 0 ==> d == VadDecision::Silence && *final(self) == *old(self),
            samples > 0 && loud ==> d == VadDecision::Speech && final(self).accumulated_silence_ms
                == 0 && final(self).silence_window_ms == old(self).silence_window_ms,
            samples > 0 && !loud ==> {
                let acc = if old(self).accumulated_silence_ms + chunk_ms(
                    samples as nat,
                    sample_rate as nat,
                ) > u32::MAX {
                    u32::MAX as int
                } else {
                    old(self).accumulated_silence_ms + chunk_ms(samples as nat, sample_rate as nat)
                };
                &&& final(self).accumulated_silence_ms == acc
                &&& final(self).silence_window_ms == old(self).silence_window_ms
                &&& d == (if acc >= old(self).silence_window_ms {
                    VadDecision::AutoStop
                } else {
                    VadDecision::Silence
                })
            },
    {
        if samples == 0 {
            return VadDecision::Silence;
        }
        let elapsed = ((samples as u64 * 1000) / sample_rate as u64) as u32;
        if loud {
            self.accumulated_silence_ms = 0;
            VadDecision::Speech
        } else {
            self.accumulated_silence_ms = self.accumulated_silence_ms.saturating_add(elapsed);
            if self.accumulated_silence_ms >= self.silence_window_ms {
                VadDecision::AutoStop
            } else {
                VadDecision::Silence
            }
        }
    }

    /// Forgets the silence counted so far.
    pub fn reset(&mut self)
        ensures
            final(self).accumulated_silence_ms == 0,
            final(self).silence_window_ms == old(self).silence_window_ms,
    {
        self.accumulated_silence_ms = 0;
    }
}

} // verus!
