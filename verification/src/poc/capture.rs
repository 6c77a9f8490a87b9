//! Bookkeeping of the prototype's microphone capture.
use vstd::prelude::*;

verus! {

/// How the prototype captures audio: `wav_path`, when set, is where the
/// raw input is also recorded.
pub struct CaptureConfig {
    pub wav_path: Option<String>,
}

/// Running counters of the capture stream: callbacks received, samples
/// received (all channels), and the longest gap between two consecutive
/// callbacks, in microseconds. The counters wrap around as the atomic
/// counters of the stream do.
pub struct CaptureStats {
    pub callbacks: u64,
    pub samples: u64,
    pub max_callback_gap_us: u64,
}

/// `a + b` on a 64-bit counter that wraps around.
pub open spec fn counter_add(a: u64, b: u64) -> u64 {
    ((a + b) % 0x1_0000_0000_0000_0000int) as u64
}

impl CaptureStats {
    /// All counters at zero.
    pub fn new() -> (r: Self)
        ensures
            r.callbacks == 0,
            r.samples == 0,
            r.max_callback_gap_us == 0,
    {
        CaptureStats { callbacks: 0, samples: 0, max_callback_gap_us: 0 }
    }

    /// Count one callback that delivered `sample_count` samples, `gap_us`
    /// microseconds after the previous one (`None` for the first callback).
    pub fn record_callback(&mut self, gap_us: Option<u64>, sample_count: u64)
        ensures
            final(self).callbacks == counter_add(old(self).callbacks, 1),
            final(self).samples == counter_add(old(self).samples, sample_count),
            final(self).max_callback_gap_us == match gap_us {
                Some(g) => if g > old(self).max_callback_gap_us {
                    g
                } else {
                    old(self).max_callback_gap_us
                },
                None => old(self).max_callback_gap_us,
            },
    {
        if let Some(g) = gap_us {
            if g > self.max_callback_gap_us {
                self.max_callback_gap_us = g;
            }
        }
        self.callbacks = self.callbacks.wrapping_add(1);
        self.samples = self.samples.wrapping_add(sample_count);
    }
}

} // verus!
