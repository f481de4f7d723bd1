//! Keypress-to-present latency sampling: one pending keypress at a time,
//! its echo taken as the first pty batch fed after it, and the sample
//! closed by the first present whose frame was built after the echo.
//! Times are nanoseconds on a monotonic clock, never 0 (0 marks an empty
//! slot).

use vstd::prelude::*;

verus! {

/// The pending sample: when the key was pressed and when its echo was fed
/// (0 when not yet).
#[derive(Clone, Copy, Debug, PartialEq, Eq, Structural)]
pub struct LatencySample {
    pub keypress_at: u64,
    pub echo_fed_at: u64,
}

/// A closed sample, in microseconds after the keypress.
#[derive(Clone, Copy, Debug, PartialEq, Eq, Structural)]
pub struct LatencyReport {
    pub key_to_present_us: u64,
    pub echo_fed_us: u64,
}

impl LatencySample {
    /// No pending keypress.
    pub fn new() -> (s: LatencySample)
        ensures
            s.keypress_at == 0 && s.echo_fed_at == 0,
    {
        LatencySample { keypress_at: 0, echo_fed_at: 0 }
    }

    /// A key was pressed at `now`: start a new sample, replacing any
    /// unfinished one.
    pub fn on_key_pressed(&mut self, now: u64)
        ensures
            final(self).keypress_at == now,
            final(self).echo_fed_at == 0,
    {
        self.echo_fed_at = 0;
        self.keypress_at = now;
    }

    /// A pty batch was parsed at `now`: the first one after a pending
    /// keypress is its echo.
    pub fn on_pty_feed(&mut self, now: u64)
        ensures
            final(self).keypress_at == old(self).keypress_at,
            final(self).echo_fed_at == if old(self).keypress_at != 0 && old(self).echo_fed_at == 0 {
                now
            } else {
                old(self).echo_fed_at
            },
    {
        if self.keypress_at != 0 && self.echo_fed_at == 0 {
            self.echo_fed_at = now;
        }
    }

    /// A frame whose snapshot was built at `frame_start` was presented at
    /// `now`: it closes the sample when the echo was fed no later than the
    /// frame started (0 means tracing is off and closes nothing).
    pub fn on_present(&mut self, frame_start: u64, now: u64) -> (r: Option<LatencyReport>)
        ensures
            ({
                let closes = frame_start != 0 && old(self).echo_fed_at != 0 && frame_start
                    >= old(self).echo_fed_at && old(self).keypress_at != 0;
                &&& closes ==> r == Some(
                    LatencyReport {
                        key_to_present_us: (if now >= old(self).keypress_at {
                            now - old(self).keypress_at
                        } else {
                            0
                        }) as u64 / 1000,
                        echo_fed_us: (if old(self).echo_fed_at >= old(self).keypress_at {
                            old(self).echo_fed_at - old(self).keypress_at
                        } else {
                            0
                        }) as u64 / 1000,
                    },
                ) && final(self).keypress_at == 0 && final(self).echo_fed_at == 0
                &&& !closes ==> r is None && *final(self) == *old(self)
            }),
    {
        if frame_start == 0 {
            return None;
        }
        let echo_fed = self.echo_fed_at;
        if echo_fed == 0 || frame_start < echo_fed {
            return None;
        }
        let keypress = self.keypress_at;
        if keypress == 0 {
            return None;
        }
        self.keypress_at = 0;
        self.echo_fed_at = 0;
        Some(
            LatencyReport {
                key_to_present_us: now.saturating_sub(keypress) / 1000,
                echo_fed_us: echo_fed.saturating_sub(keypress) / 1000,
            },
        )
    }
}

} // verus!
