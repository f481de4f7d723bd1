//! Redraw pacing: how often the io thread asks the event loop to repaint,
//! and how long a redraw may be withheld under synchronized output
//! (DECSET 2026). Times are nanoseconds on one monotonic clock.

use std::sync::atomic::{AtomicU64, Ordering};
use std::sync::Arc;
use vstd::prelude::*;

verus! {

/// 1 ms in nanoseconds.
pub const MILLISECOND: u64 = 1000000;

/// The longest a redraw is withheld while synchronized output is held open
/// (100 ms).
pub const SYNCHRONIZED_OUTPUT_MAX_SUPPRESSION: u64 = 100000000;

/// Floor between redraw requests outside synchronized output when the
/// display's refresh rate is unknown (8 ms).
pub const REDRAW_MIN_INTERVAL: u64 = 8000000;

/// Lower clamp of a refresh-derived redraw floor (4 ms).
pub const REDRAW_MIN_INTERVAL_FLOOR: u64 = 4000000;

/// Upper clamp of a refresh-derived redraw floor (33 ms).
pub const REDRAW_MIN_INTERVAL_CEILING: u64 = 33000000;

/// `a + b`, saturating at `u64::MAX`.
pub open spec fn sat_add(a: u64, b: u64) -> u64 {
    if a + b > u64::MAX {
        u64::MAX
    } else {
        (a + b) as u64
    }
}

/// `now - since`, or zero when `since` is later.
pub open spec fn elapsed_since(now: u64, since: u64) -> u64 {
    if now >= since {
        (now - since) as u64
    } else {
        0
    }
}

/// The redraw floor for a monitor refresh rate in millihertz: its period,
/// or [`REDRAW_MIN_INTERVAL`] when the rate is unknown or zero, clamped to
/// 4..=33 ms.
pub open spec fn redraw_floor_spec(millihertz: Option<u32>) -> u64 {
    let derived = match millihertz {
        Some(m) => if m > 0 {
            (1000000000000u64 / (m as u64)) as u64
        } else {
            REDRAW_MIN_INTERVAL
        },
        None => REDRAW_MIN_INTERVAL,
    };
    if derived < REDRAW_MIN_INTERVAL_FLOOR {
        REDRAW_MIN_INTERVAL_FLOOR
    } else if derived > REDRAW_MIN_INTERVAL_CEILING {
        REDRAW_MIN_INTERVAL_CEILING
    } else {
        derived
    }
}

/// Whether a just-fed batch repaints now or owes a repaint at `deadline`.
#[derive(Clone, Copy, Debug, PartialEq, Eq)]
pub enum RedrawDecision {
    Now,
    Suppress { deadline: u64 },
}

/// The redraw decision: the window is the synchronized-output cap under
/// DECSET 2026 and `min_interval` otherwise; a paint within the window
/// suppresses this one until `last + window`, anything else paints now.
pub open spec fn redraw_decision(
    synchronized: bool,
    last_redraw: Option<u64>,
    now: u64,
    min_interval: u64,
) -> RedrawDecision {
    let window = if synchronized {
        SYNCHRONIZED_OUTPUT_MAX_SUPPRESSION
    } else {
        min_interval
    };
    match last_redraw {
        Some(last) => if elapsed_since(now, last) < window {
            RedrawDecision::Suppress { deadline: sat_add(last, window) }
        } else {
            RedrawDecision::Now
        },
        None => RedrawDecision::Now,
    }
}

/// Derive the redraw floor from a monitor refresh rate (millihertz).
pub fn redraw_floor_from_refresh_millihertz(millihertz: Option<u32>) -> (res: u64)
    ensures
        res == redraw_floor_spec(millihertz),
        REDRAW_MIN_INTERVAL_FLOOR <= res <= REDRAW_MIN_INTERVAL_CEILING,
{
    let derived: u64 = match millihertz {
        Some(m) => if m > 0 {
            1000000000000u64 / (m as u64)
        } else {
            REDRAW_MIN_INTERVAL
        },
        None => REDRAW_MIN_INTERVAL,
    };
    if derived < REDRAW_MIN_INTERVAL_FLOOR {
        REDRAW_MIN_INTERVAL_FLOOR
    } else if derived > REDRAW_MIN_INTERVAL_CEILING {
        REDRAW_MIN_INTERVAL_CEILING
    } else {
        derived
    }
}

/// Decide a redraw against an explicit floor `min_interval`.
pub fn decide_redraw_floor(
    synchronized: bool,
    last_redraw: Option<u64>,
    now: u64,
    min_interval: u64,
) -> (res: RedrawDecision)
    ensures
        res == redraw_decision(synchronized, last_redraw, now, min_interval),
{
    let window = if synchronized {
        SYNCHRONIZED_OUTPUT_MAX_SUPPRESSION
    } else {
        min_interval
    };
    match last_redraw {
        Some(last) => {
            let elapsed = if now >= last {
                now - last
            } else {
                0
            };
            if elapsed < window {
                RedrawDecision::Suppress { deadline: last.saturating_add(window) }
            } else {
                RedrawDecision::Now
            }
        },
        None => RedrawDecision::Now,
    }
}

/// Decide a redraw against the default floor [`REDRAW_MIN_INTERVAL`].
pub fn decide_redraw(synchronized: bool, last_redraw: Option<u64>, now: u64) -> (res:
    RedrawDecision)
    ensures
        res == redraw_decision(synchronized, last_redraw, now, REDRAW_MIN_INTERVAL),
{
    decide_redraw_floor(synchronized, last_redraw, now, REDRAW_MIN_INTERVAL)
}

/// The timestamp a redraw at `at` is stored as: at least 1, so it never
/// collides with the "never" sentinel 0.
pub open spec fn stored_stamp(at: u64) -> u64 {
    if at == 0 {
        1
    } else {
        at
    }
}

/// The last redraw a stored clock value stands for: none for the sentinel 0.
pub open spec fn last_from_stamp(raw: u64) -> Option<u64> {
    if raw == 0 {
        None
    } else {
        Some(raw)
    }
}

/// A claim at `at` against a clock that held `previous` wins exactly when it
/// advances the clock.
pub open spec fn claim_wins(previous: u64, at: u64) -> bool {
    previous < stored_stamp(at)
}

/// Decide a redraw from a raw shared-clock reading and interval.
pub fn decide_from_clock(synchronized: bool, raw_last: u64, min_interval: u64, now: u64) -> (res:
    RedrawDecision)
    ensures
        res == redraw_decision(synchronized, last_from_stamp(raw_last), now, min_interval),
{
    let last = if raw_last == 0 {
        None
    } else {
        Some(raw_last)
    };
    decide_redraw_floor(synchronized, last, now, min_interval)
}

/// A window's redraw-floor clock, shared by every pane's io thread in that
/// window (clones share it). `min_interval` is written from the window's
/// monitor refresh rate; the last-redraw stamp is advanced by whichever pane
/// wins the race to paint. Other threads may change both at any time, so
/// the contracts state what holds for whatever values were read.
#[derive(Clone)]
pub struct RedrawFloor {
    last_redraw_at: Arc<AtomicU64>,
    min_interval_nanos: Arc<AtomicU64>,
}

impl RedrawFloor {
    /// A clock with no redraw recorded and floor `min_interval`. The two
    /// values live in `std` atomics, which Verus gives no value model, so no
    /// clause can speak of them.
    pub fn new(min_interval: u64) -> (res: RedrawFloor) {
        RedrawFloor {
            last_redraw_at: Arc::new(AtomicU64::new(0)),
            min_interval_nanos: Arc::new(AtomicU64::new(min_interval)),
        }
    }

    /// Set the floor for every clone of this clock.
    pub fn set_min_interval(&self, interval: u64) {
        self.min_interval_nanos.store(interval, Ordering::Relaxed);
    }

    /// The current floor, as last written by any clone. Which value that is
    /// depends on other threads' stores, so the contract states nothing of it.
    pub fn min_interval(&self) -> u64 {
        self.min_interval_nanos.load(Ordering::Relaxed)
    }

    /// The raw last-redraw stamp (0 when none was recorded), whatever other
    /// threads last stored: the contract states nothing of it.
    fn last_redraw_raw(&self) -> u64 {
        self.last_redraw_at.load(Ordering::Acquire)
    }

    /// The last recorded redraw, if any: `None` for a raw stamp of 0, else
    /// the stamp. Which stamp was read depends on other threads.
    pub fn last_redraw(&self) -> (res: Option<u64>)
        ensures
            res is Some ==> res->0 > 0,
    {
        let raw = self.last_redraw_raw();
        if raw == 0 {
            None
        } else {
            Some(raw)
        }
    }

    /// Record `at` as a redraw, reporting whether it advanced the shared
    /// clock (the caller won the race).
    fn claim(&self, at: u64) -> (res: bool)
        ensures
            exists|previous: u64| res == claim_wins(previous, at),
    {
        let stamp = if at == 0 {
            1
        } else {
            at
        };
        let previous = self.last_redraw_at.fetch_max(stamp, Ordering::AcqRel);
        let won = previous < stamp;
        proof {
            assert(won == claim_wins(previous, at));
        }
        won
    }

    /// Record a redraw that happens regardless of the floor.
    pub fn record(&self, at: u64) {
        let _ = self.claim(at);
    }

    /// Decide a just-fed batch against the shared clock; a `Now` decision is
    /// recorded so sibling panes see it.
    pub fn decide(&self, synchronized: bool, now: u64) -> (res: RedrawDecision)
        ensures
            exists|raw_last: u64, interval: u64|
                res == redraw_decision(synchronized, last_from_stamp(raw_last), now, interval),
    {
        let raw_last = self.last_redraw_raw();
        let interval = self.min_interval();
        let decision = decide_from_clock(synchronized, raw_last, interval, now);
        if matches!(decision, RedrawDecision::Now) {
            let _ = self.claim(now);
        }
        decision
    }

    /// Fire an owed deadline: exactly the caller that advances the clock
    /// wins.
    pub fn claim_deadline(&self, now: u64) -> (res: bool)
        ensures
            exists|previous: u64| res == claim_wins(previous, now),
    {
        self.claim(now)
    }

    /// Decide a batch carrying a user-input echo: outside synchronized
    /// output it bypasses the floor (and is recorded); under synchronized
    /// output it defers like any batch.
    pub fn decide_input_echo(&self, synchronized: bool, now: u64) -> (res: RedrawDecision)
        ensures
            !synchronized ==> res == RedrawDecision::Now,
            synchronized ==> exists|raw_last: u64, interval: u64|
                res == redraw_decision(true, last_from_stamp(raw_last), now, interval),
    {
        if synchronized {
            return self.decide(true, now);
        }
        self.record(now);
        RedrawDecision::Now
    }
}

/// A decision never withholds a redraw past the window: a suppressed batch
/// owes its repaint at most one window after the last paint, and a paint at
/// least one window old (or no paint at all) repaints now.
pub proof fn lemma_redraw_window_bounded(
    synchronized: bool,
    last: Option<u64>,
    now: u64,
    min_interval: u64,
)
    ensures
        ({
            let window = if synchronized {
                SYNCHRONIZED_OUTPUT_MAX_SUPPRESSION
            } else {
                min_interval
            };
            match redraw_decision(synchronized, last, now, min_interval) {
                RedrawDecision::Suppress { deadline } => last is Some && deadline <= last->0
                    + window && elapsed_since(now, last->0) < window,
                RedrawDecision::Now => last is None || elapsed_since(now, last->0) >= window,
            }
        }),
{
}

/// Synchronized output is capped: whatever the floor, a batch under DECSET
/// 2026 is withheld for less than [`SYNCHRONIZED_OUTPUT_MAX_SUPPRESSION`]
/// after the last paint, and the floor plays no part in the decision.
pub proof fn lemma_synchronized_ignores_floor(last: Option<u64>, now: u64, a: u64, b: u64)
    ensures
        redraw_decision(true, last, now, a) == redraw_decision(true, last, now, b),
{
}

/// Of two claims at the same instant against the same clock, at most the
/// first can win: once a claim wins, the clock holds its stamp and an equal
/// claim no longer advances it.
pub proof fn lemma_claim_once(previous: u64, at: u64)
    ensures
        claim_wins(previous, at) ==> !claim_wins(
            if previous > stored_stamp(at) {
                previous
            } else {
                stored_stamp(at)
            },
            at,
        ),
        claim_wins(stored_stamp(at), at) == false,
{
}

} // verus!
