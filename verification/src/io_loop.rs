//! The io thread's bookkeeping of owed wake-ups: trailing overview and IPC
//! flushes, a withheld redraw and the auto-approve stability rescan. The
//! thread itself receives from its channels and performs the flushes; these
//! functions decide what is due, what is owed next and whether to repaint.
//! Times are nanoseconds on a monotonic clock.

use vstd::prelude::*;

use crate::redraw::{last_from_stamp, redraw_decision, RedrawDecision, RedrawFloor};

verus! {

/// Upper bound on one pre-park spin, in nanoseconds.
pub const HOT_SPIN_BUDGET: u64 = 150_000;

/// The deadlines an io thread owes; `None` means nothing is owed.
#[derive(Clone, Copy, Debug, PartialEq, Eq, Structural)]
pub struct IoDeadlines {
    /// A throttled overview publish owes a trailing flush.
    pub overview_flush_at: Option<u64>,
    /// A throttled IPC output push owes a trailing flush.
    pub ipc_flush_at: Option<u64>,
    /// A withheld redraw owes a repaint.
    pub redraw_at: Option<u64>,
    /// The auto-approve stability rescan is armed.
    pub rescan_at: Option<u64>,
}

/// What an idle tick must do.
#[derive(Clone, Copy, Debug, PartialEq, Eq, Structural)]
pub struct IdleSettle {
    pub flush_overview: bool,
    pub flush_ipc: bool,
    pub rescan_auto_approve: bool,
    /// This thread won the race to fire the window's owed redraw.
    pub claimed: bool,
    /// Post a redraw (already recorded on the window's clock).
    pub redraw: bool,
    /// Some deadline came due: loop again instead of parking.
    pub any_elapsed: bool,
}

/// Whether deadline `d` has come due at `now`.
pub open spec fn due(d: Option<u64>, now: u64) -> bool {
    match d {
        Some(at) => now >= at,
        None => false,
    }
}

/// The earlier of two optional deadlines.
pub open spec fn earlier(a: Option<u64>, b: Option<u64>) -> Option<u64> {
    match (a, b) {
        (Some(x), Some(y)) => Some(
            if x <= y {
                x
            } else {
                y
            },
        ),
        (Some(x), None) => Some(x),
        (None, y) => y,
    }
}

/// The first owed deadline, the one to park until.
pub open spec fn next_deadline_of(d: IoDeadlines) -> Option<u64> {
    earlier(earlier(earlier(d.overview_flush_at, d.redraw_at), d.rescan_at), d.ipc_flush_at)
}

/// `d` cleared once due.
pub open spec fn settled(d: Option<u64>, now: u64) -> Option<u64> {
    if due(d, now) {
        None
    } else {
        d
    }
}

fn is_due(d: Option<u64>, now: u64) -> (r: bool)
    ensures
        r == due(d, now),
{
    match d {
        Some(at) => now >= at,
        None => false,
    }
}

fn min_deadline(a: Option<u64>, b: Option<u64>) -> (r: Option<u64>)
    ensures
        r == earlier(a, b),
{
    match (a, b) {
        (Some(x), Some(y)) => Some(
            if x <= y {
                x
            } else {
                y
            },
        ),
        (Some(x), None) => Some(x),
        (None, y) => y,
    }
}

impl IoDeadlines {
    /// Nothing owed.
    pub fn new() -> (d: IoDeadlines)
        ensures
            d.overview_flush_at is None,
            d.ipc_flush_at is None,
            d.redraw_at is None,
            d.rescan_at is None,
    {
        IoDeadlines { overview_flush_at: None, ipc_flush_at: None, redraw_at: None, rescan_at: None }
    }

    /// The deadline to park until: the first one owed, or `None` to block
    /// indefinitely.
    pub fn next_deadline(&self) -> (r: Option<u64>)
        ensures
            r == next_deadline_of(*self),
    {
        min_deadline(
            min_deadline(min_deadline(self.overview_flush_at, self.redraw_at), self.rescan_at),
            self.ipc_flush_at,
        )
    }

    /// Settle every deadline due at `now`: a due overview flush repaints
    /// (recorded on the window's clock), and so does a due withheld redraw
    /// when this thread wins the race to claim it on the clock; a due IPC flush
    /// never repaints; a due rescan is reported, and stays armed until the
    /// caller re-arms it from the rescan's outcome.
    pub fn settle(&mut self, now: u64, floor: &RedrawFloor) -> (r: IdleSettle)
        ensures
            r.flush_overview == due(old(self).overview_flush_at, now),
            r.flush_ipc == due(old(self).ipc_flush_at, now),
            r.rescan_auto_approve == due(old(self).rescan_at, now),
            r.any_elapsed == (due(old(self).overview_flush_at, now) || due(old(self).ipc_flush_at, now)
                || due(old(self).redraw_at, now) || due(old(self).rescan_at, now)),
            r.claimed ==> due(old(self).redraw_at, now),
            r.redraw == (due(old(self).overview_flush_at, now) || r.claimed),
            final(self).overview_flush_at == settled(old(self).overview_flush_at, now),
            final(self).ipc_flush_at == settled(old(self).ipc_flush_at, now),
            final(self).redraw_at == settled(old(self).redraw_at, now),
            final(self).rescan_at == old(self).rescan_at,
    {
        let flush_overview = is_due(self.overview_flush_at, now);
        let flush_ipc = is_due(self.ipc_flush_at, now);
        let redraw_due = is_due(self.redraw_at, now);
        let rescan = is_due(self.rescan_at, now);
        if flush_overview {
            self.overview_flush_at = None;
        }
        if flush_ipc {
            self.ipc_flush_at = None;
        }
        if redraw_due {
            self.redraw_at = None;
        }
        let claimed = if redraw_due {
            floor.claim_deadline(now)
        } else {
            false
        };
        let redraw = flush_overview || claimed;
        if redraw && !claimed {
            floor.record(now);
        }
        IdleSettle {
            flush_overview,
            flush_ipc,
            rescan_auto_approve: rescan,
            claimed,
            redraw,
            any_elapsed: flush_overview || flush_ipc || redraw_due || rescan,
        }
    }

    /// After a fed batch: a batch that changed nothing visible paints
    /// nothing and owes nothing. Otherwise the window's clock decides (a
    /// pending input echo bypasses the floor outside synchronized output):
    /// a repaint now clears the owed redraw and the echo, a withheld one
    /// owes a repaint at its deadline. Returns whether to post a redraw and
    /// whether an echo is still pending.
    pub fn after_feed(
        &mut self,
        floor: &RedrawFloor,
        display_dirty: bool,
        synchronized: bool,
        echo_pending: bool,
        now: u64,
    ) -> (r: (bool, bool))
        ensures
            final(self).overview_flush_at == old(self).overview_flush_at,
            final(self).ipc_flush_at == old(self).ipc_flush_at,
            final(self).rescan_at == old(self).rescan_at,
            !display_dirty ==> r == (false, echo_pending)
                && final(self).redraw_at == old(self).redraw_at,
            display_dirty && echo_pending && !synchronized ==> r == (true, false)
                && final(self).redraw_at is None,
            display_dirty && !(echo_pending && !synchronized) ==> exists|raw_last: u64, interval: u64|
                #![trigger redraw_decision(synchronized, last_from_stamp(raw_last), now, interval)]
                {
                    let d = redraw_decision(synchronized, last_from_stamp(raw_last), now, interval);
                    match d {
                        RedrawDecision::Now => r == (true, false) && final(self).redraw_at is None,
                        RedrawDecision::Suppress { deadline } => r == (false, echo_pending)
                            && final(self).redraw_at == Some(deadline),
                    }
                },
    {
        if !display_dirty {
            return (false, echo_pending);
        }
        let decision = if echo_pending {
            floor.decide_input_echo(synchronized, now)
        } else {
            floor.decide(synchronized, now)
        };
        match decision {
            RedrawDecision::Now => {
                self.redraw_at = None;
                (true, false)
            },
            RedrawDecision::Suppress { deadline } => {
                self.redraw_at = Some(deadline);
                (false, echo_pending)
            },
        }
    }
}

/// The parked wait ends no later than every owed deadline, and at one of
/// them: nothing owed is skipped and no wake-up is spent on nothing.
pub proof fn lemma_next_deadline_is_first_owed(d: IoDeadlines)
    ensures
        match next_deadline_of(d) {
            Some(t) => {
                &&& (d.overview_flush_at matches Some(x) ==> t <= x)
                &&& (d.ipc_flush_at matches Some(x) ==> t <= x)
                &&& (d.redraw_at matches Some(x) ==> t <= x)
                &&& (d.rescan_at matches Some(x) ==> t <= x)
                &&& (d.overview_flush_at == Some(t) || d.ipc_flush_at == Some(t) || d.redraw_at
                    == Some(t) || d.rescan_at == Some(t))
            },
            None => d.overview_flush_at is None && d.ipc_flush_at is None && d.redraw_at is None
                && d.rescan_at is None,
        },
{
}

/// Every deadline due at `now` is settled by one idle tick, and a deadline
/// still owed is one that has not come due.
pub proof fn lemma_settle_leaves_only_future_deadlines(d: Option<u64>, now: u64)
    ensures
        !due(settled(d, now), now),
        settled(d, now) matches Some(t) ==> now < t,
{
}

/// Ceiling on pty bytes coalesced into one parse batch.
pub const PTY_DATA_DRAIN_BYTE_LIMIT: usize = 1048576;

/// How draining queued pty data ended, when it ended the pane.
#[derive(Clone, Copy, Debug, PartialEq, Eq, Structural)]
pub enum PtyDrainTerminalEvent {
    ExitOrError,
    Disconnected,
}

/// What a non-blocking receive from the pty channel gave.
#[derive(Clone, Copy, Debug, PartialEq, Eq, Structural)]
pub enum DrainEvent {
    /// A data chunk of this many bytes.
    Data(usize),
    ExitOrError,
    Empty,
    Disconnected,
}

/// The next step of a drain.
#[derive(Clone, Copy, Debug, PartialEq, Eq, Structural)]
pub enum DrainStep {
    /// Keep the chunk and go on with this many bytes buffered.
    Continue(usize),
    /// Stop, reporting how the pane ended, if it did.
    Stop(Option<PtyDrainTerminalEvent>),
}

/// The drain step after `event` with `buffered` bytes so far: a chunk adds
/// its size (saturating); an empty channel stops quietly; exit, error and a
/// closed channel stop the pane.
pub open spec fn drain_step_of(buffered: usize, event: DrainEvent) -> DrainStep {
    match event {
        DrainEvent::Data(n) => DrainStep::Continue(
            if buffered + n > usize::MAX {
                usize::MAX
            } else {
                (buffered + n) as usize
            },
        ),
        DrainEvent::ExitOrError => DrainStep::Stop(Some(PtyDrainTerminalEvent::ExitOrError)),
        DrainEvent::Empty => DrainStep::Stop(None),
        DrainEvent::Disconnected => DrainStep::Stop(Some(PtyDrainTerminalEvent::Disconnected)),
    }
}

/// Whether to receive another chunk into this batch: only below the batch
/// byte limit.
pub fn keep_draining(buffered: usize) -> (r: bool)
    ensures
        r == (buffered < PTY_DATA_DRAIN_BYTE_LIMIT),
{
    buffered < PTY_DATA_DRAIN_BYTE_LIMIT
}

/// One step of draining queued pty data into a batch.
pub fn drain_step(buffered: usize, event: DrainEvent) -> (r: DrainStep)
    ensures
        r == drain_step_of(buffered, event),
{
    match event {
        DrainEvent::Data(n) => DrainStep::Continue(buffered.saturating_add(n)),
        DrainEvent::ExitOrError => DrainStep::Stop(Some(PtyDrainTerminalEvent::ExitOrError)),
        DrainEvent::Empty => DrainStep::Stop(None),
        DrainEvent::Disconnected => DrainStep::Stop(Some(PtyDrainTerminalEvent::Disconnected)),
    }
}

} // verus!
