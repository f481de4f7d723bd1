//! Throttles of the io thread's side channels: the session overview mirror,
//! the sidebar card upserts, the IPC output push with its per-slot row-hash
//! cache, the hot-spin traffic gauge and the auto-approve stability rescan.
//! Times are nanoseconds on one monotonic clock.

use vstd::prelude::*;

use crate::redraw::{elapsed_since, sat_add};
use crate::wire::{GridCell, Span, WireRow, hash_wire_row_spans, row_hash, row_to_spans, span_view, spans_of};

verus! {

/// Minimum interval between IPC output pushes for one pane (16 ms).
pub const OUTPUT_PUSH_MIN_INTERVAL: u64 = 16000000;

/// Length of one hot-spin traffic bucket (2 ms).
pub const HOT_SPIN_WINDOW: u64 = 2000000;

/// Recent traffic at or under this many bytes counts as interactive.
pub const HOT_SPIN_MAX_BATCH: usize = 4096;

/// Delay of the auto-approve stability rescan (350 ms).
pub const AUTO_APPROVE_STABILITY_RESCAN_DELAY: u64 = 350000000;

/// Whether an overview publish fires now, stays silent, or fires at
/// `deadline`.
#[derive(Clone, Copy, Debug, PartialEq, Eq)]
pub enum OverviewPublishDecision {
    Skip,
    Publish,
    ScheduleTrailingFlush { deadline: u64 },
}

/// Whether an IPC output push fires now, stays silent, or fires at
/// `deadline`.
#[derive(Clone, Copy, Debug, PartialEq, Eq)]
pub enum IpcOutputPushDecision {
    Skip,
    Push,
    ScheduleTrailingFlush { deadline: u64 },
}

/// Nothing is owed while hidden; the first feed and any feed at least one
/// interval after the last publish publish; a feed inside the interval owes
/// a trailing publish one interval after the last.
pub open spec fn overview_decision(
    visible: bool,
    last_publish: Option<u64>,
    now: u64,
    min_interval: u64,
) -> OverviewPublishDecision {
    if !visible {
        OverviewPublishDecision::Skip
    } else {
        match last_publish {
            None => OverviewPublishDecision::Publish,
            Some(last) => if elapsed_since(now, last) >= min_interval {
                OverviewPublishDecision::Publish
            } else {
                OverviewPublishDecision::ScheduleTrailingFlush {
                    deadline: sat_add(last, min_interval),
                }
            },
        }
    }
}

/// The IPC push decision: the overview rule, with visibility replaced by
/// `active` (a client subscribes to the pane's output) and the interval
/// [`OUTPUT_PUSH_MIN_INTERVAL`].
pub open spec fn ipc_push_decision(active: bool, last_push: Option<u64>, now: u64) -> IpcOutputPushDecision {
    match overview_decision(active, last_push, now, OUTPUT_PUSH_MIN_INTERVAL) {
        OverviewPublishDecision::Skip => IpcOutputPushDecision::Skip,
        OverviewPublishDecision::Publish => IpcOutputPushDecision::Push,
        OverviewPublishDecision::ScheduleTrailingFlush { deadline } =>
            IpcOutputPushDecision::ScheduleTrailingFlush { deadline },
    }
}

/// Decide an overview publish for one feed; `min_interval` is the overview
/// tile's minimum render interval.
pub fn decide_overview_publish(
    visible: bool,
    last_overview_publish: Option<u64>,
    now: u64,
    min_interval: u64,
) -> (res: OverviewPublishDecision)
    ensures
        res == overview_decision(visible, last_overview_publish, now, min_interval),
{
    if !visible {
        return OverviewPublishDecision::Skip;
    }
    let last = match last_overview_publish {
        Some(last) => last,
        None => {
            return OverviewPublishDecision::Publish;
        },
    };
    let elapsed = if now >= last {
        now - last
    } else {
        0
    };
    if elapsed >= min_interval {
        OverviewPublishDecision::Publish
    } else {
        OverviewPublishDecision::ScheduleTrailingFlush { deadline: last.saturating_add(min_interval) }
    }
}

/// Whether a sidebar upsert publishes this feed: the first feed does, and
/// any feed at least `min_interval` after the last publish.
pub fn decide_sidebar_publish(last_publish: Option<u64>, now: u64, min_interval: u64) -> (res:
    bool)
    ensures
        res == match last_publish {
            None => true,
            Some(last) => elapsed_since(now, last) >= min_interval,
        },
{
    match last_publish {
        None => true,
        Some(last) => {
            let elapsed = if now >= last {
                now - last
            } else {
                0
            };
            elapsed >= min_interval
        },
    }
}

/// Decide an IPC output push; `active` says a client subscribes to this
/// pane's output.
pub fn decide_ipc_output_push(active: bool, last_push: Option<u64>, now: u64) -> (res:
    IpcOutputPushDecision)
    ensures
        res == ipc_push_decision(active, last_push, now),
{
    if !active {
        return IpcOutputPushDecision::Skip;
    }
    match last_push {
        None => IpcOutputPushDecision::Push,
        Some(last) => {
            let elapsed = if now >= last {
                now - last
            } else {
                0
            };
            if elapsed >= OUTPUT_PUSH_MIN_INTERVAL {
                IpcOutputPushDecision::Push
            } else {
                IpcOutputPushDecision::ScheduleTrailingFlush {
                    deadline: last.saturating_add(OUTPUT_PUSH_MIN_INTERVAL),
                }
            }
        },
    }
}

/// When the stability rescan is due: one delay after `now`, if the
/// detector needs a static rescan.
pub fn auto_approve_rescan_deadline(needs_static_rescan: bool, now: u64) -> (res: Option<u64>)
    ensures
        res == (if needs_static_rescan {
            Some(sat_add(now, AUTO_APPROVE_STABILITY_RESCAN_DELAY))
        } else {
            None::<u64>
        }),
{
    if needs_static_rescan {
        Some(now.saturating_add(AUTO_APPROVE_STABILITY_RESCAN_DELAY))
    } else {
        None
    }
}

/// Per-pane cache of the last-sent viewport row hashes, keyed by viewport
/// slot, plus the absolute row index of slot 0 they were computed against.
pub struct IpcRowCache {
    hashes: Vec<u64>,
    base: Option<u64>,
}

/// The mathematical state of an [`IpcRowCache`].
pub struct RowCacheView {
    pub hashes: Seq<u64>,
    pub base: Option<u64>,
}

impl View for IpcRowCache {
    type V = RowCacheView;

    closed spec fn view(&self) -> RowCacheView {
        RowCacheView { hashes: self.hashes@, base: self.base }
    }
}

/// The slots a diff resends: every slot when the viewport length or base
/// changed since the cached one, else the slots whose hash changed.
pub open spec fn slot_changed(cache: RowCacheView, base: u64, rows: Seq<u64>, i: int) -> bool {
    cache.hashes.len() != rows.len() || cache.base != Some(base) || cache.hashes[i] != rows[i]
}

impl IpcRowCache {
    /// An empty cache.
    pub fn new() -> (res: IpcRowCache)
        ensures
            res@.hashes.len() == 0,
            res@.base is None,
    {
        IpcRowCache { hashes: Vec::new(), base: None }
    }

    /// Drop every cached hash, so the next diff resends the whole viewport.
    pub fn reset(&mut self)
        ensures
            final(self)@.hashes.len() == 0,
            final(self)@.base is None,
    {
        self.hashes = Vec::new();
        self.base = None;
    }

    /// Diff the current viewport (`row_hashes`, one per slot, slot 0 at
    /// absolute row `base`) against the cache: returns the slots to resend,
    /// in order, and records the new hashes and base.
    pub fn diff(&mut self, base: u64, row_hashes: &[u64]) -> (res: Vec<usize>)
        ensures
            final(self)@.hashes == row_hashes@,
            final(self)@.base == Some(base),
            forall|k: int| 0 <= k < res@.len() ==> res@[k] < row_hashes@.len(),
            forall|k: int, l: int| 0 <= k < l < res@.len() ==> res@[k] < res@[l],
            forall|i: int|
                0 <= i < row_hashes@.len() ==> (slot_changed(old(self)@, base, row_hashes@, i)
                    <==> res@.contains(i as usize)),
    {
        let n = row_hashes.len();
        let invalidate = self.hashes.len() != n || self.base != Some(base);
        let ghost old_view = self@;
        if invalidate {
            let mut fresh: Vec<u64> = Vec::new();
            let mut j: usize = 0;
            while j < n
                invariant
                    j <= n,
                    fresh@.len() == j,
                    forall|k: int| 0 <= k < j ==> fresh@[k] == 0,
                decreases n - j,
            {
                fresh.push(0);
                j += 1;
            }
            self.hashes = fresh;
        }
        self.base = Some(base);
        let mut out: Vec<usize> = Vec::new();
        let mut i: usize = 0;
        while i < n
            invariant
                n == row_hashes@.len(),
                i <= n,
                self.hashes@.len() == n,
                self.base == Some(base),
                invalidate == (old_view.hashes.len() != n || old_view.base != Some(base)),
                invalidate ==> forall|k: int| i <= k < n ==> self.hashes@[k] == 0,
                !invalidate ==> forall|k: int| i <= k < n ==> self.hashes@[k] == old_view.hashes[k],
                forall|k: int| 0 <= k < i ==> self.hashes@[k] == row_hashes@[k],
                forall|k: int| 0 <= k < out@.len() ==> out@[k] < i,
                forall|k: int, l: int| 0 <= k < l < out@.len() ==> out@[k] < out@[l],
                forall|k: int|
                    0 <= k < i ==> (slot_changed(old_view, base, row_hashes@, k) <==> out@.contains(
                        k as usize,
                    )),
            decreases n - i,
        {
            let hash = row_hashes[i];
            let changed = self.hashes[i] != hash;
            if changed || invalidate {
                let ghost before = out@;
                self.hashes.set(i, hash);
                out.push(i);
                proof {
                    assert forall|k: int| 0 <= k < i + 1 implies (slot_changed(
                        old_view,
                        base,
                        row_hashes@,
                        k,
                    ) <==> out@.contains(k as usize)) by {
                        if k < i {
                            if before.contains(k as usize) {
                                let w = choose|w: int| 0 <= w < before.len() && before[w] == k as usize;
                                assert(out@[w] == k as usize);
                            }
                            if out@.contains(k as usize) {
                                let w = choose|w: int| 0 <= w < out@.len() && out@[w] == k as usize;
                                if w == before.len() {
                                } else {
                                    assert(before[w] == k as usize);
                                }
                            }
                        } else {
                            assert(out@[out@.len() - 1] == i);
                        }
                    }
                }
            } else {
                proof {
                    assert forall|k: int| 0 <= k < i + 1 implies (slot_changed(
                        old_view,
                        base,
                        row_hashes@,
                        k,
                    ) <==> out@.contains(k as usize)) by {
                        if k == i {
                            if out@.contains(k as usize) {
                                let w = choose|w: int| 0 <= w < out@.len() && out@[w] == k as usize;
                                assert(out@[w] < i);
                            }
                        }
                    }
                }
            }
            i += 1;
        }
        proof {
            assert(self.hashes@ =~= row_hashes@);
        }
        out
    }
}

/// The content hash of each viewport row, slot by slot.
pub open spec fn viewport_hashes(rows: Seq<Vec<GridCell>>) -> Seq<u64> {
    Seq::new(rows.len(), |i: int| row_hash(spans_of(rows[i]@)))
}

/// `diff` is the push for viewport `rows` (slot 0 at absolute row `base`)
/// against the cache state `cache`: in slot order, exactly the slots that
/// [`slot_changed`] picks, each with its absolute index and wire runs.
pub open spec fn is_row_diff(diff: Seq<WireRow>, cache: RowCacheView, base: u64, rows: Seq<Vec<GridCell>>) -> bool {
    &&& forall|k: int| 0 <= k < diff.len() ==> base <= #[trigger] diff[k].row < base + rows.len()
    &&& forall|k: int, l: int| 0 <= k < l < diff.len() ==> diff[k].row < diff[l].row
    &&& forall|k: int|
        0 <= k < diff.len() ==> (#[trigger] diff[k]).spans@.map_values(|s: Span| span_view(s))
            == spans_of(rows[diff[k].row - base]@)
    &&& forall|i: int|
        0 <= i < rows.len() ==> (slot_changed(cache, base, viewport_hashes(rows), i) <==> exists|k: int|
            0 <= k < diff.len() && #[trigger] diff[k].row == base + i)
}

/// Diff the viewport (`rows`, slot 0 at absolute row `base`) against
/// `cache`: returns, in slot order, the rows whose content hash changed
/// since the last diff (every row when the viewport's length or base moved),
/// each with its absolute index and wire runs, and records the new hashes.
pub fn compute_ipc_row_diff(base: u64, rows: &[Vec<GridCell>], cache: &mut IpcRowCache) -> (diff: Vec<WireRow>)
    requires
        base + rows@.len() <= u64::MAX,
    ensures
        final(cache)@.hashes == viewport_hashes(rows@),
        final(cache)@.base == Some(base),
        is_row_diff(diff@, old(cache)@, base, rows@),
{
    let ghost want = viewport_hashes(rows@);
    let mut hashes: Vec<u64> = Vec::new();
    let mut i: usize = 0;
    while i < rows.len()
        invariant
            i <= rows@.len(),
            want == viewport_hashes(rows@),
            hashes@ == want.subrange(0, i as int),
        decreases rows@.len() - i,
    {
        let spans = row_to_spans(rows[i].as_slice());
        let h = hash_wire_row_spans(spans.as_slice());
        hashes.push(h);
        assert(hashes@ =~= want.subrange(0, i + 1));
        i = i + 1;
    }
    assert(hashes@ =~= want);
    let slots = cache.diff(base, hashes.as_slice());
    let mut diff: Vec<WireRow> = Vec::new();
    let mut k: usize = 0;
    while k < slots.len()
        invariant
            k <= slots@.len(),
            base + rows@.len() <= u64::MAX,
            forall|a: int| 0 <= a < slots@.len() ==> slots@[a] < rows@.len(),
            forall|a: int, b: int| 0 <= a < b < slots@.len() ==> slots@[a] < slots@[b],
            diff@.len() == k,
            forall|a: int| 0 <= a < k ==> #[trigger] diff@[a].row == base + slots@[a],
            forall|a: int|
                0 <= a < k ==> (#[trigger] diff@[a]).spans@.map_values(|s: Span| span_view(s))
                    == spans_of(rows@[slots@[a] as int]@),
        decreases slots@.len() - k,
    {
        let slot = slots[k];
        let spans = row_to_spans(rows[slot].as_slice());
        diff.push(WireRow { row: base + slot as u64, spans });
        k = k + 1;
    }
    proof {
        assert forall|j: int|
            0 <= j < rows@.len() implies (slot_changed(old(cache)@, base, want, j) <==> exists|a: int|
                0 <= a < diff@.len() && #[trigger] diff@[a].row == base + j) by {
            if slot_changed(old(cache)@, base, want, j) {
                assert(slots@.contains(j as usize));
                let a = choose|a: int| 0 <= a < slots@.len() && slots@[a] == j as usize;
                assert(diff@[a].row == base + j);
            }
            if exists|a: int| 0 <= a < diff@.len() && #[trigger] diff@[a].row == base + j {
                let a = choose|a: int| 0 <= a < diff@.len() && #[trigger] diff@[a].row == base + j;
                assert(slots@[a] == j);
                assert(slots@.contains(j as usize));
            }
        }
    }
    diff
}

/// What one feed owes the pane's IPC output subscribers: the changed rows to
/// push now (`None` when nothing is pushed) and the deadline of a trailing
/// push when the throttle holds this one back.
pub struct IpcFeedOutput {
    pub rows: Option<Vec<WireRow>>,
    pub pending: Option<u64>,
}

/// The IPC output part of a feed. With no subscriber (`active` false) the
/// row cache is dropped, so a later subscriber gets the whole viewport;
/// inside the throttle window a trailing push is owed; otherwise the push
/// time is recorded and the changed rows, if any, are handed out.
pub fn ipc_output_for_feed(
    active: bool,
    last_push: &mut Option<u64>,
    now: u64,
    base: u64,
    rows: &[Vec<GridCell>],
    cache: &mut IpcRowCache,
) -> (out: IpcFeedOutput)
    requires
        base + rows@.len() <= u64::MAX,
    ensures
        match ipc_push_decision(active, *old(last_push), now) {
            IpcOutputPushDecision::Skip => {
                &&& out.rows is None
                &&& out.pending is None
                &&& *final(last_push) == *old(last_push)
                &&& final(cache)@.hashes.len() == 0
                &&& final(cache)@.base is None
            },
            IpcOutputPushDecision::Push => {
                &&& out.pending is None
                &&& *final(last_push) == Some(now)
                &&& final(cache)@.hashes == viewport_hashes(rows@)
                &&& final(cache)@.base == Some(base)
                &&& match out.rows {
                    None => forall|i: int|
                        0 <= i < rows@.len() ==> !slot_changed(old(cache)@, base, viewport_hashes(rows@), i),
                    Some(d) => d@.len() > 0 && is_row_diff(d@, old(cache)@, base, rows@),
                }
            },
            IpcOutputPushDecision::ScheduleTrailingFlush { deadline } => {
                &&& out.rows is None
                &&& out.pending == Some(deadline)
                &&& *final(last_push) == *old(last_push)
                &&& final(cache)@ == old(cache)@
            },
        },
{
    match decide_ipc_output_push(active, *last_push, now) {
        IpcOutputPushDecision::Skip => {
            cache.reset();
            IpcFeedOutput { rows: None, pending: None }
        },
        IpcOutputPushDecision::Push => {
            *last_push = Some(now);
            let diff = compute_ipc_row_diff(base, rows, cache);
            if diff.len() == 0 {
                proof {
                    assert forall|i: int|
                        0 <= i < rows@.len() implies !slot_changed(
                        old(cache)@,
                        base,
                        viewport_hashes(rows@),
                        i,
                    ) by {
                        if slot_changed(old(cache)@, base, viewport_hashes(rows@), i) {
                            let k = choose|k: int| 0 <= k < diff@.len() && #[trigger] diff@[k].row == base + i;
                        }
                    }
                }
                IpcFeedOutput { rows: None, pending: None }
            } else {
                IpcFeedOutput { rows: Some(diff), pending: None }
            }
        },
        IpcOutputPushDecision::ScheduleTrailingFlush { deadline } => {
            IpcFeedOutput { rows: None, pending: Some(deadline) }
        },
    }
}

/// The trailing push owed by a throttled feed, once its deadline passed with
/// no further output: the diff of the pane's current viewport, handed out
/// when it is not empty, with the push time recorded either way.
pub fn flush_pending_ipc_output(
    last_push: &mut Option<u64>,
    now: u64,
    base: u64,
    rows: &[Vec<GridCell>],
    cache: &mut IpcRowCache,
) -> (out: Option<Vec<WireRow>>)
    requires
        base + rows@.len() <= u64::MAX,
    ensures
        *final(last_push) == Some(now),
        final(cache)@.hashes == viewport_hashes(rows@),
        final(cache)@.base == Some(base),
        match out {
            None => forall|i: int|
                0 <= i < rows@.len() ==> !slot_changed(old(cache)@, base, viewport_hashes(rows@), i),
            Some(d) => d@.len() > 0 && is_row_diff(d@, old(cache)@, base, rows@),
        },
{
    let diff = compute_ipc_row_diff(base, rows, cache);
    *last_push = Some(now);
    if diff.len() == 0 {
        proof {
            assert forall|i: int|
                0 <= i < rows@.len() implies !slot_changed(old(cache)@, base, viewport_hashes(rows@), i) by {
                if slot_changed(old(cache)@, base, viewport_hashes(rows@), i) {
                    let k = choose|k: int| 0 <= k < diff@.len() && #[trigger] diff@[k].row == base + i;
                }
            }
        }
        None
    } else {
        Some(diff)
    }
}

/// After the cache was dropped (no subscriber for a while), the next push
/// resends every row of the viewport.
pub proof fn lemma_dropped_cache_resends_everything(cache: RowCacheView, base: u64, hashes: Seq<u64>)
    requires
        cache.hashes.len() == 0,
        cache.base is None,
    ensures
        forall|i: int| 0 <= i < hashes.len() ==> slot_changed(cache, base, hashes, i),
{
}

/// When the viewport's absolute base moved (scrollback grew), every row is
/// resent, unchanged content included, so clients learn the new indices.
pub proof fn lemma_base_shift_resends_everything(cache: RowCacheView, base: u64, hashes: Seq<u64>)
    requires
        cache.base != Some(base),
    ensures
        forall|i: int| 0 <= i < hashes.len() ==> slot_changed(cache, base, hashes, i),
{
}

/// A viewport that kept its size, base and content resends nothing.
pub proof fn lemma_unchanged_viewport_resends_nothing(cache: RowCacheView, base: u64, hashes: Seq<u64>)
    requires
        cache.base == Some(base),
        cache.hashes == hashes,
    ensures
        forall|i: int| 0 <= i < hashes.len() ==> !slot_changed(cache, base, hashes, i),
{
}

/// Two-bucket sliding byte counter behind the hot-spin gate.
pub struct SpinTraffic {
    pub bucket_start: Option<u64>,
    pub last_data_at: Option<u64>,
    pub current: usize,
    pub previous: usize,
}

/// `a + b`, saturating at `usize::MAX`.
pub open spec fn sat_add_usize(a: usize, b: usize) -> usize {
    if a + b > usize::MAX {
        usize::MAX
    } else {
        (a + b) as usize
    }
}

impl SpinTraffic {
    /// No traffic recorded.
    pub fn new() -> (res: SpinTraffic)
        ensures
            res.bucket_start is None,
            res.last_data_at is None,
            res.current == 0,
            res.previous == 0,
    {
        SpinTraffic { bucket_start: None, last_data_at: None, current: 0, previous: 0 }
    }

    /// Record one fed batch of `bytes` at `now`: a bucket two or more
    /// windows old resets both buckets, one at least a window old rotates
    /// into `previous`, and the batch is added to the current bucket.
    pub fn record(&mut self, now: u64, bytes: usize)
        ensures
            final(self).last_data_at == Some(now),
            match old(self).bucket_start {
                None => final(self).bucket_start == Some(now) && final(self).previous == old(self).previous && final(self).current == sat_add_usize(old(self).current, bytes),
                Some(start) => if elapsed_since(now, start) >= 2 * HOT_SPIN_WINDOW {
                    final(self).bucket_start == Some(now) && final(self).previous == 0
                        && final(self).current == bytes
                } else if elapsed_since(now, start) >= HOT_SPIN_WINDOW {
                    final(self).bucket_start == Some(now) && final(self).previous == old(self).current && final(self).current == bytes
                } else {
                    final(self).bucket_start == Some(start) && final(self).previous == old(self).previous && final(self).current == sat_add_usize(old(self).current, bytes)
                },
            },
    {
        match self.bucket_start {
            Some(start) => {
                let elapsed = if now >= start {
                    now - start
                } else {
                    0
                };
                if elapsed >= HOT_SPIN_WINDOW * 2 {
                    self.previous = 0;
                    self.current = 0;
                    self.bucket_start = Some(now);
                } else if elapsed >= HOT_SPIN_WINDOW {
                    self.previous = self.current;
                    self.current = 0;
                    self.bucket_start = Some(now);
                }
            },
            None => {
                self.bucket_start = Some(now);
            },
        }
        self.current = self.current.saturating_add(bytes);
        self.last_data_at = Some(now);
    }

    /// Whether the pre-park spin should arm: data arrived within one window
    /// and the two buckets together are interactive-sized.
    pub fn wants_spin(&self, now: u64) -> (res: bool)
        ensures
            res == (match self.last_data_at {
                Some(at) => elapsed_since(now, at) < HOT_SPIN_WINDOW,
                None => false,
            } && sat_add_usize(self.current, self.previous) <= HOT_SPIN_MAX_BATCH),
    {
        let recent = match self.last_data_at {
            Some(at) => {
                let elapsed = if now >= at {
                    now - at
                } else {
                    0
                };
                elapsed < HOT_SPIN_WINDOW
            },
            None => false,
        };
        recent && self.current.saturating_add(self.previous) <= HOT_SPIN_MAX_BATCH
    }
}

/// A throttled feed never strands its output: whenever the decision is not
/// to publish now while visible, a trailing publish is scheduled no later
/// than one interval after the last publish.
pub proof fn lemma_throttled_feed_schedules_flush(
    last: Option<u64>,
    now: u64,
    min_interval: u64,
)
    ensures
        overview_decision(true, last, now, min_interval) != OverviewPublishDecision::Skip,
        match overview_decision(true, last, now, min_interval) {
            OverviewPublishDecision::ScheduleTrailingFlush { deadline } => last is Some && deadline
                <= last->0 + min_interval && deadline >= last->0,
            _ => true,
        },
{
}

} // verus!
