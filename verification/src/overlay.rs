//! Plain-data view models of the native overlay cards: which rows show and
//! the display strings of each, already formatted, so the native layer only
//! lays labels out.

use vstd::prelude::*;

use crate::bytes::dec;
use crate::process_monitor::{
    elapsed_label, format_cpu, format_elapsed, format_mem, format_proc_count, format_process,
    mem_label, scroll_window, sort_label, visible_window, MonitorRow, ProcessMonitor,
};
use crate::text::{ascii_chars, em_dash};

verus! {

/// Rows the native process-monitor card shows at once.
pub const PROCESS_MONITOR_LIST_ROWS: usize = 10;

/// Show up to `capacity` rows, keeping `selected` centered once the list
/// overflows. Returns `(offset, shown)`.
pub fn overlay_scroll_window(len: usize, selected: usize, capacity: usize) -> (res: (usize, usize))
    ensures
        res == scroll_window(len, selected, capacity),
        res.0 + res.1 <= len,
{
    visible_window(len, selected, capacity)
}

/// One process-monitor row's display strings.
#[derive(Clone, Debug, PartialEq, Eq, Hash)]
pub struct ProcessMonitorRowView {
    pub process: String,
    pub cpu: String,
    pub mem: String,
    pub proc_count: String,
    pub elapsed: String,
    pub location: String,
    pub selected: bool,
}

/// The process-monitor card: its sort label and the visible rows.
#[derive(Clone, Debug, PartialEq, Eq, Hash)]
pub struct ProcessMonitorViewModel {
    pub sort_label: &'static str,
    pub rows: Vec<ProcessMonitorRowView>,
}

/// The CPU column: permille rounded to the nearest percent.
pub open spec fn cpu_text(p: Option<u32>) -> Seq<char> {
    match p {
        Some(p) => ascii_chars(dec(((p + 5) / 10) as nat) + seq![0x25u8]),
        None => em_dash(),
    }
}

/// The memory column.
pub open spec fn mem_text(b: Option<u64>) -> Seq<char> {
    match b {
        Some(b) => ascii_chars(mem_label(b)),
        None => em_dash(),
    }
}

/// The process-count column.
pub open spec fn count_text(c: Option<u32>) -> Seq<char> {
    match c {
        Some(c) => ascii_chars(dec(c as nat)),
        None => em_dash(),
    }
}

/// The elapsed column: whole seconds since the start, at `now`.
pub open spec fn elapsed_text(s: Option<u64>, now: u64) -> Seq<char> {
    match s {
        Some(s) => ascii_chars(elapsed_label((crate::redraw::elapsed_since(now, s) / 1000000000) as nat)),
        None => em_dash(),
    }
}

/// `v` displays row `r` at `now`, selected or not.
pub open spec fn shows_row(v: ProcessMonitorRowView, r: MonitorRow, now: u64, selected: bool) -> bool {
    &&& v.process@ == match r.process {
        Some(p) => p@,
        None => em_dash(),
    }
    &&& v.cpu@ == cpu_text(r.cpu_permille)
    &&& v.mem@ == mem_text(r.mem_bytes)
    &&& v.proc_count@ == count_text(r.proc_count)
    &&& v.elapsed@ == elapsed_text(r.started_at, now)
    &&& v.location@ == r.location@
    &&& v.selected == selected
}

/// The process-monitor card at `now` (nanoseconds since the Unix epoch):
/// the scroll window around the selection, each row formatted by the
/// monitor's formatters, the selected one marked.
pub fn process_monitor_view_model(monitor: &ProcessMonitor, now: u64) -> (vm: ProcessMonitorViewModel)
    ensures
        vm.sort_label@ == crate::process_monitor::sort_label_chars(monitor@.sort),
        ({
            let (offset, shown) = scroll_window(
                monitor@.rows.len() as usize,
                monitor@.selected,
                PROCESS_MONITOR_LIST_ROWS,
            );
            &&& vm.rows@.len() == shown
            &&& forall|i: int|
                0 <= i < shown ==> shows_row(
                    #[trigger] vm.rows@[i],
                    monitor@.rows[offset + i],
                    now,
                    offset + i == monitor@.selected,
                )
        }),
{
    let rows = monitor.rows();
    let selected = monitor.selected();
    let (offset, shown) = overlay_scroll_window(rows.len(), selected, PROCESS_MONITOR_LIST_ROWS);
    let mut out: Vec<ProcessMonitorRowView> = Vec::new();
    let mut i: usize = 0;
    while i < shown
        invariant
            rows@ == monitor@.rows,
            selected == monitor@.selected,
            (offset, shown) == scroll_window(rows@.len() as usize, selected, PROCESS_MONITOR_LIST_ROWS),
            offset + shown <= rows@.len(),
            i <= shown,
            out@.len() == i,
            forall|j: int|
                0 <= j < i ==> shows_row(
                    #[trigger] out@[j],
                    rows@[offset + j],
                    now,
                    offset + j == selected,
                ),
        decreases shown - i,
    {
        let row = &rows[offset + i];
        let process = match &row.process {
            Some(p) => format_process(Some(p.as_str())).to_owned(),
            None => format_process(None).to_owned(),
        };
        assert(rows@[offset + i as int] == *row);
        let view = ProcessMonitorRowView {
            process,
            cpu: format_cpu(row.cpu_permille),
            mem: format_mem(row.mem_bytes),
            proc_count: format_proc_count(row.proc_count),
            elapsed: format_elapsed(row.started_at, now),
            location: row.location.clone(),
            selected: offset + i == selected,
        };
        out.push(view);
        i = i + 1;
    }
    ProcessMonitorViewModel { sort_label: sort_label(monitor.sort()), rows: out }
}

/// Last-synced model hash per overlay kind, stored per window; `None` means
/// the overlay is currently absent.
#[derive(Clone, Copy, Debug, Default, PartialEq, Eq, Structural)]
pub struct NativeOverlayCache {
    pub palette: Option<u64>,
    pub theme_settings: Option<u64>,
    pub process_monitor: Option<u64>,
    pub confirm: Option<u64>,
    pub title_prompt: Option<u64>,
    pub toast: Option<u64>,
}

/// The slot after syncing `key`, and whether the overlay is rebuilt: only
/// when the key differs from the last one synced.
pub open spec fn sync_step(slot: Option<u64>, key: Option<u64>) -> (Option<u64>, bool) {
    (key, slot != key)
}

/// Record `key` (the hash of the model to show, `None` to hide) in one
/// overlay's slot, returning whether the overlay must be rebuilt.
pub fn sync_slot(slot: &mut Option<u64>, key: Option<u64>) -> (rebuild: bool)
    ensures
        (*final(slot), rebuild) == sync_step(*old(slot), key),
{
    let same = match (*slot, key) {
        (Some(a), Some(b)) => a == b,
        (None, None) => true,
        _ => false,
    };
    if same {
        return false;
    }
    *slot = key;
    true
}

/// A sync whose model hashes identically to the last one is a no-op: a
/// second sync with the same key never rebuilds.
pub proof fn lemma_repeated_sync_is_a_no_op(slot: Option<u64>, key: Option<u64>)
    ensures
        !sync_step(sync_step(slot, key).0, key).1,
        sync_step(sync_step(slot, key).0, key).0 == sync_step(slot, key).0,
{
}

/// UTF-16 code units a character takes: one in the Basic Multilingual
/// Plane, two (a surrogate pair) above it.
pub open spec fn utf16_len(c: char) -> nat {
    if (c as u32) < 0x10000 {
        1
    } else {
        2
    }
}

/// UTF-16 code units the first `k` characters of `text` take.
pub open spec fn utf16_offset(text: Seq<char>, k: int) -> nat
    decreases k,
{
    if k <= 0 {
        0
    } else {
        utf16_offset(text, k - 1) + utf16_len(text[k - 1])
    }
}

/// The UTF-16 range `(location, length)` of each matched character of
/// `text`, in the order of `positions`; a position past the text is
/// skipped.
pub open spec fn match_ranges(text: Seq<char>, positions: Seq<usize>) -> Seq<(usize, usize)>
    decreases positions.len(),
{
    if positions.len() == 0 {
        Seq::empty()
    } else {
        let prev = match_ranges(text, positions.drop_last());
        let p = positions.last() as int;
        if p < text.len() {
            prev.push((utf16_offset(text, p) as usize, utf16_len(text[p]) as usize))
        } else {
            prev
        }
    }
}

proof fn lemma_utf16_offset_bound(text: Seq<char>, k: int)
    requires
        0 <= k <= text.len(),
    ensures
        utf16_offset(text, k) <= 2 * k,
    decreases k,
{
    if k > 0 {
        lemma_utf16_offset_bound(text, k - 1);
    }
}

/// Where the command palette highlights a fuzzy match: the UTF-16 range of
/// each matched character (the native string indexes UTF-16 units), and the
/// UTF-16 length of the whole label.
pub fn match_utf16_ranges(text: &str, positions: &[usize]) -> (r: (Vec<(usize, usize)>, usize))
    requires
        text@.len() <= usize::MAX / 2,
        forall|i: int| 0 <= i < positions@.len() ==> positions@[i] < usize::MAX,
    ensures
        r.0@ == match_ranges(text@, positions@),
        r.1 == utf16_offset(text@, text@.len() as int),
{
    let n = text.unicode_len();
    let mut offsets: Vec<usize> = Vec::new();
    let mut acc: usize = 0;
    let mut k: usize = 0;
    while k < n
        invariant
            n == text@.len(),
            n <= usize::MAX / 2,
            k <= n,
            offsets@.len() == k,
            acc == utf16_offset(text@, k as int),
            forall|j: int| 0 <= j < k ==> offsets@[j] == utf16_offset(text@, j),
        decreases n - k,
    {
        proof {
            lemma_utf16_offset_bound(text@, k as int);
        }
        offsets.push(acc);
        let c = text.get_char(k);
        let units: usize = if (c as u32) < 0x10000 { 1 } else { 2 };
        acc = acc + units;
        k = k + 1;
    }
    offsets.push(acc);
    let mut ranges: Vec<(usize, usize)> = Vec::new();
    let mut i: usize = 0;
    while i < positions.len()
        invariant
            n == text@.len(),
            offsets@.len() == n + 1,
            forall|j: int| 0 <= j <= n ==> offsets@[j] == utf16_offset(text@, j),
            forall|j: int| 0 <= j < positions@.len() ==> positions@[j] < usize::MAX,
            i <= positions@.len(),
            ranges@ == match_ranges(text@, positions@.subrange(0, i as int)),
        decreases positions@.len() - i,
    {
        let pos = positions[i];
        let ghost sub = positions@.subrange(0, i + 1);
        assert(sub.drop_last() =~= positions@.subrange(0, i as int));
        if pos + 1 < offsets.len() {
            let start = offsets[pos];
            let end = offsets[pos + 1];
            assert(end - start == utf16_len(text@[pos as int]));
            ranges.push((start, end - start));
        }
        i = i + 1;
    }
    assert(positions@.subrange(0, positions@.len() as int) =~= positions@);
    (ranges, acc)
}

} // verus!
