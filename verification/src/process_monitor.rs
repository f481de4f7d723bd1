//! Process-monitor overlay state: one row per live pane, a stable sort by
//! CPU, memory or name (absent values last), a selection that follows its
//! pane across refreshes, and the row formatters.

use vstd::prelude::*;
use vstd::string::*;

verus! {

/// The session card a row jumps to: its window and pane.
#[derive(Clone, Copy, PartialEq, Eq, Debug, Structural)]
pub struct SessionCardId {
    pub window_id: u64,
    pub pane_id: u64,
}

/// One pane's row in the overlay table. Absent measurements render as an
/// em dash and sort last.
#[derive(Clone, Debug, PartialEq)]
pub struct MonitorRow {
    pub id: SessionCardId,
    pub process: Option<String>,
    pub cpu_permille: Option<u32>,
    pub mem_bytes: Option<u64>,
    pub proc_count: Option<u32>,
    /// Start time in nanoseconds since the Unix epoch.
    pub started_at: Option<u64>,
    /// Tab/session name plus the pane's ordinal within its window.
    pub location: String,
}

/// The overlay's sortable columns: CPU descending, memory descending,
/// process name ascending.
#[derive(Clone, Copy, PartialEq, Eq, Debug, Structural)]
pub enum SortKey {
    CpuDesc,
    MemDesc,
    NameAsc,
}

/// The next key in the CPU → Memory → Name → CPU cycle.
pub open spec fn next_key(k: SortKey) -> SortKey {
    match k {
        SortKey::CpuDesc => SortKey::MemDesc,
        SortKey::MemDesc => SortKey::NameAsc,
        SortKey::NameAsc => SortKey::CpuDesc,
    }
}

impl SortKey {
    /// The next key in the cycle.
    pub fn next(self) -> (res: SortKey)
        ensures
            res == next_key(self),
    {
        match self {
            SortKey::CpuDesc => SortKey::MemDesc,
            SortKey::MemDesc => SortKey::NameAsc,
            SortKey::NameAsc => SortKey::CpuDesc,
        }
    }
}

/// Lexicographic order of character sequences by code point (the order of
/// Rust's `str` comparison).
pub open spec fn seq_lt(a: Seq<char>, b: Seq<char>) -> bool
    decreases a.len(),
{
    if a.len() == 0 {
        b.len() > 0
    } else if b.len() == 0 {
        false
    } else if a[0] != b[0] {
        a[0] < b[0]
    } else {
        seq_lt(a.drop_first(), b.drop_first())
    }
}

/// `a` sorts strictly before `b` when both are present and ordered
/// (descending or ascending), or when only `a` is present.
pub open spec fn none_last_before(a: Option<int>, b: Option<int>, desc: bool) -> bool {
    match (a, b) {
        (Some(x), Some(y)) => if desc {
            x > y
        } else {
            x < y
        },
        (Some(_), None) => true,
        _ => false,
    }
}

/// A present name sorts before an absent one; present names ascend.
pub open spec fn name_before(a: Option<String>, b: Option<String>) -> bool {
    match (a, b) {
        (Some(x), Some(y)) => seq_lt(x@, y@),
        (Some(_), None) => true,
        _ => false,
    }
}

pub open spec fn opt_u32(o: Option<u32>) -> Option<int> {
    match o {
        Some(x) => Some(x as int),
        None => None,
    }
}

pub open spec fn opt_u64(o: Option<u64>) -> Option<int> {
    match o {
        Some(x) => Some(x as int),
        None => None,
    }
}

/// Row `a` sorts strictly before row `b` under `key`.
pub open spec fn row_before(a: MonitorRow, b: MonitorRow, key: SortKey) -> bool {
    match key {
        SortKey::CpuDesc => none_last_before(opt_u32(a.cpu_permille), opt_u32(b.cpu_permille), true),
        SortKey::MemDesc => none_last_before(opt_u64(a.mem_bytes), opt_u64(b.mem_bytes), true),
        SortKey::NameAsc => name_before(a.process, b.process),
    }
}

/// `p` is a permutation of `0..n`.
pub open spec fn is_permutation(p: Seq<int>, n: int) -> bool {
    &&& p.len() == n
    &&& forall|k: int| 0 <= k < n ==> 0 <= #[trigger] p[k] < n
    &&& forall|k: int, l: int| 0 <= k < n && 0 <= l < n && k != l ==> p[k] != p[l]
}

/// `out` is `inp` stably sorted under `key`: a rearrangement of it in which
/// no row sorts before an earlier one, and rows tied on the key keep their
/// relative order of arrival.
#[verifier::opaque]
pub open spec fn is_stable_sort(out: Seq<MonitorRow>, inp: Seq<MonitorRow>, key: SortKey) -> bool {
    exists|p: Seq<int>|
        {
            &&& is_permutation(p, inp.len() as int)
            &&& out.len() == inp.len()
            &&& forall|k: int| 0 <= k < out.len() ==> #[trigger] out[k] == inp[p[k]]
            &&& forall|k: int, l: int|
                0 <= k < l < out.len() ==> !row_before(#[trigger] out[l], #[trigger] out[k], key)
            &&& forall|k: int, l: int|
                0 <= k < l < out.len() && !row_before(#[trigger] out[k], #[trigger] out[l], key)
                    ==> p[k] < p[l]
        }
}

proof fn lemma_seq_lt_asym(a: Seq<char>, b: Seq<char>)
    ensures
        !(seq_lt(a, b) && seq_lt(b, a)),
        !seq_lt(a, a),
    decreases a.len(),
{
    if a.len() > 0 && b.len() > 0 && a[0] == b[0] {
        lemma_seq_lt_asym(a.drop_first(), b.drop_first());
    }
    if a.len() > 0 {
        lemma_seq_lt_asym(a.drop_first(), a.drop_first());
    }
}

proof fn lemma_seq_lt_total(a: Seq<char>, b: Seq<char>)
    ensures
        seq_lt(a, b) || seq_lt(b, a) || a =~= b,
    decreases a.len(),
{
    if a.len() > 0 && b.len() > 0 && a[0] == b[0] {
        lemma_seq_lt_total(a.drop_first(), b.drop_first());
        if a.drop_first() =~= b.drop_first() {
            assert(a =~= seq![a[0]] + a.drop_first());
            assert(b =~= seq![b[0]] + b.drop_first());
        }
    }
}

proof fn lemma_seq_lt_trans(a: Seq<char>, b: Seq<char>, c: Seq<char>)
    requires
        seq_lt(a, b),
        seq_lt(b, c),
    ensures
        seq_lt(a, c),
    decreases a.len(),
{
    if a.len() > 0 && b.len() > 0 && c.len() > 0 && a[0] == b[0] && b[0] == c[0] {
        lemma_seq_lt_trans(a.drop_first(), b.drop_first(), c.drop_first());
    }
}

/// Under every key, "sorts before" is a strict weak order: asymmetric, and
/// "not before" is transitive.
proof fn lemma_row_order(a: MonitorRow, b: MonitorRow, c: MonitorRow, key: SortKey)
    ensures
        !(row_before(a, b, key) && row_before(b, a, key)),
        !row_before(b, a, key) && !row_before(c, b, key) ==> !row_before(c, a, key),
{
    if key == SortKey::NameAsc {
        match (a.process, b.process, c.process) {
            (Some(x), Some(y), Some(z)) => {
                lemma_seq_lt_asym(x@, y@);
                lemma_seq_lt_total(x@, y@);
                lemma_seq_lt_total(y@, z@);
                lemma_seq_lt_asym(z@, x@);
                if seq_lt(z@, x@) && !seq_lt(y@, x@) && !seq_lt(z@, y@) {
                    if x@ =~= y@ {
                    } else {
                        lemma_seq_lt_trans(x@, y@, z@);
                        if y@ =~= z@ {
                        }
                    }
                    if y@ =~= z@ {
                        assert(seq_lt(y@, x@));
                    } else {
                        if x@ =~= y@ {
                            assert(seq_lt(z@, y@));
                        } else {
                            lemma_seq_lt_trans(x@, y@, z@);
                            lemma_seq_lt_asym(x@, z@);
                        }
                    }
                }
            },
            (Some(x), Some(y), None) => {
                lemma_seq_lt_asym(x@, y@);
            },
            _ => {},
        }
    }
}

/// `a` sorts before `b` under the code-point order.
pub fn str_lt(a: &str, b: &str) -> (res: bool)
    ensures
        res == seq_lt(a@, b@),
{
    let na = a.unicode_len();
    let nb = b.unicode_len();
    let mut i: usize = 0;
    proof {
        assert(a@.skip(0) =~= a@);
        assert(b@.skip(0) =~= b@);
    }
    while i < na && i < nb
        invariant
            na == a@.len(),
            nb == b@.len(),
            i <= na,
            i <= nb,
            seq_lt(a@.skip(i as int), b@.skip(i as int)) == seq_lt(a@, b@),
        decreases na - i,
    {
        let ca = a.get_char(i);
        let cb = b.get_char(i);
        let ghost sa = a@.skip(i as int);
        let ghost sb = b@.skip(i as int);
        assert(sa[0] == ca);
        assert(sb[0] == cb);
        if ca != cb {
            return ca < cb;
        }
        proof {
            assert(sa.drop_first() =~= a@.skip(i + 1));
            assert(sb.drop_first() =~= b@.skip(i + 1));
        }
        i += 1;
    }
    nb > i
}

/// Whether `a` sorts strictly before `b` under `key`.
pub fn row_sorts_before(a: &MonitorRow, b: &MonitorRow, key: SortKey) -> (res: bool)
    ensures
        res == row_before(*a, *b, key),
{
    match key {
        SortKey::CpuDesc => match (a.cpu_permille, b.cpu_permille) {
            (Some(x), Some(y)) => x > y,
            (Some(_), None) => true,
            _ => false,
        },
        SortKey::MemDesc => match (a.mem_bytes, b.mem_bytes) {
            (Some(x), Some(y)) => x > y,
            (Some(_), None) => true,
            _ => false,
        },
        SortKey::NameAsc => match (&a.process, &b.process) {
            (Some(x), Some(y)) => str_lt(x.as_str(), y.as_str()),
            (Some(_), None) => true,
            _ => false,
        },
    }
}

/// Sort `rows` stably by `sort` (absent values last under every key).
#[verifier::rlimit(80)]
pub fn sort_rows(rows: &mut Vec<MonitorRow>, sort: SortKey)
    ensures
        is_stable_sort(final(rows)@, old(rows)@, sort),
{
    let n = rows.len();
    let ghost orig = rows@;
    let ghost mut perm: Seq<int> = Seq::new(n as nat, |k: int| k);
    let mut i: usize = 0;
    while i < n
        invariant
            n == orig.len(),
            rows@.len() == n,
            i <= n,
            is_permutation(perm, n as int),
            forall|k: int| 0 <= k < n ==> #[trigger] rows@[k] == orig[perm[k]],
            forall|k: int| i <= k < n ==> #[trigger] perm[k] == k,
            forall|k: int| 0 <= k < i ==> #[trigger] perm[k] < i,
            forall|k: int, l: int|
                0 <= k < l < i ==> !row_before(#[trigger] rows@[l], #[trigger] rows@[k], sort),
            forall|k: int, l: int|
                0 <= k < l < i && !row_before(#[trigger] rows@[k], #[trigger] rows@[l], sort)
                    ==> perm[k] < perm[l],
        decreases n - i,
    {
        let ghost before = rows@;
        let x = rows.remove(i);
        let mut j: usize = i;
        while j > 0 && row_sorts_before(&x, &rows[j - 1], sort)
            invariant
                j <= i < n,
                before.len() == n,
                rows@ == before.remove(i as int),
                x == before[i as int],
                forall|k: int| j <= k < i ==> row_before(x, #[trigger] rows@[k], sort),
            decreases j,
        {
            j -= 1;
        }
        let ghost mid = rows@;
        rows.insert(j, x);
        proof {
            let p0 = perm;
            perm = p0.remove(i as int).insert(j as int, i as int);
            assert forall|k: int| 0 <= k < n implies #[trigger] rows@[k] == orig[perm[k]] by {
                if k < j {
                    assert(rows@[k] == before[k]);
                } else if k == j {
                } else if k <= i {
                    assert(rows@[k] == before[k - 1]);
                } else {
                    assert(rows@[k] == before[k]);
                }
            }
            assert forall|k: int, l: int| 0 <= k < n && 0 <= l < n && k != l implies perm[k]
                != perm[l] by {
                let pk = if k < j {
                    k
                } else if k == j {
                    i as int
                } else if k <= i {
                    k - 1
                } else {
                    k
                };
                let pl = if l < j {
                    l
                } else if l == j {
                    i as int
                } else if l <= i {
                    l - 1
                } else {
                    l
                };
                assert(perm[k] == p0[pk]);
                assert(perm[l] == p0[pl]);
            }
            assert forall|k: int| 0 <= k < n implies 0 <= #[trigger] perm[k] < n by {
                if k < j {
                } else if k == j {
                } else if k <= i {
                    assert(perm[k] == p0[k - 1]);
                } else {
                }
            }
            assert forall|k: int| i + 1 <= k < n implies #[trigger] perm[k] == k by {}
            assert forall|k: int| 0 <= k < i + 1 implies #[trigger] perm[k] < i + 1 by {
                if k < j {
                } else if k == j {
                } else {
                    assert(perm[k] == p0[k - 1]);
                }
            }
            assert forall|k: int, l: int| 0 <= k < l < i + 1 implies !row_before(
                #[trigger] rows@[l],
                #[trigger] rows@[k],
                sort,
            ) by {
                let x0 = before[i as int];
                if l < j {
                    assert(rows@[l] == before[l]);
                    assert(rows@[k] == before[k]);
                } else if l == j {
                    assert(rows@[k] == before[k]);
                    // k < j: x is not before before[j - 1], which is not before before[k]
                    if k < j - 1 {
                        lemma_row_order(before[k], before[j - 1], x0, sort);
                    }
                } else if k == j {
                    assert(rows@[l] == before[l - 1]);
                    assert(row_before(x0, mid[l - 1], sort));
                    lemma_row_order(x0, before[l - 1], x0, sort);
                } else if k < j {
                    assert(rows@[l] == before[l - 1]);
                    assert(rows@[k] == before[k]);
                } else {
                    assert(rows@[l] == before[l - 1]);
                    assert(rows@[k] == before[k - 1]);
                }
            }
            assert forall|k: int, l: int|
                0 <= k < l < i + 1 && !row_before(
                    #[trigger] rows@[k],
                    #[trigger] rows@[l],
                    sort,
                ) implies perm[k] < perm[l] by {
                let x0 = before[i as int];
                if l < j {
                    assert(rows@[l] == before[l]);
                    assert(rows@[k] == before[k]);
                } else if l == j {
                    assert(perm[l] == i);
                    assert(perm[k] == p0[k]);
                } else if k == j {
                    assert(rows@[l] == before[l - 1]);
                    assert(row_before(x0, mid[l - 1], sort));
                } else if k < j {
                    assert(rows@[l] == before[l - 1]);
                    assert(rows@[k] == before[k]);
                    assert(perm[l] == p0[l - 1]);
                } else {
                    assert(rows@[l] == before[l - 1]);
                    assert(rows@[k] == before[k - 1]);
                    assert(perm[l] == p0[l - 1]);
                    assert(perm[k] == p0[k - 1]);
                }
            }
        }
        i += 1;
    }
    proof {
        reveal(is_stable_sort);
        assert(is_permutation(perm, n as int));
        assert(rows@.len() == orig.len());
    }
}

} // verus!

verus! {

/// Per-pane resource metrics of a session card.
#[derive(Clone, Copy, Debug, PartialEq)]
pub struct PaneMetrics {
    pub cpu_permille: Option<u32>,
    pub mem_bytes: u64,
    pub proc_count: u32,
    /// Start time in nanoseconds since the Unix epoch.
    pub started_at: Option<u64>,
}

/// What the overlay reads of one session card.
#[derive(Clone, Debug)]
pub struct SessionCard {
    pub display_name: String,
    pub process: Option<String>,
    pub metrics: Option<PaneMetrics>,
}

/// The view of an optional string.
pub open spec fn opt_str_view(o: Option<String>) -> Option<Seq<char>> {
    match o {
        Some(s) => Some(s@),
        None => None,
    }
}

/// How many of the first `n` ids lie in window `w`.
pub open spec fn count_in_window(ids: Seq<SessionCardId>, w: u64, n: int) -> nat
    decreases n,
{
    if n <= 0 {
        0
    } else {
        count_in_window(ids, w, n - 1) + if ids[n - 1].window_id == w {
            1nat
        } else {
            0nat
        }
    }
}

/// `" · pane "`, between a card's name and its pane ordinal.
pub open spec fn pane_separator() -> Seq<char> {
    seq![' ', '\u{b7}', ' ', 'p', 'a', 'n', 'e', ' ']
}

/// Row `row` mirrors card `card` under `id`, with location ordinal `ordinal`.
pub open spec fn row_of_card(row: MonitorRow, id: SessionCardId, card: SessionCard, ordinal: nat) -> bool {
    &&& row.id == id
    &&& opt_str_view(row.process) == opt_str_view(card.process)
    &&& row.cpu_permille == match card.metrics {
        Some(m) => m.cpu_permille,
        None => None,
    }
    &&& row.mem_bytes == match card.metrics {
        Some(m) => Some(m.mem_bytes),
        None => None,
    }
    &&& row.proc_count == match card.metrics {
        Some(m) => Some(m.proc_count),
        None => None,
    }
    &&& row.started_at == match card.metrics {
        Some(m) => m.started_at,
        None => None,
    }
    &&& row.location@ == card.display_name@ + pane_separator() + crate::text::ascii_chars(
        crate::bytes::dec(ordinal),
    )
}

/// Build one row per card, in the given order; each row's location is the
/// card's name and the pane's ordinal among same-window cards seen so far.
pub fn build_rows(cards: &[(SessionCardId, &SessionCard)]) -> (res: Vec<MonitorRow>)
    ensures
        res@.len() == cards@.len(),
        forall|k: int|
            0 <= k < cards@.len() ==> row_of_card(
                #[trigger] res@[k],
                cards@[k].0,
                *cards@[k].1,
                count_in_window(
                    cards@.map_values(|c: (SessionCardId, &SessionCard)| c.0),
                    cards@[k].0.window_id,
                    k + 1,
                ),
            ),
{
    let ghost ids = cards@.map_values(|c: (SessionCardId, &SessionCard)| c.0);
    let mut out: Vec<MonitorRow> = Vec::new();
    let mut k: usize = 0;
    while k < cards.len()
        invariant
            k <= cards@.len(),
            ids == cards@.map_values(|c: (SessionCardId, &SessionCard)| c.0),
            out@.len() == k,
            forall|m: int|
                0 <= m < k ==> row_of_card(
                    #[trigger] out@[m],
                    cards@[m].0,
                    *cards@[m].1,
                    count_in_window(ids, cards@[m].0.window_id, m + 1),
                ),
        decreases cards@.len() - k,
    {
        let (id, card) = cards[k];
        let mut ordinal: usize = 0;
        let mut j: usize = 0;
        while j <= k
            invariant
                k < cards@.len(),
                ids == cards@.map_values(|c: (SessionCardId, &SessionCard)| c.0),
                id == cards@[k as int].0,
                j <= k + 1,
                ordinal == count_in_window(ids, id.window_id, j as int),
                ordinal <= j,
            decreases k + 1 - j,
        {
            let (other, _) = cards[j];
            proof {
                assert(ids[j as int] == other);
            }
            if other.window_id == id.window_id {
                ordinal += 1;
            }
            j += 1;
        }
        let process = match &card.process {
            Some(p) => Some(p.clone()),
            None => None,
        };
        let (cpu_permille, mem_bytes, proc_count, started_at) = match card.metrics {
            Some(m) => (m.cpu_permille, Some(m.mem_bytes), Some(m.proc_count), m.started_at),
            None => (None, None, None, None),
        };
        let mut digits: Vec<u8> = Vec::new();
        crate::bytes::push_decimal(&mut digits, ordinal as u64);
        proof {
            crate::text::lemma_dec_ascii(ordinal as nat);
            assert(digits@ =~= crate::bytes::dec(ordinal as nat));
        }
        let digits = crate::text::string_from_ascii(digits);
        let sep = " \u{b7} pane ";
        proof {
            reveal_strlit(" \u{b7} pane ");
        }
        let mut location = card.display_name.clone();
        location.append(sep);
        location.append(digits.as_str());
        let ghost before = out@;
        out.push(
            MonitorRow {
                id,
                process,
                cpu_permille,
                mem_bytes,
                proc_count,
                started_at,
                location,
            },
        );
        proof {
            assert(location@ =~= card.display_name@ + pane_separator() + crate::text::ascii_chars(
                crate::bytes::dec(ordinal as nat),
            ));
            assert forall|m: int|
                0 <= m < k + 1 implies row_of_card(
                #[trigger] out@[m],
                cards@[m].0,
                *cards@[m].1,
                count_in_window(ids, cards@[m].0.window_id, m + 1),
            ) by {
                if m < k {
                    assert(out@[m] == before[m]);
                }
            }
        }
        k += 1;
    }
    out
}

/// The index of the first row with `id`, if any.
pub open spec fn first_index(rows: Seq<MonitorRow>, id: SessionCardId) -> Option<int> {
    if exists|k: int| 0 <= k < rows.len() && rows[k].id == id {
        Some(
            choose|k: int|
                0 <= k < rows.len() && rows[k].id == id && forall|j: int|
                    0 <= j < k ==> rows[j].id != id,
        )
    } else {
        None
    }
}

/// The selection after a refresh: the selected pane's new position when it
/// is still listed, else the top row.
pub open spec fn selection_after(rows: Seq<MonitorRow>, selected_id: Option<SessionCardId>) -> usize {
    match selected_id {
        Some(id) => match first_index(rows, id) {
            Some(p) => p as usize,
            None => 0,
        },
        None => 0,
    }
}

/// The position of the first row with `id`.
pub fn position_of(rows: &Vec<MonitorRow>, id: SessionCardId) -> (res: Option<usize>)
    ensures
        match res {
            Some(p) => first_index(rows@, id) == Some(p as int) && p < rows@.len(),
            None => first_index(rows@, id) is None,
        },
{
    let mut k: usize = 0;
    while k < rows.len()
        invariant
            k <= rows@.len(),
            forall|j: int| 0 <= j < k ==> rows@[j].id != id,
        decreases rows@.len() - k,
    {
        if rows[k].id == id {
            proof {
                assert(rows@[k as int].id == id);
                let c = choose|c: int|
                    0 <= c < rows@.len() && rows@[c].id == id && forall|j: int|
                        0 <= j < c ==> rows@[j].id != id;
                if c < k {
                } else if c > k {
                    assert(rows@[k as int].id != id);
                }
            }
            return Some(k);
        }
        k += 1;
    }
    None
}

/// The mathematical state of a [`ProcessMonitor`].
pub struct MonitorView {
    pub rows: Seq<MonitorRow>,
    pub sort: SortKey,
    pub selected: usize,
}

/// The selected row's id, if the selection names a row.
pub open spec fn selected_id_of(v: MonitorView) -> Option<SessionCardId> {
    if v.selected < v.rows.len() {
        Some(v.rows[v.selected as int].id)
    } else {
        None
    }
}

/// `selected` clamped into the rows after moving by `delta`.
pub open spec fn moved_selection(len: nat, selected: usize, delta: i32) -> usize {
    if len == 0 {
        selected
    } else {
        let next = selected + delta;
        if next < 0 {
            0
        } else if next > len - 1 {
            (len - 1) as usize
        } else {
            next as usize
        }
    }
}

/// `rows` are in order under `key`: no row sorts strictly before an earlier
/// one.
pub open spec fn rows_sorted(rows: Seq<MonitorRow>, key: SortKey) -> bool {
    forall|k: int, l: int| 0 <= k < l < rows.len() ==> !row_before(#[trigger] rows[l], #[trigger] rows[k], key)
}

/// A stable sort's output is in order under its key.
pub proof fn lemma_stable_sort_is_sorted(out: Seq<MonitorRow>, inp: Seq<MonitorRow>, key: SortKey)
    requires
        is_stable_sort(out, inp, key),
    ensures
        rows_sorted(out, key),
{
    reveal(is_stable_sort);
}

/// The overlay's state: rows in display order, active sort and selection.
pub struct ProcessMonitor {
    rows: Vec<MonitorRow>,
    sort: SortKey,
    selected: usize,
}

impl View for ProcessMonitor {
    type V = MonitorView;

    closed spec fn view(&self) -> MonitorView {
        MonitorView { rows: self.rows@, sort: self.sort, selected: self.selected }
    }
}

impl ProcessMonitor {
    /// The selection names a row, or is 0 on an empty table, and the rows
    /// are in order under the active sort.
    #[verifier::type_invariant]
    spec fn selection_in_bounds(&self) -> bool {
        &&& self.selected < self.rows@.len() || (self.rows@.len() == 0 && self.selected == 0)
        &&& rows_sorted(self.rows@, self.sort)
    }

    /// Open a fresh session: CPU-descending order, top row selected.
    pub fn open(rows: Vec<MonitorRow>) -> (res: ProcessMonitor)
        ensures
            res@.sort == SortKey::CpuDesc,
            is_stable_sort(res@.rows, rows@, SortKey::CpuDesc),
            res@.selected == 0,
            rows_sorted(res@.rows, res@.sort),
    {
        let mut monitor = ProcessMonitor { rows: Vec::new(), sort: SortKey::CpuDesc, selected: 0 };
        monitor.refresh(rows);
        proof {
            use_type_invariant(&monitor);
        }
        monitor
    }

    /// Re-sort and replace the rows, keeping the selection on the same pane
    /// when it is still listed and falling back to the top row otherwise.
    pub fn refresh(&mut self, rows: Vec<MonitorRow>)
        ensures
            final(self)@.sort == old(self)@.sort,
            is_stable_sort(final(self)@.rows, rows@, old(self)@.sort),
            final(self)@.selected == selection_after(final(self)@.rows, selected_id_of(old(self)@)),
            rows_sorted(final(self)@.rows, final(self)@.sort),
    {
        let selected_id = self.selected_id();
        self.refresh_keeping(rows, selected_id);
        proof {
            use_type_invariant(&*self);
        }
    }

    /// Move the selection by `delta` rows, clamped to the table; a no-op on
    /// an empty table.
    pub fn move_selection(&mut self, delta: i32)
        ensures
            final(self)@.rows == old(self)@.rows,
            final(self)@.sort == old(self)@.sort,
            final(self)@.selected == moved_selection(old(self)@.rows.len(), old(self)@.selected, delta),
    {
        proof {
            use_type_invariant(&*self);
        }
        let n = self.rows.len();
        if n == 0 {
            return;
        }
        let next: i128 = self.selected as i128 + delta as i128;
        let last: i128 = (n - 1) as i128;
        if next < 0 {
            self.selected = 0;
        } else if next > last {
            self.selected = n - 1;
        } else {
            self.selected = next as usize;
        }
    }

    /// Cycle CPU → Memory → Name → CPU and re-sort, keeping the selection
    /// on the same pane.
    pub fn cycle_sort(&mut self)
        ensures
            final(self)@.sort == next_key(old(self)@.sort),
            is_stable_sort(final(self)@.rows, old(self)@.rows, next_key(old(self)@.sort)),
            final(self)@.selected == selection_after(final(self)@.rows, selected_id_of(old(self)@)),
    {
        let selected_id = self.selected_id();
        proof {
            use_type_invariant(&*self);
        }
        let mut rows: Vec<MonitorRow> = Vec::new();
        self.selected = 0;
        std::mem::swap(&mut rows, &mut self.rows);
        self.sort = self.sort.next();
        self.refresh_keeping(rows, selected_id);
    }

    /// Replace the rows (sorting them) and select `selected_id`'s position.
    fn refresh_keeping(&mut self, rows: Vec<MonitorRow>, selected_id: Option<SessionCardId>)
        ensures
            final(self)@.sort == old(self)@.sort,
            is_stable_sort(final(self)@.rows, rows@, old(self)@.sort),
            final(self)@.selected == selection_after(final(self)@.rows, selected_id),
    {
        let ghost old_rows = rows@;
        let mut rows = rows;
        sort_rows(&mut rows, self.sort);
        let pos = match selected_id {
            Some(id) => match position_of(&rows, id) {
                Some(p) => p,
                None => 0,
            },
            None => 0,
        };
        proof {
            use_type_invariant(&*self);
            lemma_stable_sort_is_sorted(rows@, old_rows, self.sort);
        }
        self.selected = 0;
        self.rows = rows;
        self.selected = pos;
    }

    /// The rows in display order: whatever sequence of calls led here, they
    /// are in order under the active sort.
    pub fn rows(&self) -> (res: &[MonitorRow])
        ensures
            res@ == self@.rows,
            rows_sorted(res@, self@.sort),
    {
        proof {
            use_type_invariant(self);
        }
        self.rows.as_slice()
    }

    /// The active sort key.
    pub fn sort(&self) -> (res: SortKey)
        ensures
            res == self@.sort,
    {
        self.sort
    }

    /// The selected row index.
    pub fn selected(&self) -> (res: usize)
        ensures
            res == self@.selected,
            res < self@.rows.len() || (self@.rows.len() == 0 && res == 0),
    {
        proof {
            use_type_invariant(self);
        }
        self.selected
    }

    /// The selected row's id, `None` on an empty table.
    pub fn selected_id(&self) -> (res: Option<SessionCardId>)
        ensures
            res == selected_id_of(self@),
    {
        if self.selected < self.rows.len() {
            Some(self.rows[self.selected].id)
        } else {
            None
        }
    }
}

} // verus!

verus! {

/// `n / d` rounded to the nearest integer, ties to even.
pub open spec fn round_half_even(n: nat, d: nat) -> nat {
    let q = n / d;
    let r = n % d;
    if 2 * r > d || (2 * r == d && q % 2 == 1) {
        q + 1
    } else {
        q
    }
}

/// 2^53: integers below it are exact in an `f64`.
pub open spec fn f64_exact_limit() -> nat {
    9007199254740992
}

/// The spacing of `f64` values around `b`: the least power of two `p` (at
/// least the given one) with `b / p` below 2^53.
pub open spec fn f64_spacing(b: nat, p: nat) -> nat
    decreases b - p,
{
    if p == 0 || b / p < f64_exact_limit() {
        p
    } else {
        proof {
            assert(b / p >= 2 ==> b >= 2 * p) by (nonlinear_arith);
        }
        f64_spacing(b, 2 * p)
    }
}

/// `b` converted to the nearest `f64` (ties to even), as an integer.
pub open spec fn f64_of(b: nat) -> nat {
    let p = f64_spacing(b, 1);
    round_half_even(b, p) * p
}

/// The ASCII rendering of a two-digit field, zero-padded (`{:02}`).
pub open spec fn two_digits(x: nat) -> Seq<u8> {
    if x < 10 {
        seq![0x30u8, (48 + x) as u8]
    } else {
        crate::bytes::dec(x)
    }
}

/// 1 MiB and 1 GiB.
pub open spec fn mib() -> nat {
    1048576
}

pub open spec fn gib() -> nat {
    1073741824
}

/// The memory label of `bytes`: whole MB below 1 GiB, GB with two decimals
/// at or above it, each rounded to nearest with ties to even after the byte
/// count is taken as an `f64`.
pub open spec fn mem_label(bytes: u64) -> Seq<u8> {
    let v = f64_of(bytes as nat);
    if v >= gib() {
        let h = round_half_even(v * 100, gib());
        crate::bytes::dec(h / 100) + seq![0x2eu8] + two_digits(h % 100) + seq![
            0x20u8,
            0x47u8,
            0x42u8,
        ]
    } else {
        crate::bytes::dec(round_half_even(v, mib())) + seq![0x20u8, 0x4du8, 0x42u8]
    }
}

/// The elapsed-time label: `m:ss` below an hour, `h:mm:ss` from then on.
pub open spec fn elapsed_label(total_secs: nat) -> Seq<u8> {
    let hours = total_secs / 3600;
    let minutes = (total_secs % 3600) / 60;
    let seconds = total_secs % 60;
    if hours > 0 {
        crate::bytes::dec(hours) + seq![0x3au8] + two_digits(minutes) + seq![0x3au8] + two_digits(
            seconds,
        )
    } else {
        crate::bytes::dec(minutes) + seq![0x3au8] + two_digits(seconds)
    }
}

/// A `{:02}` field of a number below 100 is exactly two digits that read
/// back as the number.
pub proof fn lemma_two_digits_reads_back(x: nat)
    requires
        x < 100,
    ensures
        two_digits(x).len() == 2,
        crate::bytes::all_digits(two_digits(x)),
        crate::bytes::digits_value(two_digits(x)) == x,
{
    let d = two_digits(x);
    if x < 10 {
        let z = seq![0x30u8];
        assert(d.drop_last() =~= z);
        assert(z.drop_last() =~= Seq::<u8>::empty());
        assert(crate::bytes::digits_value(Seq::<u8>::empty()) == 0);
        assert(crate::bytes::digits_value(z) == crate::bytes::digits_value(z.drop_last()) * 10 + (
        z.last() - 0x30) as nat);
        assert(crate::bytes::digits_value(z) == 0);
        assert(crate::bytes::digits_value(d) == crate::bytes::digits_value(d.drop_last()) * 10 + (
        d.last() - 0x30) as nat);
    } else {
        crate::bytes::lemma_dec_reads_back(x);
        crate::bytes::lemma_dec_reads_back(x / 10);
        assert(crate::bytes::dec(x / 10).len() == 1);
    }
}

/// The elapsed label reads back as the elapsed seconds: from an hour on it
/// is `h:mm:ss` with `h·3600 + mm·60 + ss` equal to them, below an hour it
/// is `m:ss` with `m·60 + ss` equal to them; minutes and seconds fields are
/// two digits below 60.
pub proof fn lemma_elapsed_label_reads_back(t: nat)
    ensures
        ({
            let label = elapsed_label(t);
            let n = label.len() as int;
            let secs = label.subrange(n - 2, n);
            &&& n >= 4
            &&& label[n - 3] == 0x3au8
            &&& crate::bytes::all_digits(secs)
            &&& crate::bytes::digits_value(secs) < 60
            &&& if t >= 3600 {
                let hours = label.subrange(0, n - 6);
                let mins = label.subrange(n - 5, n - 3);
                &&& n >= 7
                &&& label[n - 6] == 0x3au8
                &&& hours.len() > 0
                &&& crate::bytes::all_digits(hours)
                &&& crate::bytes::all_digits(mins)
                &&& crate::bytes::digits_value(mins) < 60
                &&& crate::bytes::digits_value(hours) * 3600 + crate::bytes::digits_value(mins) * 60
                    + crate::bytes::digits_value(secs) == t
            } else {
                let mins = label.subrange(0, n - 3);
                &&& mins.len() > 0
                &&& crate::bytes::all_digits(mins)
                &&& crate::bytes::digits_value(mins) * 60 + crate::bytes::digits_value(secs) == t
            }
        }),
{
    let hours = t / 3600;
    let minutes = (t % 3600) / 60;
    let seconds = t % 60;
    vstd::arithmetic::div_mod::lemma_fundamental_div_mod(t as int, 3600);
    vstd::arithmetic::div_mod::lemma_fundamental_div_mod(t as int % 3600, 60);
    vstd::arithmetic::div_mod::lemma_mod_mod(t as int, 60, 60);
    assert(hours * 3600 + minutes * 60 + seconds == t);
    assert(minutes < 60);
    lemma_two_digits_reads_back(minutes);
    lemma_two_digits_reads_back(seconds);
    let label = elapsed_label(t);
    if hours > 0 {
        crate::bytes::lemma_dec_reads_back(hours);
        let h = crate::bytes::dec(hours);
        let n = label.len() as int;
        assert(label == h + seq![0x3au8] + two_digits(minutes) + seq![0x3au8] + two_digits(seconds));
        assert(n == h.len() + 6);
        assert(label.subrange(0, n - 6) =~= h);
        assert(label.subrange(n - 5, n - 3) =~= two_digits(minutes));
        assert(label.subrange(n - 2, n) =~= two_digits(seconds));
        assert(label[n - 6] == 0x3au8);
        assert(label[n - 3] == 0x3au8);
    } else {
        crate::bytes::lemma_dec_reads_back(minutes);
        let m = crate::bytes::dec(minutes);
        let n = label.len() as int;
        assert(label == m + seq![0x3au8] + two_digits(seconds));
        assert(n == m.len() + 3);
        assert(label.subrange(0, n - 3) =~= m);
        assert(label.subrange(n - 2, n) =~= two_digits(seconds));
        assert(label[n - 3] == 0x3au8);
        assert(t < 3600);
    }
}

proof fn lemma_two_digits_ascii(x: nat)
    ensures
        crate::text::all_ascii(two_digits(x)),
{
    crate::text::lemma_dec_ascii(x);
}

/// Append `{:02}` of `x`.
fn push_two_digits(out: &mut Vec<u8>, x: u64)
    ensures
        final(out)@ == old(out)@ + two_digits(x as nat),
{
    if x < 10 {
        out.push(0x30u8);
        out.push(48u8 + (x as u8));
        proof {
            assert(final(out)@ =~= old(out)@ + two_digits(x as nat));
        }
    } else {
        crate::bytes::push_decimal(out, x);
    }
}

fn round_half_even_u128(n: u128, d: u128) -> (res: u128)
    requires
        d > 0,
        n / d < u128::MAX,
    ensures
        res == round_half_even(n as nat, d as nat),
{
    let q = n / d;
    let r = n % d;
    if r > d - r || (r == d - r && q % 2 == 1) {
        q + 1
    } else {
        q
    }
}

/// CPU share: permille (1 core = 1000) rounded to the nearest percent, or
/// an em dash before the first sample.
pub fn format_cpu(cpu_permille: Option<u32>) -> (res: String)
    ensures
        res@ == match cpu_permille {
            Some(p) => crate::text::ascii_chars(
                crate::bytes::dec(((p + 5) / 10) as nat) + seq![0x25u8],
            ),
            None => crate::text::em_dash(),
        },
{
    match cpu_permille {
        Some(permille) => {
            let mut v: Vec<u8> = Vec::new();
            crate::bytes::push_decimal(&mut v, (permille as u64 + 5) / 10);
            v.push(0x25u8);
            proof {
                crate::text::lemma_dec_ascii(((permille + 5) / 10) as nat);
                assert(crate::text::all_ascii(v@));
            }
            crate::text::string_from_ascii(v)
        },
        None => crate::text::em_dash_string(),
    }
}

/// Memory: MB below 1 GiB, GB with two decimals at or above it; an em dash
/// when unavailable.
pub fn format_mem(bytes: Option<u64>) -> (res: String)
    ensures
        res@ == match bytes {
            Some(b) => crate::text::ascii_chars(mem_label(b)),
            None => crate::text::em_dash(),
        },
{
    let b = match bytes {
        Some(b) => b,
        None => {
            return crate::text::em_dash_string();
        },
    };
    let wide = b as u128;
    let mut p: u128 = 1;
    while wide / p >= 9007199254740992
        invariant
            1 <= p <= wide + 1,
            wide == b as nat,
            f64_spacing(b as nat, p as nat) == f64_spacing(b as nat, 1),
        decreases wide - p,
    {
        proof {
            assert(wide / p >= 2 ==> wide >= 2 * p) by (nonlinear_arith);
        }
        p = p * 2;
    }
    proof {
        assert(wide / p <= wide) by (nonlinear_arith)
            requires
                p >= 1,
        ;
    }
    let q = round_half_even_u128(wide, p);
    proof {
        assert(q <= wide / p + 1);
        assert(q * p <= (wide / p + 1) * p) by (nonlinear_arith)
            requires
                q <= wide / p + 1,
                p >= 1,
        ;
        assert((wide / p + 1) * p <= wide + p) by (nonlinear_arith)
            requires
                p >= 1,
        ;
    }
    let v: u128 = q * p;
    let mut out: Vec<u8> = Vec::new();
    if v >= 1073741824 {
        let h = round_half_even_u128(v * 100, 1073741824);
        crate::bytes::push_decimal(&mut out, (h / 100) as u64);
        out.push(0x2eu8);
        push_two_digits(&mut out, (h % 100) as u64);
        out.push(0x20u8);
        out.push(0x47u8);
        out.push(0x42u8);
        proof {
            crate::text::lemma_dec_ascii((h / 100) as nat);
            lemma_two_digits_ascii((h % 100) as nat);
            assert(crate::text::all_ascii(out@));
        }
    } else {
        let w = round_half_even_u128(v, 1048576);
        crate::bytes::push_decimal(&mut out, w as u64);
        out.push(0x20u8);
        out.push(0x4du8);
        out.push(0x42u8);
        proof {
            crate::text::lemma_dec_ascii(w as nat);
            assert(crate::text::all_ascii(out@));
        }
    }
    crate::text::string_from_ascii(out)
}

/// Process count, or an em dash when unavailable.
pub fn format_proc_count(count: Option<u32>) -> (res: String)
    ensures
        res@ == match count {
            Some(c) => crate::text::ascii_chars(crate::bytes::dec(c as nat)),
            None => crate::text::em_dash(),
        },
{
    match count {
        Some(c) => {
            let mut v: Vec<u8> = Vec::new();
            crate::bytes::push_decimal(&mut v, c as u64);
            proof {
                crate::text::lemma_dec_ascii(c as nat);
                assert(v@ =~= crate::bytes::dec(c as nat));
            }
            crate::text::string_from_ascii(v)
        },
        None => crate::text::em_dash_string(),
    }
}

/// Elapsed time since `started_at` (both in nanoseconds since the Unix
/// epoch; a start after `now` counts as zero), or an em dash without a start
/// time.
pub fn format_elapsed(started_at: Option<u64>, now: u64) -> (res: String)
    ensures
        res@ == match started_at {
            Some(s) => crate::text::ascii_chars(
                elapsed_label(
                    (crate::redraw::elapsed_since(now, s) / 1000000000) as nat,
                ),
            ),
            None => crate::text::em_dash(),
        },
{
    let start = match started_at {
        Some(s) => s,
        None => {
            return crate::text::em_dash_string();
        },
    };
    let elapsed = if now >= start {
        now - start
    } else {
        0
    };
    let total_secs = elapsed / 1000000000;
    let hours = total_secs / 3600;
    let minutes = (total_secs % 3600) / 60;
    let seconds = total_secs % 60;
    let mut out: Vec<u8> = Vec::new();
    if hours > 0 {
        crate::bytes::push_decimal(&mut out, hours);
        out.push(0x3au8);
        push_two_digits(&mut out, minutes);
        out.push(0x3au8);
        push_two_digits(&mut out, seconds);
        proof {
            crate::text::lemma_dec_ascii(hours as nat);
        }
    } else {
        crate::bytes::push_decimal(&mut out, minutes);
        out.push(0x3au8);
        push_two_digits(&mut out, seconds);
        proof {
            crate::text::lemma_dec_ascii(minutes as nat);
        }
    }
    proof {
        lemma_two_digits_ascii(minutes as nat);
        lemma_two_digits_ascii(seconds as nat);
        assert(crate::text::all_ascii(out@));
    }
    crate::text::string_from_ascii(out)
}

/// The process name, or an em dash when unavailable.
pub fn format_process(process: Option<&str>) -> (res: &str)
    ensures
        res@ == match process {
            Some(p) => p@,
            None => crate::text::em_dash(),
        },
{
    match process {
        Some(p) => p,
        None => {
            let dash = "\u{2014}";
            proof {
                reveal_strlit("\u{2014}");
            }
            dash
        },
    }
}

/// The short title label of a sort key.
pub open spec fn sort_label_chars(sort: SortKey) -> Seq<char> {
    match sort {
        SortKey::CpuDesc => seq!['C', 'P', 'U'],
        SortKey::MemDesc => seq!['M', 'e', 'm', 'o', 'r', 'y'],
        SortKey::NameAsc => seq!['N', 'a', 'm', 'e'],
    }
}

/// The short label of the active sort key, shown in the overlay title.
pub fn sort_label(sort: SortKey) -> (res: &'static str)
    ensures
        res@ == sort_label_chars(sort),
{
    match sort {
        SortKey::CpuDesc => {
            proof {
                reveal_strlit("CPU");
            }
            "CPU"
        },
        SortKey::MemDesc => {
            proof {
                reveal_strlit("Memory");
            }
            "Memory"
        },
        SortKey::NameAsc => {
            proof {
                reveal_strlit("Name");
            }
            "Name"
        },
    }
}

/// The visible slice of a list: everything when it fits in `capacity`,
/// otherwise `capacity` rows keeping `selected` centered, pinned at the
/// ends. Returns `(offset, shown)`.
pub open spec fn scroll_window(len: usize, selected: usize, capacity: usize) -> (usize, usize) {
    if len <= capacity {
        (0, len)
    } else {
        let start = if selected >= capacity / 2 {
            (selected - capacity / 2) as usize
        } else {
            0
        };
        (
            if start < len - capacity {
                start
            } else {
                (len - capacity) as usize
            },
            capacity,
        )
    }
}

/// Show up to `capacity` rows, keeping `selected` centered once the list
/// overflows. Returns `(offset, shown)`.
pub fn visible_window(len: usize, selected: usize, capacity: usize) -> (res: (usize, usize))
    ensures
        res == scroll_window(len, selected, capacity),
        res.0 + res.1 <= len,
        selected < len ==> res.0 <= selected < res.0 + res.1 || res.1 == 0,
{
    if len <= capacity {
        return (0, len);
    }
    let start = selected.saturating_sub(capacity / 2);
    let limit = len - capacity;
    let offset = if start < limit {
        start
    } else {
        limit
    };
    (offset, capacity)
}

} // verus!
