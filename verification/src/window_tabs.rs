//! Placing a new native tab right after the tab it was opened from: the
//! decisions taken on the tab group's window list, with windows identified
//! by number.

use vstd::prelude::*;

verus! {

/// What to do with the new window given the tab group's current order.
#[derive(Clone, Copy, Debug, PartialEq, Eq, Structural)]
pub enum TabInsertPlan {
    /// The anchor is not in the group: leave the platform's default
    /// placement.
    AnchorMissing,
    /// The new window already sits right after the anchor.
    AlreadyPlaced,
    /// Insert the new window at this index.
    InsertAt(usize),
}

/// The last index holding `w`, if any.
pub open spec fn last_index_of(windows: Seq<u64>, w: u64) -> Option<int>
    decreases windows.len(),
{
    if windows.len() == 0 {
        None
    } else if windows.last() == w {
        Some(windows.len() - 1)
    } else {
        last_index_of(windows.drop_last(), w)
    }
}

/// Insert right after the anchor's (last) position, unless the new window
/// is already there.
pub open spec fn tab_insert_plan(windows: Seq<u64>, anchor: u64, new: u64) -> TabInsertPlan {
    match last_index_of(windows, anchor) {
        None => TabInsertPlan::AnchorMissing,
        Some(a) => if last_index_of(windows, new) == Some(a + 1) {
            TabInsertPlan::AlreadyPlaced
        } else {
            TabInsertPlan::InsertAt((a + 1) as usize)
        },
    }
}

/// An index position as a `usize`.
pub open spec fn as_index(o: Option<int>) -> Option<usize> {
    match o {
        Some(k) => Some(k as usize),
        None => None,
    }
}

proof fn lemma_last_index_step(windows: Seq<u64>, w: u64, i: int)
    requires
        0 <= i < windows.len(),
    ensures
        last_index_of(windows.subrange(0, i + 1), w) == (if windows[i] == w {
            Some(i)
        } else {
            last_index_of(windows.subrange(0, i), w)
        }),
{
    assert(windows.subrange(0, i + 1).drop_last() =~= windows.subrange(0, i));
}

proof fn lemma_last_index_bound(windows: Seq<u64>, w: u64)
    ensures
        match last_index_of(windows, w) {
            Some(i) => 0 <= i < windows.len() && windows[i] == w,
            None => true,
        },
    decreases windows.len(),
{
    if windows.len() > 0 && windows.last() != w {
        lemma_last_index_bound(windows.drop_last(), w);
    }
}

/// Where the new tab goes in the group `windows` (the group's order, each
/// window by number).
pub fn plan_tab_insert(windows: &[u64], anchor: u64, new: u64) -> (p: TabInsertPlan)
    ensures
        p == tab_insert_plan(windows@, anchor, new),
{
    let mut anchor_index: Option<usize> = None;
    let mut new_index: Option<usize> = None;
    let mut i: usize = 0;
    while i < windows.len()
        invariant
            i <= windows@.len(),
            anchor_index == as_index(last_index_of(windows@.subrange(0, i as int), anchor)),
            new_index == as_index(last_index_of(windows@.subrange(0, i as int), new)),
            forall|k: int| #[trigger] last_index_of(windows@.subrange(0, i as int), anchor) == Some(k) ==> 0 <= k < i,
            forall|k: int| #[trigger] last_index_of(windows@.subrange(0, i as int), new) == Some(k) ==> 0 <= k < i,
        decreases windows@.len() - i,
    {
        proof {
            lemma_last_index_step(windows@, anchor, i as int);
            lemma_last_index_step(windows@, new, i as int);
        }
        if windows[i] == anchor {
            anchor_index = Some(i);
        }
        if windows[i] == new {
            new_index = Some(i);
        }
        i = i + 1;
    }
    assert(windows@.subrange(0, windows@.len() as int) =~= windows@);
    let a = match anchor_index {
        Some(a) => a,
        None => {
            return TabInsertPlan::AnchorMissing;
        },
    };
    let target = a + 1;
    match new_index {
        Some(n) => {
            if n == target {
                return TabInsertPlan::AlreadyPlaced;
            }
        },
        None => {},
    }
    TabInsertPlan::InsertAt(target)
}

/// Whether `new` sits immediately after `anchor` somewhere in the group.
pub open spec fn placed_after(windows: Seq<u64>, anchor: u64, new: u64) -> bool {
    exists|i: int| 0 <= i && i + 1 < windows.len() && #[trigger] windows[i] == anchor && windows[i + 1] == new
}

/// Check that an insertion took: the group shows the new window directly
/// after the anchor.
pub fn is_placed_after(windows: &[u64], anchor: u64, new: u64) -> (r: bool)
    ensures
        r == placed_after(windows@, anchor, new),
{
    let n = windows.len();
    if n < 2 {
        return false;
    }
    let mut i: usize = 0;
    while i < n - 1
        invariant
            n == windows@.len(),
            n >= 2,
            i <= n - 1,
            forall|j: int| 0 <= j < i ==> !(#[trigger] windows@[j] == anchor && windows@[j + 1] == new),
        decreases n - 1 - i,
    {
        if windows[i] == anchor && windows[i + 1] == new {
            return true;
        }
        i = i + 1;
    }
    false
}

} // verus!
