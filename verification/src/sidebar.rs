//! Which terminal rows a sidebar card previews: the last few rows that hold
//! anything, each trimmed of its trailing blank cells.

use vstd::prelude::*;

verus! {

/// The non-blank rows of a grid, in order: `(row index, trimmed length)`,
/// where `lens[i]` is row `i`'s length without trailing blank cells (0 for
/// an all-blank row).
pub open spec fn nonblank_rows(lens: Seq<usize>) -> Seq<(usize, usize)>
    decreases lens.len(),
{
    if lens.len() == 0 {
        Seq::empty()
    } else {
        let rest = nonblank_rows(lens.drop_last());
        if lens.last() > 0 {
            rest.push(((lens.len() - 1) as usize, lens.last()))
        } else {
            rest
        }
    }
}

/// The last `limit` of the non-blank rows, oldest first.
pub open spec fn preview_picks(lens: Seq<usize>, limit: usize) -> Seq<(usize, usize)> {
    let all = nonblank_rows(lens);
    if all.len() <= limit {
        all
    } else {
        all.subrange(all.len() - limit, all.len() as int)
    }
}

/// Pick the rows a preview shows: the last `limit` rows holding any
/// non-blank cell, oldest first, each with its trimmed length. `lens[i]`
/// is row `i`'s length without trailing blank cells.
pub fn preview_row_picks(lens: &[usize], limit: usize) -> (picks: Vec<(usize, usize)>)
    ensures
        picks@ == preview_picks(lens@, limit),
{
    let mut all: Vec<(usize, usize)> = Vec::new();
    let mut i: usize = 0;
    while i < lens.len()
        invariant
            i <= lens@.len(),
            all@ == nonblank_rows(lens@.subrange(0, i as int)),
        decreases lens@.len() - i,
    {
        let ghost before = lens@.subrange(0, i as int);
        assert(lens@.subrange(0, i + 1).drop_last() =~= before);
        if lens[i] > 0 {
            all.push((i, lens[i]));
        }
        i = i + 1;
    }
    assert(lens@.subrange(0, lens@.len() as int) =~= lens@);
    let n = all.len();
    if n <= limit {
        return all;
    }
    let mut picks: Vec<(usize, usize)> = Vec::new();
    let mut j: usize = n - limit;
    while j < n
        invariant
            n == all@.len(),
            n > limit,
            n - limit <= j <= n,
            picks@ == all@.subrange(n - limit, j as int),
        decreases n - j,
    {
        picks.push(all[j]);
        assert(all@.subrange(n - limit, j + 1) =~= all@.subrange(n - limit, j as int).push(
            all@[j as int],
        ));
        j = j + 1;
    }
    picks
}

/// A preview never shows more than `limit` rows, and never a blank one.
pub proof fn lemma_preview_is_bounded_and_nonblank(lens: Seq<usize>, limit: usize)
    ensures
        preview_picks(lens, limit).len() <= limit,
        forall|k: int|
            0 <= k < preview_picks(lens, limit).len() ==> (#[trigger] preview_picks(
                lens,
                limit,
            )[k]).1 > 0,
{
    lemma_nonblank_rows_positive(lens);
}

proof fn lemma_nonblank_rows_positive(lens: Seq<usize>)
    ensures
        forall|k: int| 0 <= k < nonblank_rows(lens).len() ==> (#[trigger] nonblank_rows(lens)[k]).1 > 0,
    decreases lens.len(),
{
    if lens.len() > 0 {
        let rest = nonblank_rows(lens.drop_last());
        lemma_nonblank_rows_positive(lens.drop_last());
        assert forall|k: int| 0 <= k < nonblank_rows(lens).len() implies (#[trigger] nonblank_rows(
            lens,
        )[k]).1 > 0 by {
            if k < rest.len() {
                assert(nonblank_rows(lens)[k] == rest[k]);
            }
        }
    }
}

} // verus!
